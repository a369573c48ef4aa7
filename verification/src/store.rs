//! The site's RDF store: an in-memory Oxigraph store with one named graph per page.
//!
//! The store's contents are modelled as a set of quads of plain values: subject,
//! predicate, object and graph name.  An object is `(0, iri, "")` for an IRI and
//! `(2, lexical form, datatype)` for a literal as the store reads it back, a simple
//! literal having the datatype `xsd:string` (RDF 1.1 makes them one and the same).  The
//! store keeps the XSD datatypes it knows as values, so such a literal reads back in
//! canonical form (`"007"^^xsd:integer` as `"7"`, the integer family as `xsd:integer`).
//! Query results come back in an order the store does not fix, so what is said of them
//! is said of every order.
use vstd::prelude::*;
use oxigraph::model::{GraphNameRef, Literal, NamedNodeRef, QuadRef, Term};
use oxigraph::io::{RdfFormat, RdfParser};
use oxigraph::sparql::{PreparedSparqlQuery, QueryEvaluationError, QueryResults, SparqlEvaluator};
use oxigraph::store::Store;
use crate::json::{Json, JsonV, json_view, json_obj_view, json_seq_view, lemma_json_obj_view_push,
    lemma_json_seq_view_push};
use crate::types::{ObjectValue, XSD_STRING, hex_digit_upper};
use crate::text::flat_map_chars;

verus! {

#[verifier::external_type_specification]
#[verifier::external_body]
pub struct ExStore(Store);

/// An RDF object as a plain value: kind 0 for an IRI, 2 for a literal with its datatype.
pub type QuadObject = (int, Seq<char>, Seq<char>);

/// The quads an Oxigraph store holds, as plain values: each object as the store reads
/// it back (`Store::iter`), the default graph named by the empty sequence.
pub uninterp spec fn store_quads(s: Store) -> Set<(Seq<char>, Seq<char>, (int, Seq<char>, Seq<char>), Seq<char>)>;

/// Whether a string is an absolute IRI as Oxigraph's IRI parser accepts it.
pub uninterp spec fn iri_parses(s: Seq<char>) -> bool;

/// The lexical form and datatype that a typed literal reads back as from an Oxigraph
/// store, which keeps the XSD datatypes it knows as values (canonical form; the
/// integer family as `xsd:integer`).
pub uninterp spec fn stored_typed_literal(value: Seq<char>, datatype: Seq<char>) -> (Seq<char>, Seq<char>);

/// The XSD datatypes Oxigraph stores as values rather than as text: booleans, floats,
/// doubles, the integer family, decimals, the date and time types and durations.
pub open spec fn natively_stored_datatype(dt: Seq<char>) -> bool {
    let x = "http://www.w3.org/2001/XMLSchema#"@;
    &&& dt.len() > x.len()
    &&& dt.take(x.len() as int) == x
    &&& {
        let local = dt.skip(x.len() as int);
        ||| local == "boolean"@ || local == "float"@ || local == "double"@ || local == "decimal"@
        ||| local == "integer"@ || local == "byte"@ || local == "short"@ || local == "int"@ || local == "long"@
        ||| local == "unsignedByte"@ || local == "unsignedShort"@ || local == "unsignedInt"@ || local == "unsignedLong"@
        ||| local == "positiveInteger"@ || local == "negativeInteger"@ || local == "nonPositiveInteger"@
        ||| local == "nonNegativeInteger"@
        ||| local == "dateTime"@ || local == "dateTimeStamp"@ || local == "time"@ || local == "date"@
        ||| local == "gYearMonth"@ || local == "gYear"@ || local == "gMonthDay"@ || local == "gDay"@ || local == "gMonth"@
        ||| local == "duration"@ || local == "yearMonthDuration"@ || local == "dayTimeDuration"@
    }
}

/// The object a typed literal is stored as: as given for a datatype that Oxigraph keeps
/// as text, else as it reads back.
pub open spec fn typed_literal_object(value: Seq<char>, datatype: Seq<char>) -> QuadObject {
    if natively_stored_datatype(datatype) {
        (2, stored_typed_literal(value, datatype).0, stored_typed_literal(value, datatype).1)
    } else {
        (2, value, datatype)
    }
}

/// Whether Oxigraph's Turtle parser reads a text without error.
pub uninterp spec fn turtle_parses(text: Seq<char>) -> bool;

/// Whether Oxigraph's SPARQL parser (no base IRI) accepts a query text.
pub uninterp spec fn sparql_parses(query: Seq<char>) -> bool;

/// A new in-memory store, empty (`Store::new`, which cannot fail for the in-memory
/// storage this build has).
#[verifier::external_body]
fn new_store() -> (r: Option<Store>)
    ensures
        r matches Some(s) ==> store_quads(s) == Set::<(Seq<char>, Seq<char>, QuadObject, Seq<char>)>::empty(),
        r is Some,
{
    Store::new().ok()
}

/// Inserts `<s> <p> <o> <g>` with `o` an IRI (`NamedNodeRef::new` on each IRI, then
/// `Store::insert`, which cannot fail in memory).  Succeeds exactly when every IRI
/// parses; a failed call leaves the store as it was.
#[verifier::external_body]
fn insert_iri_quad(store: &mut Store, s: &str, p: &str, o: &str, g: &str) -> (ok: bool)
    ensures
        ok == (iri_parses(s@) && iri_parses(p@) && iri_parses(o@) && iri_parses(g@)),
        ok ==> store_quads(*final(store)) == store_quads(*old(store)).insert((s@, p@, (0int, o@, Seq::<char>::empty()), g@)),
        !ok ==> store_quads(*final(store)) == store_quads(*old(store)),
{
    let (Ok(sn), Ok(pn), Ok(on), Ok(gn)) =
        (NamedNodeRef::new(s), NamedNodeRef::new(p), NamedNodeRef::new(o), NamedNodeRef::new(g))
    else {
        return false;
    };
    store.insert(QuadRef::new(sn, pn, on, GraphNameRef::NamedNode(gn))).is_ok()
}

/// Inserts `<s> <p> "value" <g>` with a simple literal (`Literal::new_simple_literal`,
/// whose datatype is `xsd:string`).  Succeeds exactly when the three IRIs parse; a failed
/// call leaves the store as it was.
#[verifier::external_body]
fn insert_simple_literal_quad(store: &mut Store, s: &str, p: &str, value: &str, g: &str) -> (ok: bool)
    ensures
        ok == (iri_parses(s@) && iri_parses(p@) && iri_parses(g@)),
        ok ==> store_quads(*final(store)) == store_quads(*old(store)).insert((s@, p@, (2int, value@, XSD_STRING@), g@)),
        !ok ==> store_quads(*final(store)) == store_quads(*old(store)),
{
    let (Ok(sn), Ok(pn), Ok(gn)) = (NamedNodeRef::new(s), NamedNodeRef::new(p), NamedNodeRef::new(g)) else {
        return false;
    };
    let lit = Literal::new_simple_literal(value);
    store.insert(QuadRef::new(sn, pn, lit.as_ref(), GraphNameRef::NamedNode(gn))).is_ok()
}

/// Inserts `<s> <p> "value"^^<datatype> <g>` (`Literal::new_typed_literal`).  Succeeds
/// exactly when the four IRIs parse; a failed call leaves the store as it was.  The
/// stored object is the literal as the store keeps it (`typed_literal_object`).
#[verifier::external_body]
fn insert_typed_literal_quad(store: &mut Store, s: &str, p: &str, value: &str, datatype: &str, g: &str) -> (ok: bool)
    ensures
        ok == (iri_parses(s@) && iri_parses(p@) && iri_parses(datatype@) && iri_parses(g@)),
        ok && natively_stored_datatype(datatype@) ==> store_quads(*final(store)) == store_quads(*old(store)).insert(
            (s@, p@, (2int, stored_typed_literal(value@, datatype@).0, stored_typed_literal(value@, datatype@).1), g@),
        ),
        ok && !natively_stored_datatype(datatype@) ==> store_quads(*final(store)) == store_quads(*old(store)).insert(
            (s@, p@, (2int, value@, datatype@), g@),
        ),
        !ok ==> store_quads(*final(store)) == store_quads(*old(store)),
{
    let (Ok(sn), Ok(pn), Ok(dn), Ok(gn)) =
        (NamedNodeRef::new(s), NamedNodeRef::new(p), NamedNodeRef::new(datatype), NamedNodeRef::new(g))
    else {
        return false;
    };
    let lit = Literal::new_typed_literal(value, dn);
    store.insert(QuadRef::new(sn, pn, lit.as_ref(), GraphNameRef::NamedNode(gn))).is_ok()
}

/// Loads Turtle text into the default graph (`Store::load_from_reader`, atomic: on an
/// error nothing is added; in memory the only error is one of parsing).  Every quad a
/// load adds lies in the default graph; which quads those are is not stated, as blank
/// nodes are renamed afresh on every load.
#[verifier::external_body]
fn load_turtle_default(store: &mut Store, text: &str) -> (ok: bool)
    ensures
        ok == turtle_parses(text@),
        ok ==> store_quads(*old(store)).subset_of(store_quads(*final(store))),
        ok ==> forall|q: Quad| #[trigger] store_quads(*final(store)).contains(q) && !store_quads(*old(store)).contains(q)
            ==> q.3 == Seq::<char>::empty(),
        !ok ==> store_quads(*final(store)) == store_quads(*old(store)),
{
    store.load_from_reader(RdfFormat::Turtle, text.as_bytes()).is_ok()
}

/// Loads Turtle text into a named graph, the text's own graphs not allowed
/// (`Store::load_from_reader`, atomic; Turtle has no named graphs of its own, and
/// `with_default_graph` puts every quad in the given graph).  Fails when the graph name
/// does not parse, else exactly when the text does not.
#[verifier::external_body]
fn load_turtle_named(store: &mut Store, text: &str, graph: &str) -> (ok: bool)
    ensures
        ok == (iri_parses(graph@) && turtle_parses(text@)),
        ok ==> store_quads(*old(store)).subset_of(store_quads(*final(store))),
        ok ==> forall|q: Quad| #[trigger] store_quads(*final(store)).contains(q) && !store_quads(*old(store)).contains(q)
            ==> q.3 == graph@,
        !ok ==> store_quads(*final(store)) == store_quads(*old(store)),
{
    let Ok(gn) = NamedNodeRef::new(graph) else {
        return false;
    };
    let parser = RdfParser::from_format(RdfFormat::Turtle).without_named_graphs().with_default_graph(gn);
    store.load_from_reader(parser, text.as_bytes()).is_ok()
}

/// Removes every quad (`Store::clear`, which cannot fail in memory).
#[verifier::external_body]
fn clear_store(store: &mut Store)
    ensures
        store_quads(*final(store)) == Set::<(Seq<char>, Seq<char>, QuadObject, Seq<char>)>::empty(),
{
    let _ = store.clear();
}

/// A quad as plain values: subject, predicate, object, graph name.
pub type Quad = (Seq<char>, Seq<char>, QuadObject, Seq<char>);

/// A sequence that lists each element of a set once.
pub open spec fn enumerates<A>(qs: Seq<A>, s: Set<A>) -> bool {
    qs.no_duplicates() && qs.to_set() == s
}

/// An IRI in N-Triples: `<iri>`.
pub open spec fn iri_nt(i: Seq<char>) -> Seq<char> {
    "<"@ + i + ">"@
}

/// A subject in N-Triples: an IRI (which holds a `:`), else a blank node `_:id`.
pub open spec fn subject_nt(s: Seq<char>) -> Seq<char> {
    if exists|k: int| 0 <= k < s.len() && s[k] == ':' {
        iri_nt(s)
    } else {
        "_:"@ + s
    }
}

/// One character of a quoted N-Triples string: the short escapes, `\uXXXX` for the
/// other control characters and U+FFFE/U+FFFF, anything else as it is.
pub open spec fn nt_escape_char(c: char) -> Seq<char> {
    if c == '\u{8}' {
        "\\b"@
    } else if c == '\t' {
        "\\t"@
    } else if c == '\n' {
        "\\n"@
    } else if c == '\u{C}' {
        "\\f"@
    } else if c == '\r' {
        "\\r"@
    } else if c == '"' {
        "\\\""@
    } else if c == '\\' {
        "\\\\"@
    } else if (c as int) <= 0x1F || c == '\u{7F}' || c == '\u{FFFE}' || c == '\u{FFFF}' {
        "\\u"@ + seq![
            hex_digit_upper((c as int / 4096) % 16),
            hex_digit_upper((c as int / 256) % 16),
            hex_digit_upper((c as int / 16) % 16),
            hex_digit_upper(c as int % 16),
        ]
    } else {
        seq![c]
    }
}

/// A lexical form as a quoted N-Triples string.
pub open spec fn nt_quoted(v: Seq<char>) -> Seq<char> {
    "\""@ + flat_map_chars(v, |c: char| nt_escape_char(c)) + "\""@
}

/// An object in N-Triples: an IRI, a blank node, a literal (`"v"` for `xsd:string`,
/// else `"v"^^<dt>`) or a language-tagged string `"v"@lang`.
pub open spec fn object_nt(o: QuadObject) -> Seq<char> {
    if o.0 == 0 {
        iri_nt(o.1)
    } else if o.0 == 1 {
        "_:"@ + o.1
    } else if o.0 == 3 {
        nt_quoted(o.1) + "@"@ + o.2
    } else if o.2 == XSD_STRING@ {
        nt_quoted(o.1)
    } else {
        nt_quoted(o.1) + "^^"@ + iri_nt(o.2)
    }
}

/// The text a query gives for an object: a literal's lexical form, anything else in
/// N-Triples.
pub open spec fn object_value_text(o: QuadObject) -> Seq<char> {
    if o.0 == 2 || o.0 == 3 {
        o.1
    } else {
        object_nt(o)
    }
}

/// The N-Triples texts of a quad's subject, predicate and object.
pub open spec fn quad_nt(q: Quad) -> (Seq<char>, Seq<char>, Seq<char>) {
    (subject_nt(q.0), iri_nt(q.1), object_nt(q.2))
}

/// The N-Triples texts of each quad of a list.
pub open spec fn quads_nt(qs: Seq<Quad>) -> Seq<(Seq<char>, Seq<char>, Seq<char>)> {
    qs.map_values(|q: Quad| quad_nt(q))
}

/// The texts of each pair of a list.
pub open spec fn pairs_text(ps: Seq<(Seq<char>, QuadObject)>) -> Seq<(Seq<char>, Seq<char>)> {
    ps.map_values(|po: (Seq<char>, QuadObject)| pair_text(po))
}

pub open spec fn text_triples(v: Seq<(String, String, String)>) -> Seq<(Seq<char>, Seq<char>, Seq<char>)> {
    v.map_values(|t: (String, String, String)| (t.0@, t.1@, t.2@))
}

/// Every quad of the store as the N-Triples texts of its subject, predicate and object
/// (`Store::iter`, each term's `Display`), each quad once, in the store's order.  The
/// in-memory storage never fails, so there is always an answer.
#[verifier::external_body]
fn quad_texts(store: &Store) -> (r: Option<Vec<(String, String, String)>>)
    ensures
        r is Some,
        r matches Some(v) ==> exists|qs: Seq<Quad>| enumerates(qs, store_quads(*store))
            && text_triples(v@) == quads_nt(qs),
{
    store.iter().map(|q| q.map(|q| (q.subject.to_string(), q.predicate.to_string(), q.object.to_string())))
        .collect::<Result<Vec<_>, _>>().ok()
}

/// The (predicate, object) pairs of the quads with a given subject in a given graph.
pub open spec fn subject_pairs_in(quads: Set<Quad>, subject: Seq<char>, graph: Seq<char>) -> Set<(Seq<char>, QuadObject)> {
    Set::new(|po: (Seq<char>, QuadObject)| quads.contains((subject, po.0, po.1, graph)))
}

pub open spec fn text_pairs(v: Seq<(String, String)>) -> Seq<(Seq<char>, Seq<char>)> {
    v.map_values(|t: (String, String)| (t.0@, t.1@))
}

/// The text a query gives for a pair: the predicate in N-Triples, the object's value text.
pub open spec fn pair_text(po: (Seq<char>, QuadObject)) -> (Seq<char>, Seq<char>) {
    (iri_nt(po.0), object_value_text(po.1))
}

/// The predicates and objects of the quads with subject `s` in graph `g`
/// (`Store::quads_for_pattern`), each pair once, in the store's order: the predicate in
/// N-Triples, a literal object by its lexical form (`Literal::value`), any other object
/// in N-Triples.  No answer when `s` or `g` is not an IRI (`NamedNodeRef::new`); the
/// in-memory storage never fails.
#[verifier::external_body]
fn subject_pairs(store: &Store, s: &str, g: &str) -> (r: Option<Vec<(String, String)>>)
    ensures
        r is Some == (iri_parses(s@) && iri_parses(g@)),
        r matches Some(v) ==> exists|ps: Seq<(Seq<char>, QuadObject)>| enumerates(ps, subject_pairs_in(store_quads(*store), s@, g@))
            && text_pairs(v@) == pairs_text(ps),
{
    let (Ok(sn), Ok(gn)) = (NamedNodeRef::new(s), NamedNodeRef::new(g)) else {
        return None;
    };
    store.quads_for_pattern(Some(sn.into()), None, None, Some(gn.into()))
        .map(|q| q.map(|q| (q.predicate.to_string(), match q.object {
            Term::Literal(l) => l.value().to_owned(),
            t => t.to_string(),
        })))
        .collect::<Result<Vec<_>, _>>().ok()
}

/// N-Triples lines: `s p o .` for each triple of texts, in order.
pub open spec fn nt_lines(ts: Seq<(Seq<char>, Seq<char>, Seq<char>)>) -> Seq<char>
    decreases ts.len(),
{
    if ts.len() == 0 {
        Seq::empty()
    } else {
        nt_lines(ts.drop_last()) + ts.last().0 + " "@ + ts.last().1 + " "@ + ts.last().2 + " .\n"@
    }
}

/// Writes triples of texts as N-Triples lines.
pub fn write_nt_lines(ts: &Vec<(String, String, String)>) -> (r: String)
    ensures
        r@ == nt_lines(text_triples(ts@)),
{
    let ghost tv = text_triples(ts@);
    let mut r = String::new();
    let mut i: usize = 0;
    while i < ts.len()
        invariant
            i <= ts@.len(),
            tv == text_triples(ts@),
            r@ == nt_lines(tv.take(i as int)),
        decreases ts@.len() - i,
    {
        proof {
            assert(tv.take(i + 1).drop_last() =~= tv.take(i as int));
        }
        let ghost before = r@;
        r.append(ts[i].0.as_str());
        r.append(" ");
        r.append(ts[i].1.as_str());
        r.append(" ");
        r.append(ts[i].2.as_str());
        r.append(" .\n");
        assert(r@ =~= before + tv[i as int].0 + " "@ + tv[i as int].1 + " "@ + tv[i as int].2 + " .\n"@);
        i = i + 1;
    }
    assert(tv.take(ts@.len() as int) =~= tv);
    r
}

/// The store's N-Triples document: one line per quad, in the store's order.
fn ntriples_dump(store: &Store) -> (r: String)
    ensures
        exists|qs: Seq<Quad>| enumerates(qs, store_quads(*store))
            && r@ == nt_lines(quads_nt(qs)),
{
    match quad_texts(store) {
        Some(v) => write_nt_lines(&v),
        None => String::new(),
    }
}

/// What a SPARQL query answers.
#[derive(Debug)]
pub enum QueryAnswer {
    /// The variables of a SELECT query and, per solution, each variable's value as text.
    Solutions { variables: Vec<String>, rows: Vec<Vec<Option<String>>> },
    /// The answer of an ASK query.
    Boolean(bool),
    /// A CONSTRUCT or DESCRIBE query, whose triples are not read.
    Graph,
}

/// Why the store refused a request.
#[derive(Debug, Clone, PartialEq, Eq)]
pub enum StoreError {
    /// The query text does not parse.
    Syntax(String),
    /// The query failed while running.
    Evaluation(String),
    /// An IRI of a triple does not parse.
    InvalidIri,
    /// Only SELECT and ASK queries are answered.
    Unsupported,
}

#[verifier::external_type_specification]
#[verifier::external_body]
pub struct ExPreparedSparqlQuery(PreparedSparqlQuery);

/// Parses a SPARQL query (`SparqlEvaluator::parse_query`); a syntax error becomes
/// `Syntax` with the parser's message.  Nothing else is stated of the parsed query.
#[verifier::external_body]
fn parse_sparql(query: &str) -> (r: Result<PreparedSparqlQuery, StoreError>)
    ensures
        r is Ok == sparql_parses(query@),
        r matches Err(e) ==> e is Syntax,
{
    SparqlEvaluator::new().parse_query(query).map_err(|e| StoreError::Syntax(e.to_string()))
}

#[verifier::external_type_specification]
#[verifier::external_body]
pub struct ExTerm(Term);

/// The text a query solution gives for a term: a literal's lexical form, anything else
/// in N-Triples syntax (`Term`'s `Display`).  Nothing is stated of it.
#[verifier::external_body]
fn term_text(t: &Term) -> String {
    match t {
        Term::Literal(lit) => lit.value().to_string(),
        other => other.to_string(),
    }
}

/// What a SPARQL query answers, its variables' names as text and its values as the
/// store gives them.
pub enum RawAnswer {
    Solutions { variables: Vec<String>, rows: Vec<Vec<Option<Term>>> },
    Boolean(bool),
    Graph,
}

/// Runs a parsed query on the store (`on_store(..).execute()`), collecting each
/// solution's value of each variable, in the order of the variables (their names as
/// `Variable::as_str` gives them); a failure while running becomes `Evaluation`.
/// Nothing more is stated of the answer: it depends on the store's contents through
/// SPARQL (and on the clock, chance and remote services where a query asks for them)
/// and comes in the store's order.
#[verifier::external_body]
fn run_sparql(store: &Store, query: PreparedSparqlQuery) -> (r: Result<RawAnswer, StoreError>)
    ensures
        r matches Err(e) ==> e is Evaluation,
        r matches Ok(RawAnswer::Solutions { variables, rows }) ==> forall|i: int| 0 <= i < rows@.len()
            ==> (#[trigger] rows@[i])@.len() == variables@.len(),
{
    let ev = |e: QueryEvaluationError| StoreError::Evaluation(e.to_string());
    match query.on_store(store).execute().map_err(ev)? {
        QueryResults::Solutions(sols) => {
            let vars = sols.variables().to_vec();
            let rows = sols.map(|s| s.map(|s| vars.iter().map(|v| s.get(v).cloned()).collect()))
                .collect::<Result<_, _>>().map_err(ev)?;
            Ok(RawAnswer::Solutions { variables: vars.iter().map(|v| v.as_str().to_owned()).collect(), rows })
        },
        QueryResults::Boolean(b) => Ok(RawAnswer::Boolean(b)),
        QueryResults::Graph(_) => Ok(RawAnswer::Graph),
    }
}

fn row_texts(row: &Vec<Option<Term>>) -> (r: Vec<Option<String>>)
    ensures
        r@.len() == row@.len(),
        forall|k: int| 0 <= k < row@.len() ==> (#[trigger] r@[k] is Some) == (row@[k] is Some),
{
    let mut r: Vec<Option<String>> = Vec::new();
    let mut k: usize = 0;
    while k < row.len()
        invariant
            k <= row.len(),
            r@.len() == k,
            forall|j: int| 0 <= j < k ==> (#[trigger] r@[j] is Some) == (row@[j] is Some),
        decreases row.len() - k,
    {
        let t = match &row[k] {
            Some(term) => Some(term_text(term)),
            None => None,
        };
        r.push(t);
        k = k + 1;
    }
    r
}

/// `a` is `raw` with each value written as text: the same variables, the same
/// solutions in the same order, each bound exactly where `raw`'s is; the same boolean.
pub open spec fn answer_text_of(raw: RawAnswer, a: QueryAnswer) -> bool {
    match (raw, a) {
        (RawAnswer::Solutions { variables: v1, rows: r1 }, QueryAnswer::Solutions { variables: v2, rows: r2 }) => {
            &&& v2@ == v1@
            &&& r2@.len() == r1@.len()
            &&& forall|i: int| 0 <= i < r1@.len() ==> (#[trigger] r2@[i])@.len() == r1@[i]@.len()
            &&& forall|i: int, k: int| 0 <= i < r1@.len() && 0 <= k < r1@[i]@.len() ==> (#[trigger] r2@[i]@[k] is Some)
                == (r1@[i]@[k] is Some)
        },
        (RawAnswer::Boolean(b1), QueryAnswer::Boolean(b2)) => b1 == b2,
        (RawAnswer::Graph, QueryAnswer::Graph) => true,
        _ => false,
    }
}

/// An answer with its values written as text.
pub fn answer_text(raw: RawAnswer) -> (a: QueryAnswer)
    ensures
        answer_text_of(raw, a),
{
    match raw {
        RawAnswer::Solutions { variables, rows } => {
            let mut out: Vec<Vec<Option<String>>> = Vec::new();
            let mut i: usize = 0;
            while i < rows.len()
                invariant
                    i <= rows.len(),
                    out@.len() == i,
                    forall|j: int| 0 <= j < i ==> (#[trigger] out@[j])@.len() == rows@[j]@.len(),
                    forall|j: int, k: int| 0 <= j < i && 0 <= k < rows@[j]@.len() ==> (#[trigger] out@[j]@[k] is Some)
                        == (rows@[j]@[k] is Some),
                decreases rows.len() - i,
            {
                out.push(row_texts(&rows[i]));
                i = i + 1;
            }
            QueryAnswer::Solutions { variables, rows: out }
        },
        RawAnswer::Boolean(b) => QueryAnswer::Boolean(b),
        RawAnswer::Graph => QueryAnswer::Graph,
    }
}

/// Every solution has one value (or none) per variable.
pub open spec fn answer_well_formed(a: QueryAnswer) -> bool {
    match a {
        QueryAnswer::Solutions { variables, rows } => forall|i: int| 0 <= i < rows@.len() ==> (#[trigger] rows@[i])@.len()
            == variables@.len(),
        _ => true,
    }
}

/// Runs a SPARQL query on the store, its values written as text.
fn sparql_query(store: &Store, query: &str) -> (r: Result<QueryAnswer, StoreError>)
    ensures
        r matches Err(StoreError::Syntax(_)) <==> !sparql_parses(query@),
        r matches Err(e) ==> (e is Syntax || e is Evaluation),
        r matches Ok(a) ==> answer_well_formed(a),
{
    let prepared = parse_sparql(query)?;
    let raw = run_sparql(store, prepared)?;
    Ok(answer_text(raw))
}

/// The quad an object value of a triple is stored as.
pub open spec fn rdf_object(o: ObjectValue) -> QuadObject {
    match o {
        ObjectValue::Iri(i) => (0, i@, Seq::empty()),
        ObjectValue::Literal(v) => (2, v@, XSD_STRING@),
        ObjectValue::TypedLiteral { value, datatype } => typed_literal_object(value@, datatype@),
    }
}

/// Whether every IRI a triple needs parses.
pub open spec fn triple_iris_parse(s: Seq<char>, p: Seq<char>, o: ObjectValue, g: Seq<char>) -> bool {
    &&& iri_parses(s)
    &&& iri_parses(p)
    &&& iri_parses(g)
    &&& match o {
        ObjectValue::Iri(i) => iri_parses(i@),
        ObjectValue::Literal(_) => true,
        ObjectValue::TypedLiteral { datatype, .. } => iri_parses(datatype@),
    }
}

/// A named-graph-aware RDF store.
pub struct ContentStore {
    store: Store,
}

impl ContentStore {
    /// The quads the store holds.
    pub closed spec fn quads(&self) -> Set<(Seq<char>, Seq<char>, QuadObject, Seq<char>)> {
        store_quads(self.store)
    }

    /// A new, empty in-memory store.
    pub fn new() -> (r: Result<ContentStore, StoreError>)
        ensures
            r matches Ok(s) && s.quads() == Set::<(Seq<char>, Seq<char>, QuadObject, Seq<char>)>::empty(),
    {
        match new_store() {
            Some(store) => Ok(ContentStore { store }),
            None => Err(StoreError::Unsupported),
        }
    }

    /// Inserts a triple into a named graph; fails, leaving the store unchanged, when one of
    /// its IRIs does not parse.
    pub fn insert_triple_into(&mut self, subject: &str, predicate: &str, object: &ObjectValue, graph: &str) -> (r: Result<(), StoreError>)
        ensures
            r is Ok == triple_iris_parse(subject@, predicate@, *object, graph@),
            r is Ok ==> final(self).quads() == old(self).quads().insert((subject@, predicate@, rdf_object(*object), graph@)),
            r is Err ==> final(self).quads() == old(self).quads() && r == Err::<(), StoreError>(StoreError::InvalidIri),
    {
        let ok = match object {
            ObjectValue::Iri(iri) => insert_iri_quad(&mut self.store, subject, predicate, iri.as_str(), graph),
            ObjectValue::Literal(value) => insert_simple_literal_quad(&mut self.store, subject, predicate, value.as_str(), graph),
            ObjectValue::TypedLiteral { value, datatype } => insert_typed_literal_quad(
                &mut self.store,
                subject,
                predicate,
                value.as_str(),
                datatype.as_str(),
                graph,
            ),
        };
        if ok {
            Ok(())
        } else {
            Err(StoreError::InvalidIri)
        }
    }

    /// Inserts a subject's (predicate, object) pairs into a named graph, in order, stopping
    /// at the first triple with an IRI that does not parse.  On success the store holds
    /// exactly what it held and the new triples.
    pub fn insert_triples_into(&mut self, subject: &str, triples: &Vec<(String, ObjectValue)>, graph: &str) -> (r: Result<(), StoreError>)
        ensures
            r is Ok <==> (forall|i: int| 0 <= i < triples@.len() ==> #[trigger] triple_iris_parse(subject@, triples@[i].0@, triples@[i].1, graph@)),
            r is Err ==> r == Err::<(), StoreError>(StoreError::InvalidIri),
            r is Ok ==> final(self).quads() == old(self).quads().union(
                Set::new(|q: (Seq<char>, Seq<char>, QuadObject, Seq<char>)| exists|i: int| 0 <= i < triples@.len()
                    && q == (subject@, triples@[i].0@, rdf_object(triples@[i].1), graph@)),
            ),
            old(self).quads().subset_of(final(self).quads()),
    {
        let ghost start = self.quads();
        let mut i: usize = 0;
        while i < triples.len()
            invariant
                i <= triples.len(),
                start == old(self).quads(),
                start.subset_of(self.quads()),
                forall|k: int| 0 <= k < i ==> #[trigger] triple_iris_parse(subject@, triples@[k].0@, triples@[k].1, graph@),
                self.quads() == start.union(
                    Set::new(|q: (Seq<char>, Seq<char>, QuadObject, Seq<char>)| exists|k: int| 0 <= k < i
                        && q == (subject@, triples@[k].0@, rdf_object(triples@[k].1), graph@)),
                ),
            decreases triples.len() - i,
        {
            let ghost before = self.quads();
            let r = self.insert_triple_into(subject, triples[i].0.as_str(), &triples[i].1, graph);
            if r.is_err() {
                return r;
            }
            proof {
                let q_new = (subject@, triples@[i as int].0@, rdf_object(triples@[i as int].1), graph@);
                let a = Set::new(|q: (Seq<char>, Seq<char>, QuadObject, Seq<char>)| exists|k: int| 0 <= k < i
                    && q == (subject@, triples@[k].0@, rdf_object(triples@[k].1), graph@));
                let b = Set::new(|q: (Seq<char>, Seq<char>, QuadObject, Seq<char>)| exists|k: int| 0 <= k < i + 1
                    && q == (subject@, triples@[k].0@, rdf_object(triples@[k].1), graph@));
                assert(b =~= a.insert(q_new)) by {
                    assert forall|q| b.contains(q) implies a.insert(q_new).contains(q) by {
                        let k = choose|k: int| 0 <= k < i + 1 && q == (subject@, triples@[k].0@, rdf_object(triples@[k].1), graph@);
                        if k < i {
                            assert(a.contains(q));
                        }
                    }
                    assert forall|q| a.insert(q_new).contains(q) implies b.contains(q) by {
                        if q == q_new {
                            assert(0 <= i < i + 1);
                        } else {
                            let k = choose|k: int| 0 <= k < i && q == (subject@, triples@[k].0@, rdf_object(triples@[k].1), graph@);
                            assert(0 <= k < i + 1);
                        }
                    }
                }
                assert(self.quads() =~= start.union(b));
            }
            i = i + 1;
        }
        Ok(())
    }

    /// Loads Turtle text (a `.ttl` file's contents) into the default graph (named by the
    /// empty sequence): every quad it adds lies there; on failure the store is unchanged.
    pub fn load_turtle(&mut self, text: &str) -> (r: bool)
        ensures
            r == turtle_parses(text@),
            r ==> old(self).quads().subset_of(final(self).quads()),
            r ==> forall|q: Quad| #[trigger] final(self).quads().contains(q) && !old(self).quads().contains(q)
                ==> q.3 == Seq::<char>::empty(),
            !r ==> final(self).quads() == old(self).quads(),
    {
        load_turtle_default(&mut self.store, text)
    }

    /// Loads Turtle text (a `.ttl` file's contents) into a named graph: every quad it adds
    /// lies in that graph; fails when the graph name is not an IRI or the text does not
    /// parse, and then the store is unchanged.
    pub fn load_turtle_into(&mut self, text: &str, graph: &str) -> (r: bool)
        ensures
            r == (iri_parses(graph@) && turtle_parses(text@)),
            r ==> old(self).quads().subset_of(final(self).quads()),
            r ==> forall|q: Quad| #[trigger] final(self).quads().contains(q) && !old(self).quads().contains(q)
                ==> q.3 == graph@,
            !r ==> final(self).quads() == old(self).quads(),
    {
        load_turtle_named(&mut self.store, text, graph)
    }

    /// Removes every quad.
    pub fn clear(&mut self)
        ensures
            final(self).quads() == Set::<(Seq<char>, Seq<char>, QuadObject, Seq<char>)>::empty(),
    {
        clear_store(&mut self.store);
    }

    /// Every quad as an N-Triples line, in the store's order, for the search index;
    /// empty exactly when the store is.
    pub fn export_search_ntriples(&self) -> (r: String)
        ensures
            exists|qs: Seq<Quad>| enumerates(qs, self.quads()) && r@ == nt_lines(quads_nt(qs)),
    {
        let r = ntriples_dump(&self.store);
        proof {
            let qs = choose|qs: Seq<Quad>| enumerates(qs, store_quads(self.store)) && r@ == nt_lines(quads_nt(qs));
            assert(enumerates(qs, self.quads()));
        }
        r
    }

    /// Every quad as an N-Triples line, the named graphs flattened into one, for
    /// validation; empty exactly when the store is.
    pub fn export_turtle(&self) -> (r: String)
        ensures
            exists|qs: Seq<Quad>| enumerates(qs, self.quads()) && r@ == nt_lines(quads_nt(qs)),
    {
        let r = ntriples_dump(&self.store);
        proof {
            let qs = choose|qs: Seq<Quad>| enumerates(qs, store_quads(self.store)) && r@ == nt_lines(quads_nt(qs));
            assert(enumerates(qs, self.quads()));
        }
        r
    }

    /// Runs a SPARQL SELECT or ASK query, its answer as JSON (see `answer_to_json`).
    pub fn query_to_json(&self, query: &str) -> (r: Result<Json, StoreError>)
        ensures
            r matches Err(StoreError::Syntax(_)) <==> !sparql_parses(query@),
            r matches Err(e) ==> (e is Syntax || e is Evaluation || e is Unsupported),
            r matches Ok(x) ==> exists|a: QueryAnswer| answer_well_formed(a) && #[trigger] answer_json(a) == Some(x@),
    {
        match sparql_query(&self.store, query) {
            Ok(a) => answer_to_json(&a),
            Err(e) => Err(e),
        }
    }

    /// Runs a SPARQL query, its answer's terms as text.
    pub fn query_answer(&self, query: &str) -> (r: Result<QueryAnswer, StoreError>)
        ensures
            r matches Err(StoreError::Syntax(_)) <==> !sparql_parses(query@),
            r matches Err(e) ==> (e is Syntax || e is Evaluation),
            r matches Ok(a) ==> answer_well_formed(a),
    {
        sparql_query(&self.store, query)
    }

    /// The (predicate, object) rows of a page's own triples in its named graph, each value
    /// as text; none when the query fails, as it does when the URI breaks its syntax.
    pub fn page_rows(&self, page_uri: &str) -> (r: Vec<(Option<String>, Option<String>)>)
        ensures
            !iri_parses(page_uri@) ==> r@.len() == 0,
            iri_parses(page_uri@) ==> page_rows_of(self.quads(), page_uri@, pair_views(r@)),
    {
        match subject_pairs(&self.store, page_uri, page_uri) {
            Some(v) => {
                let mut r: Vec<(Option<String>, Option<String>)> = Vec::new();
                let mut i: usize = 0;
                while i < v.len()
                    invariant
                        i <= v@.len(),
                        pair_views(r@).len() == i,
                        forall|k: int| 0 <= k < i ==> #[trigger] pair_views(r@)[k] == (
                            Some(text_pairs(v@)[k].0),
                            Some(text_pairs(v@)[k].1),
                        ),
                    decreases v@.len() - i,
                {
                    let ghost before = r@;
                    r.push((Some(v[i].0.clone()), Some(v[i].1.clone())));
                    proof {
                        assert forall|k: int| 0 <= k < i + 1 implies #[trigger] pair_views(r@)[k] == (
                            Some(text_pairs(v@)[k].0),
                            Some(text_pairs(v@)[k].1),
                        ) by {
                            if k < i {
                                assert(r@[k] == before[k]);
                                assert(pair_views(before)[k] == pair_views(r@)[k]);
                            }
                        }
                    }
                    i = i + 1;
                }
                proof {
                    let ps = choose|ps: Seq<(Seq<char>, QuadObject)>| enumerates(ps, subject_pairs_in(store_quads(self.store), page_uri@, page_uri@))
                        && text_pairs(v@) == pairs_text(ps);
                    assert(text_pairs(v@).len() == v@.len());
                    assert(pairs_text(ps).len() == ps.len());
                    assert(ps.len() == v@.len());
                    assert(pair_views(r@).len() == ps.len());
                    assert(pair_views(r@) =~= page_rows_text(ps)) by {
                        assert forall|k: int| 0 <= k < ps.len() implies pair_views(r@)[k] == page_rows_text(ps)[k] by {
                            assert(pair_views(r@)[k] == (Some(text_pairs(v@)[k].0), Some(text_pairs(v@)[k].1)));
                            assert(text_pairs(v@)[k] == pairs_text(ps)[k]);
                            assert(pairs_text(ps)[k] == pair_text(ps[k]));
                            assert(page_rows_text(ps)[k] == page_row_text(ps[k]));
                        }
                    }
                    assert(page_rows_of(self.quads(), page_uri@, pair_views(r@)));
                }
                r
            },
            None => Vec::new(),
        }
    }
}

/// A row of a page's own triples: the predicate in N-Triples and the object's value text.
pub open spec fn page_row_text(po: (Seq<char>, QuadObject)) -> (Option<Seq<char>>, Option<Seq<char>>) {
    (Some(iri_nt(po.0)), Some(object_value_text(po.1)))
}

/// The rows of a list of (predicate, object) pairs.
pub open spec fn page_rows_text(ps: Seq<(Seq<char>, QuadObject)>) -> Seq<(Option<Seq<char>>, Option<Seq<char>>)> {
    ps.map_values(|po: (Seq<char>, QuadObject)| page_row_text(po))
}

/// `rows` are the rows of a page's own triples in its named graph: each (predicate,
/// object) of a quad `(page, p, o, page)` once, in some order.
pub open spec fn page_rows_of(quads: Set<Quad>, page_uri: Seq<char>, rows: Seq<(Option<Seq<char>>, Option<Seq<char>>)>) -> bool {
    exists|ps: Seq<(Seq<char>, QuadObject)>| enumerates(ps, subject_pairs_in(quads, page_uri, page_uri))
        && rows == page_rows_text(ps)
}

/// The query for the triples a page's graph holds about the page itself.
pub open spec fn page_graph_query_spec(page_uri: Seq<char>) -> Seq<char> {
    "SELECT ?p ?o WHERE { GRAPH <"@ + page_uri + "> { <"@ + page_uri + "> ?p ?o } }"@
}

/// Writes the query for a page's own triples.
pub fn page_graph_query(page_uri: &str) -> (r: String)
    ensures
        r@ == page_graph_query_spec(page_uri@),
{
    let mut q = "SELECT ?p ?o WHERE { GRAPH <".to_string();
    q.append(page_uri);
    q.append("> { <");
    q.append(page_uri);
    q.append("> ?p ?o } }");
    q
}

pub open spec fn opt_text(o: Option<String>) -> JsonV {
    match o {
        Some(s) => JsonV::String(s@),
        None => JsonV::Null,
    }
}

/// One solution as a JSON object: each variable with its value as a string, or `null`
/// where the solution leaves it unbound.
pub open spec fn solution_json(variables: Seq<String>, row: Seq<Option<String>>) -> Seq<(Seq<char>, JsonV)> {
    Seq::new(variables.len(), |k: int| (variables[k]@, if k < row.len() { opt_text(row[k]) } else { JsonV::Null }))
}

/// A query answer as JSON: the solutions of a SELECT query as an array of objects, the
/// answer of an ASK query as a boolean; a graph answer is refused.
pub open spec fn answer_json(a: QueryAnswer) -> Option<JsonV> {
    match a {
        QueryAnswer::Solutions { variables, rows } => Some(JsonV::Array(
            Seq::new(rows@.len(), |i: int| JsonV::Object(solution_json(variables@, rows@[i]@))),
        )),
        QueryAnswer::Boolean(b) => Some(JsonV::Bool(b)),
        QueryAnswer::Graph => None,
    }
}

fn solution_object(variables: &Vec<String>, row: &Vec<Option<String>>) -> (r: Json)
    ensures
        r@ == JsonV::Object(solution_json(variables@, row@)),
{
    let mut m: Vec<(String, Json)> = Vec::new();
    let mut k: usize = 0;
    while k < variables.len()
        invariant
            k <= variables.len(),
            json_obj_view(m@) == solution_json(variables@, row@).take(k as int),
        decreases variables.len() - k,
    {
        let v = if k < row.len() {
            match &row[k] {
                Some(s) => Json::String(s.clone()),
                None => Json::Null,
            }
        } else {
            Json::Null
        };
        let e = (variables[k].clone(), v);
        proof {
            lemma_json_obj_view_push(m@, e);
            assert(solution_json(variables@, row@).take(k + 1) =~= solution_json(variables@, row@).take(k as int).push(
                (e.0@, json_view(e.1)),
            ));
        }
        m.push(e);
        k = k + 1;
    }
    assert(solution_json(variables@, row@).take(variables@.len() as int) =~= solution_json(variables@, row@));
    Json::Object(m)
}

/// Converts a query answer to JSON.
pub fn answer_to_json(answer: &QueryAnswer) -> (r: Result<Json, StoreError>)
    ensures
        match answer_json(*answer) {
            Some(j) => r matches Ok(x) && x@ == j,
            None => r == Err::<Json, StoreError>(StoreError::Unsupported),
        },
{
    match answer {
        QueryAnswer::Solutions { variables, rows } => {
            let ghost target = Seq::new(rows@.len(), |i: int| JsonV::Object(solution_json(variables@, rows@[i]@)));
            let mut out: Vec<Json> = Vec::new();
            let mut i: usize = 0;
            while i < rows.len()
                invariant
                    i <= rows.len(),
                    target == Seq::new(rows@.len(), |i: int| JsonV::Object(solution_json(variables@, rows@[i]@))),
                    json_seq_view(out@) == target.take(i as int),
                decreases rows.len() - i,
            {
                let o = solution_object(variables, &rows[i]);
                proof {
                    lemma_json_seq_view_push(out@, o);
                    assert(target.take(i + 1) =~= target.take(i as int).push(json_view(o)));
                }
                out.push(o);
                i = i + 1;
            }
            assert(target.take(rows@.len() as int) =~= target);
            Ok(Json::Array(out))
        },
        QueryAnswer::Boolean(b) => Ok(Json::Bool(*b)),
        QueryAnswer::Graph => Err(StoreError::Unsupported),
    }
}

/// The position of a variable among a query's variables.
pub open spec fn var_pos(variables: Seq<String>, name: Seq<char>) -> Option<int> {
    if exists|k: int| 0 <= k < variables.len() && variables[k]@ == name {
        Some(choose|k: int| 0 <= k < variables.len() && variables[k]@ == name && forall|j: int| 0 <= j < k ==> variables[j]@ != name)
    } else {
        None
    }
}

/// A row's value of a variable at a position.
pub open spec fn cell(row: Seq<Option<String>>, pos: Option<int>) -> Option<Seq<char>> {
    match pos {
        Some(k) => if 0 <= k < row.len() {
            match row[k] {
                Some(s) => Some(s@),
                None => None,
            }
        } else {
            None
        },
        None => None,
    }
}

/// The pairs of two variables' values, solution by solution; none for an answer that
/// is not a list of solutions.
pub open spec fn rows_spec(a: QueryAnswer, first: Seq<char>, second: Seq<char>) -> Seq<(Option<Seq<char>>, Option<Seq<char>>)> {
    match a {
        QueryAnswer::Solutions { variables, rows } => Seq::new(
            rows@.len(),
            |i: int| (cell(rows@[i]@, var_pos(variables@, first)), cell(rows@[i]@, var_pos(variables@, second))),
        ),
        _ => Seq::empty(),
    }
}

pub open spec fn pair_views(v: Seq<(Option<String>, Option<String>)>) -> Seq<(Option<Seq<char>>, Option<Seq<char>>)> {
    Seq::new(v.len(), |i: int| (
        match v[i].0 { Some(s) => Some(s@), None => None },
        match v[i].1 { Some(s) => Some(s@), None => None },
    ))
}

fn find_var(variables: &Vec<String>, name: &str) -> (r: Option<usize>)
    ensures
        match r {
            Some(k) => var_pos(variables@, name@) == Some(k as int),
            None => var_pos(variables@, name@) is None,
        },
{
    let mut k: usize = 0;
    while k < variables.len()
        invariant
            k <= variables.len(),
            forall|j: int| 0 <= j < k ==> variables@[j]@ != name@,
        decreases variables.len() - k,
    {
        if crate::text::str_eq(variables[k].as_str(), name) {
            proof {
                let c = choose|c: int| 0 <= c < variables@.len() && variables@[c]@ == name@ && forall|j: int| 0 <= j < c ==> variables@[j]@ != name@;
                assert(c == k) by {
                    if c < k {
                    } else if c > k {
                        assert(variables@[k as int]@ == name@);
                    }
                }
            }
            return Some(k);
        }
        k = k + 1;
    }
    None
}

fn cell_at(row: &Vec<Option<String>>, pos: Option<usize>) -> (r: Option<String>)
    ensures
        match r { Some(s) => Some(s@), None => None::<Seq<char>> } == cell(row@, match pos { Some(k) => Some(k as int), None => None }),
{
    match pos {
        Some(k) => if k < row.len() {
            match &row[k] {
                Some(s) => Some(s.clone()),
                None => None,
            }
        } else {
            None
        },
        None => None,
    }
}

/// The pairs of two variables' values of a query answer.
pub fn rows_of_answer(answer: &QueryAnswer, first: &str, second: &str) -> (r: Vec<(Option<String>, Option<String>)>)
    ensures
        pair_views(r@) == rows_spec(*answer, first@, second@),
{
    match answer {
        QueryAnswer::Solutions { variables, rows } => {
            let a = find_var(variables, first);
            let b = find_var(variables, second);
            let ghost target = rows_spec(*answer, first@, second@);
            let mut out: Vec<(Option<String>, Option<String>)> = Vec::new();
            let mut i: usize = 0;
            while i < rows.len()
                invariant
                    i <= rows.len(),
                    target == rows_spec(*answer, first@, second@),
                    *answer == (QueryAnswer::Solutions { variables: *variables, rows: *rows }),
                    match a { Some(k) => var_pos(variables@, first@) == Some(k as int), None => var_pos(variables@, first@) is None },
                    match b { Some(k) => var_pos(variables@, second@) == Some(k as int), None => var_pos(variables@, second@) is None },
                    pair_views(out@) == target.take(i as int),
                decreases rows.len() - i,
            {
                let e = (cell_at(&rows[i], a), cell_at(&rows[i], b));
                let ghost prev = out@;
                proof {
                    assert(target[i as int] == (
                        cell(rows@[i as int]@, var_pos(variables@, first@)),
                        cell(rows@[i as int]@, var_pos(variables@, second@)),
                    ));
                }
                out.push(e);
                proof {
                    assert(out@ == prev.push(e));
                    assert(pair_views(out@) =~= pair_views(prev).push(target[i as int]));
                    assert(target.take(i + 1) =~= target.take(i as int).push(target[i as int]));
                }
                i = i + 1;
            }
            assert(target.take(rows@.len() as int) =~= target);
            out
        },
        _ => {
            let out: Vec<(Option<String>, Option<String>)> = Vec::new();
            assert(pair_views(out@) =~= Seq::empty());
            out
        },
    }
}

/// The values of the named variables, solution by solution; none for an answer that
/// is not a list of solutions.
pub open spec fn columns_spec(a: QueryAnswer, names: Seq<Seq<char>>) -> Seq<Seq<Option<Seq<char>>>> {
    match a {
        QueryAnswer::Solutions { variables, rows } => Seq::new(
            rows@.len(),
            |i: int| Seq::new(names.len(), |j: int| cell(rows@[i]@, var_pos(variables@, names[j]))),
        ),
        _ => Seq::empty(),
    }
}

pub open spec fn opt_views(v: Seq<Option<String>>) -> Seq<Option<Seq<char>>> {
    Seq::new(v.len(), |j: int| match v[j] { Some(s) => Some(s@), None => None })
}

/// The values of the named variables of a query answer.
pub fn answer_columns(answer: &QueryAnswer, names: &Vec<&str>) -> (r: Vec<Vec<Option<String>>>)
    ensures
        r@.len() == columns_spec(*answer, names@.map_values(|n: &str| n@)).len(),
        forall|i: int| 0 <= i < r@.len() ==> opt_views(#[trigger] r@[i]@) == columns_spec(*answer, names@.map_values(|n: &str| n@))[i],
{
    let ghost nv = names@.map_values(|n: &str| n@);
    match answer {
        QueryAnswer::Solutions { variables, rows } => {
            let mut positions: Vec<Option<usize>> = Vec::new();
            let mut j: usize = 0;
            while j < names.len()
                invariant
                    j <= names.len(),
                    nv == names@.map_values(|n: &str| n@),
                    positions@.len() == j,
                    forall|k: int| 0 <= k < j ==> match #[trigger] positions@[k] {
                        Some(p) => var_pos(variables@, nv[k]) == Some(p as int),
                        None => var_pos(variables@, nv[k]) is None,
                    },
                decreases names.len() - j,
            {
                positions.push(find_var(variables, names[j]));
                j = j + 1;
            }
            let ghost target = columns_spec(*answer, nv);
            let mut out: Vec<Vec<Option<String>>> = Vec::new();
            let mut i: usize = 0;
            while i < rows.len()
                invariant
                    i <= rows.len(),
                    nv == names@.map_values(|n: &str| n@),
                    target == columns_spec(*answer, nv),
                    *answer == (QueryAnswer::Solutions { variables: *variables, rows: *rows }),
                    positions@.len() == names@.len(),
                    forall|k: int| 0 <= k < names@.len() ==> match #[trigger] positions@[k] {
                        Some(p) => var_pos(variables@, nv[k]) == Some(p as int),
                        None => var_pos(variables@, nv[k]) is None,
                    },
                    out@.len() == i,
                    forall|k: int| 0 <= k < i ==> opt_views(#[trigger] out@[k]@) == target[k],
                decreases rows.len() - i,
            {
                let mut row: Vec<Option<String>> = Vec::new();
                let mut j: usize = 0;
                while j < positions.len()
                    invariant
                        j <= positions.len(),
                        i < rows.len(),
                        positions@.len() == names@.len(),
                        nv == names@.map_values(|n: &str| n@),
                        target == columns_spec(*answer, nv),
                        *answer == (QueryAnswer::Solutions { variables: *variables, rows: *rows }),
                        forall|k: int| 0 <= k < names@.len() ==> match #[trigger] positions@[k] {
                            Some(p) => var_pos(variables@, nv[k]) == Some(p as int),
                            None => var_pos(variables@, nv[k]) is None,
                        },
                        row@.len() == j,
                        forall|k: int| 0 <= k < j ==> opt_views(row@)[k] == #[trigger] target[i as int][k],
                    decreases positions.len() - j,
                {
                    let c = cell_at(&rows[i], positions[j]);
                    let ghost prev = row@;
                    row.push(c);
                    proof {
                        assert forall|k: int| 0 <= k < j + 1 implies opt_views(row@)[k] == #[trigger] target[i as int][k] by {
                            if k < j {
                                assert(row@[k] == prev[k]);
                                assert(opt_views(prev)[k] == target[i as int][k]);
                            }
                        }
                    }
                    j = j + 1;
                }
                proof {
                    assert(opt_views(row@) =~= target[i as int]);
                }
                out.push(row);
                i = i + 1;
            }
            out
        },
        _ => Vec::new(),
    }
}

} // verus!
