//! In-memory index of vocabulary terms (classes and properties) with
//! human-readable labels, looked up by IRI or by label.
//!
//! Terms arrive as rows of a SPARQL query over a Turtle vocabulary (term,
//! label, comment, tab-separated alternative labels); `add_term_row` ingests
//! one such row.
use vstd::prelude::*;
use crate::text::{
    split_char, split_char_exec, str_eq, to_lowercase, trim_char, trim_char_exec,
    unicode_lowercase,
};
use crate::store::{sparql_parses, turtle_parses, StoreError};

verus! {

/// A vocabulary term (class or property) with human-readable labels.
#[derive(Debug, Clone)]
pub struct VocabTerm {
    /// The full IRI (e.g. "https://schema.org/BlogPosting").
    pub iri: String,
    /// The primary label (rdfs:label).
    pub label: String,
    /// Description (rdfs:comment).
    pub comment: String,
    /// Alternative labels (skos:altLabel).
    pub alt_labels: Vec<String>,
    /// Whether this is a class (true) or property (false).
    pub is_class: bool,
    /// The vocabulary source (e.g. "schema.org", "Dublin Core").
    pub source: String,
}

/// In-memory index of vocabulary terms for fast lookup.
pub struct VocabularyIndex {
    /// All terms, at most one per IRI, in the order their IRI was first added.
    terms: Vec<VocabTerm>,
    /// Lower-cased label → IRIs carrying it (in the order they were indexed).
    label_index: Vec<(String, Vec<String>)>,
}

/// The views of a sequence of strings.
pub open spec fn views(v: Seq<String>) -> Seq<Seq<char>> {
    v.map_values(|x: String| x@)
}

/// The term of `terms` with IRI `iri`, if any (the first one).
pub open spec fn term_with_iri(terms: Seq<VocabTerm>, iri: Seq<char>) -> Option<VocabTerm>
    decreases terms.len(),
{
    if terms.len() == 0 {
        None
    } else if terms[0].iri@ == iri {
        Some(terms[0])
    } else {
        term_with_iri(terms.drop_first(), iri)
    }
}

/// The terms for a list of IRIs, skipping IRIs with no term.
pub open spec fn terms_for(terms: Seq<VocabTerm>, iris: Seq<Seq<char>>) -> Seq<VocabTerm>
    decreases iris.len(),
{
    if iris.len() == 0 {
        Seq::empty()
    } else {
        terms_for(terms, iris.drop_last()) + match term_with_iri(terms, iris.last()) {
            Some(t) => seq![t],
            None => Seq::empty(),
        }
    }
}

/// The terms whose `is_class` flag equals `want`, in order.
pub open spec fn with_class_flag(terms: Seq<VocabTerm>, want: bool) -> Seq<VocabTerm>
    decreases terms.len(),
{
    if terms.len() == 0 {
        Seq::empty()
    } else {
        with_class_flag(terms.drop_last(), want) + if terms.last().is_class == want {
            seq![terms.last()]
        } else {
            Seq::empty()
        }
    }
}

/// The IRIs indexed under a lower-cased label (first matching entry).
pub open spec fn iris_for_label(index: Seq<(Seq<char>, Seq<Seq<char>>)>, lowered: Seq<char>) -> Seq<Seq<char>>
    decreases index.len(),
{
    if index.len() == 0 {
        Seq::empty()
    } else if index[0].0 == lowered {
        index[0].1
    } else {
        iris_for_label(index.drop_first(), lowered)
    }
}

/// The non-empty pieces of `s` between tabs.
pub open spec fn nonempty(pieces: Seq<Seq<char>>) -> Seq<Seq<char>>
    decreases pieces.len(),
{
    if pieces.len() == 0 {
        Seq::empty()
    } else {
        nonempty(pieces.drop_last()) + if pieces.last().len() > 0 {
            seq![pieces.last()]
        } else {
            Seq::empty()
        }
    }
}

/// The IRI of a term as it appears in a query result (angle brackets removed).
pub open spec fn row_iri(term: Seq<char>) -> Seq<char> {
    trim_char(trim_char(term, '<'), '>')
}

/// The alternative labels of a row: the non-empty tab-separated pieces.
pub open spec fn row_alt_labels(alts: Seq<char>) -> Seq<Seq<char>> {
    nonempty(split_char(alts, '\t'))
}

/// The labels a term is indexed under: its label and alternative labels, lower-cased.
pub open spec fn row_index_labels(label: Seq<char>, alts: Seq<Seq<char>>) -> Seq<Seq<char>> {
    seq![unicode_lowercase(label)] + alts.map_values(|a: Seq<char>| unicode_lowercase(a))
}

/// Append `iri` under each of `labels` in turn.
pub open spec fn index_labels(
    index: Seq<(Seq<char>, Seq<Seq<char>>)>,
    labels: Seq<Seq<char>>,
    iri: Seq<char>,
) -> Seq<(Seq<char>, Seq<Seq<char>>)>
    decreases labels.len(),
{
    if labels.len() == 0 {
        index
    } else {
        index_one(index_labels(index, labels.drop_last(), iri), labels.last(), iri)
    }
}

/// Append `iri` to the entry for `label`, creating the entry at the end when absent.
pub open spec fn index_one(
    index: Seq<(Seq<char>, Seq<Seq<char>>)>,
    label: Seq<char>,
    iri: Seq<char>,
) -> Seq<(Seq<char>, Seq<Seq<char>>)> {
    match first_label_pos(index, label, 0) {
        Some(i) => index.update(i, (label, index[i].1.push(iri))),
        None => index.push((label, seq![iri])),
    }
}

/// First position `>= i` of the entry for `label`.
pub open spec fn first_label_pos(index: Seq<(Seq<char>, Seq<Seq<char>>)>, label: Seq<char>, i: int) -> Option<int>
    decreases index.len() - i,
{
    if i < 0 || i >= index.len() {
        None
    } else if index[i].0 == label {
        Some(i)
    } else {
        first_label_pos(index, label, i + 1)
    }
}

/// Put `t` in place of the term with the same IRI, or add it at the end.
pub open spec fn upsert_term(terms: Seq<VocabTerm>, t: VocabTerm) -> Seq<VocabTerm> {
    match first_term_pos(terms, t.iri@, 0) {
        Some(i) => terms.update(i, t),
        None => terms.push(t),
    }
}

/// First position `>= i` of the term with IRI `iri`.
pub open spec fn first_term_pos(terms: Seq<VocabTerm>, iri: Seq<char>, i: int) -> Option<int>
    decreases terms.len() - i,
{
    if i < 0 || i >= terms.len() {
        None
    } else if terms[i].iri@ == iri {
        Some(i)
    } else {
        first_term_pos(terms, iri, i + 1)
    }
}

impl VocabularyIndex {
    /// The terms, in order.
    pub closed spec fn term_seq(&self) -> Seq<VocabTerm> {
        self.terms@
    }

    /// The label index as character sequences.
    pub closed spec fn label_seq(&self) -> Seq<(Seq<char>, Seq<Seq<char>>)> {
        self.label_index@.map_values(|e: (String, Vec<String>)| (e.0@, e.1@.map_values(|s: String| s@)))
    }

    /// Create an empty vocabulary index.
    pub fn new() -> (r: Self)
        ensures
            r.term_seq().len() == 0,
            r.label_seq().len() == 0,
    {
        let r = VocabularyIndex { terms: Vec::new(), label_index: Vec::new() };
        assert(r.label_seq() =~= Seq::<(Seq<char>, Seq<Seq<char>>)>::empty());
        r
    }

    fn term_pos(&self, iri: &str) -> (r: Option<usize>)
        ensures
            r matches Some(i) ==> first_term_pos(self.terms@, iri@, 0) == Some(i as int)
                && i < self.terms@.len(),
            r is None ==> first_term_pos(self.terms@, iri@, 0) == None::<int>,
    {
        let mut i: usize = 0;
        while i < self.terms.len()
            invariant
                i <= self.terms@.len(),
                first_term_pos(self.terms@, iri@, 0) == first_term_pos(self.terms@, iri@, i as int),
            decreases self.terms@.len() - i,
        {
            if str_eq(self.terms[i].iri.as_str(), iri) {
                return Some(i);
            }
            i = i + 1;
        }
        None
    }

    /// Get a term by its IRI.
    pub fn get(&self, iri: &str) -> (r: Option<&VocabTerm>)
        ensures
            r matches Some(t) ==> term_with_iri(self.term_seq(), iri@) == Some(*t),
            r is None ==> term_with_iri(self.term_seq(), iri@) == None::<VocabTerm>,
    {
        let mut i: usize = 0;
        assert(self.terms@.skip(0) =~= self.terms@);
        while i < self.terms.len()
            invariant
                i <= self.terms@.len(),
                term_with_iri(self.terms@, iri@) == term_with_iri(self.terms@.skip(i as int), iri@),
            decreases self.terms@.len() - i,
        {
            proof {
                assert(self.terms@.skip(i as int).drop_first() =~= self.terms@.skip(i + 1));
            }
            if str_eq(self.terms[i].iri.as_str(), iri) {
                return Some(&self.terms[i]);
            }
            i = i + 1;
        }
        None
    }

    fn label_pos(&self, label: &str) -> (r: Option<usize>)
        ensures
            r matches Some(i) ==> first_label_pos(self.label_seq(), label@, 0) == Some(i as int)
                && i < self.label_seq().len(),
            r is None ==> first_label_pos(self.label_seq(), label@, 0) == None::<int>,
    {
        let mut i: usize = 0;
        while i < self.label_index.len()
            invariant
                i <= self.label_index@.len(),
                first_label_pos(self.label_seq(), label@, 0) == first_label_pos(
                    self.label_seq(),
                    label@,
                    i as int,
                ),
            decreases self.label_index@.len() - i,
        {
            if str_eq(self.label_index[i].0.as_str(), label) {
                return Some(i);
            }
            i = i + 1;
        }
        None
    }

    proof fn lemma_iris_for_label(index: Seq<(Seq<char>, Seq<Seq<char>>)>, l: Seq<char>, i: int)
        requires
            0 <= i <= index.len(),
            forall|k: int| 0 <= k < i ==> (#[trigger] index[k]).0 != l,
        ensures
            iris_for_label(index, l) == iris_for_label(index.skip(i), l),
        decreases i,
    {
        if i > 0 {
            assert(index.drop_first().skip(i - 1) =~= index.skip(i));
            assert forall|k: int| 0 <= k < i - 1 implies (#[trigger] index.drop_first()[k]).0 != l by {
                assert(index.drop_first()[k] == index[k + 1]);
            }
            Self::lemma_iris_for_label(index.drop_first(), l, i - 1);
        } else {
            assert(index.skip(0) =~= index);
        }
    }

    proof fn lemma_first_label_pos(index: Seq<(Seq<char>, Seq<Seq<char>>)>, l: Seq<char>, i: int, j: int)
        requires
            0 <= i,
            first_label_pos(index, l, i) == Some(j),
        ensures
            i <= j < index.len(),
            index[j].0 == l,
            forall|k: int| i <= k < j ==> (#[trigger] index[k]).0 != l,
        decreases index.len() - i,
    {
        if i < index.len() && index[i].0 != l {
            Self::lemma_first_label_pos(index, l, i + 1, j);
        }
    }

    proof fn lemma_first_label_pos_ge(index: Seq<(Seq<char>, Seq<Seq<char>>)>, l: Seq<char>, i: int)
        ensures
            first_label_pos(index, l, i) matches Some(j) ==> j >= i,
        decreases index.len() - i,
    {
        if 0 <= i < index.len() && index[i].0 != l {
            Self::lemma_first_label_pos_ge(index, l, i + 1);
        }
    }

    proof fn lemma_first_label_pos_at(index: Seq<(Seq<char>, Seq<Seq<char>>)>, l: Seq<char>, i: int, j: int)
        requires
            0 <= i <= j < index.len(),
            index[j].0 == l,
        ensures
            first_label_pos(index, l, i) matches Some(k) && k <= j,
        decreases j - i,
    {
        if i < j && index[i].0 != l {
            Self::lemma_first_label_pos_at(index, l, i + 1, j);
        }
    }

    /// Look up terms by exact label match (case-insensitive).
    pub fn lookup_by_label(&self, label: &str) -> (r: Vec<&VocabTerm>)
        ensures
            r@.len() == terms_for(self.term_seq(), iris_for_label(self.label_seq(), unicode_lowercase(label@))).len(),
            forall|i: int| 0 <= i < r@.len() ==> *(#[trigger] r@[i]) == terms_for(
                self.term_seq(),
                iris_for_label(self.label_seq(), unicode_lowercase(label@)),
            )[i],
    {
        let lowered = to_lowercase(label);
        let ghost l = unicode_lowercase(label@);
        let mut out: Vec<&VocabTerm> = Vec::new();
        match self.label_pos(lowered.as_str()) {
            None => {
                proof {
                    Self::lemma_no_label(self.label_seq(), l);
                }
                out
            },
            Some(p) => {
                proof {
                    Self::lemma_first_label_pos(self.label_seq(), l, 0, p as int);
                    Self::lemma_iris_for_label(self.label_seq(), l, p as int);
                    assert(self.label_seq().skip(p as int)[0] == self.label_seq()[p as int]);
                }
                let iris = &self.label_index[p].1;
                let ghost want = iris_for_label(self.label_seq(), l);
                assert(want =~= iris@.map_values(|s: String| s@));
                let mut k: usize = 0;
                while k < iris.len()
                    invariant
                        k <= iris@.len(),
                        want == iris@.map_values(|s: String| s@),
                        out@.len() == terms_for(self.terms@, want.take(k as int)).len(),
                        forall|i: int| 0 <= i < out@.len() ==> *(#[trigger] out@[i]) == terms_for(
                            self.terms@,
                            want.take(k as int),
                        )[i],
                    decreases iris@.len() - k,
                {
                    proof {
                        assert(want.take(k + 1).drop_last() =~= want.take(k as int));
                    }
                    let ghost before = out@;
                    match self.get(iris[k].as_str()) {
                        Some(t) => {
                            out.push(t);
                        },
                        None => {},
                    }
                    proof {
                        let tf = terms_for(self.terms@, want.take(k + 1));
                        assert(out@.len() == tf.len());
                        assert forall|i: int| 0 <= i < out@.len() implies *(#[trigger] out@[i]) == tf[i] by {
                            if i < before.len() {
                                assert(out@[i] == before[i]);
                            }
                        }
                    }
                    k = k + 1;
                }
                assert(want.take(iris@.len() as int) =~= want);
                out
            },
        }
    }

    proof fn lemma_no_label(index: Seq<(Seq<char>, Seq<Seq<char>>)>, l: Seq<char>)
        requires
            first_label_pos(index, l, 0) == None::<int>,
        ensures
            iris_for_label(index, l) == Seq::<Seq<char>>::empty(),
    {
        assert forall|k: int| 0 <= k < index.len() implies (#[trigger] index[k]).0 != l by {
            if index[k].0 == l {
                Self::lemma_first_label_pos_at(index, l, 0, k);
            }
        }
        Self::lemma_iris_for_label(index, l, index.len() as int);
        assert(index.skip(index.len() as int) =~= Seq::<(Seq<char>, Seq<Seq<char>>)>::empty());
    }

    /// Get all terms in the index.
    pub fn all_terms(&self) -> (r: Vec<&VocabTerm>)
        ensures
            r@.len() == self.term_seq().len(),
            forall|i: int| 0 <= i < r@.len() ==> *(#[trigger] r@[i]) == self.term_seq()[i],
    {
        let mut out: Vec<&VocabTerm> = Vec::new();
        let mut i: usize = 0;
        while i < self.terms.len()
            invariant
                i <= self.terms@.len(),
                out@.len() == i,
                forall|k: int| 0 <= k < i ==> *(#[trigger] out@[k]) == self.terms@[k],
            decreases self.terms@.len() - i,
        {
            out.push(&self.terms[i]);
            i = i + 1;
        }
        out
    }

    fn with_flag(&self, want: bool) -> (r: Vec<&VocabTerm>)
        ensures
            r@.len() == with_class_flag(self.term_seq(), want).len(),
            forall|i: int| 0 <= i < r@.len() ==> *(#[trigger] r@[i]) == with_class_flag(self.term_seq(), want)[i],
    {
        let mut out: Vec<&VocabTerm> = Vec::new();
        let mut i: usize = 0;
        while i < self.terms.len()
            invariant
                i <= self.terms@.len(),
                out@.len() == with_class_flag(self.terms@.take(i as int), want).len(),
                forall|k: int| 0 <= k < out@.len() ==> *(#[trigger] out@[k]) == with_class_flag(
                    self.terms@.take(i as int),
                    want,
                )[k],
            decreases self.terms@.len() - i,
        {
            proof {
                assert(self.terms@.take(i + 1).drop_last() =~= self.terms@.take(i as int));
            }
            let ghost before = out@;
            if self.terms[i].is_class == want {
                out.push(&self.terms[i]);
            }
            proof {
                let w = with_class_flag(self.terms@.take(i + 1), want);
                assert forall|k: int| 0 <= k < out@.len() implies *(#[trigger] out@[k]) == w[k] by {
                    if k < before.len() {
                        assert(out@[k] == before[k]);
                    }
                }
            }
            i = i + 1;
        }
        assert(self.terms@.take(self.terms@.len() as int) =~= self.terms@);
        out
    }

    /// Get all class terms.
    pub fn classes(&self) -> (r: Vec<&VocabTerm>)
        ensures
            r@.len() == with_class_flag(self.term_seq(), true).len(),
            forall|i: int| 0 <= i < r@.len() ==> *(#[trigger] r@[i]) == with_class_flag(self.term_seq(), true)[i],
    {
        self.with_flag(true)
    }

    /// Get all property terms.
    pub fn properties(&self) -> (r: Vec<&VocabTerm>)
        ensures
            r@.len() == with_class_flag(self.term_seq(), false).len(),
            forall|i: int| 0 <= i < r@.len() ==> *(#[trigger] r@[i]) == with_class_flag(self.term_seq(), false)[i],
    {
        self.with_flag(false)
    }

    /// Get the number of terms in the index.
    pub fn len(&self) -> (n: usize)
        ensures
            n == self.term_seq().len(),
    {
        self.terms.len()
    }

    /// Check if the index is empty.
    pub fn is_empty(&self) -> (b: bool)
        ensures
            b == (self.term_seq().len() == 0),
    {
        self.terms.len() == 0
    }

    fn copy_strings(v: &Vec<String>) -> (r: Vec<String>)
        ensures
            r@.map_values(|x: String| x@) == v@.map_values(|x: String| x@),
    {
        let mut r: Vec<String> = Vec::new();
        let mut i: usize = 0;
        while i < v.len()
            invariant
                i <= v@.len(),
                r@.len() == i,
                forall|k: int| 0 <= k < i ==> (#[trigger] r@[k])@ == v@[k]@,
            decreases v@.len() - i,
        {
            let c = v[i].clone();
            r.push(c);
            i = i + 1;
        }
        assert(r@.map_values(|x: String| x@) =~= v@.map_values(|x: String| x@));
        r
    }

    fn index_label(&mut self, label: String, iri: &String)
        ensures
            final(self).label_seq() == index_one(old(self).label_seq(), label@, iri@),
            final(self).terms == old(self).terms,
    {
        match self.label_pos(label.as_str()) {
            Some(p) => {
                let ghost old_seq = self.label_seq();
                let mut iris = Self::copy_strings(&self.label_index[p].1);
                iris.push(iri.clone());
                self.label_index.set(p, (label, iris));
                proof {
                    assert(iris@.map_values(|x: String| x@) =~= old_seq[p as int].1.push(iri@));
                    assert(self.label_seq() =~= old_seq.update(p as int, (label@, old_seq[p as int].1.push(iri@))));
                }
            },
            None => {
                let ghost old_seq = self.label_seq();
                let mut v: Vec<String> = Vec::new();
                v.push(iri.clone());
                self.label_index.push((label, v));
                proof {
                    assert(v@.map_values(|x: String| x@) =~= seq![iri@]);
                    assert(self.label_seq() =~= old_seq.push((label@, seq![iri@])));
                }
            },
        }
    }

    /// Add one vocabulary term from a query row: its term IRI (possibly in angle
    /// brackets), label, comment and tab-separated alternative labels.  The term
    /// replaces any term with the same IRI and is indexed under its label and
    /// alternative labels, lower-cased.
    pub fn add_term_row(
        &mut self,
        term: &str,
        label: &str,
        comment: &str,
        alts: &str,
        is_class: bool,
        source_name: &str,
    )
        ensures
            exists|t: VocabTerm| {
                &&& t.iri@ == row_iri(term@)
                &&& t.label@ == label@
                &&& t.comment@ == comment@
                &&& t.alt_labels@.map_values(|a: String| a@) == row_alt_labels(alts@)
                &&& t.is_class == is_class
                &&& t.source@ == source_name@
                &&& final(self).term_seq() == upsert_term(old(self).term_seq(), t)
            },
            final(self).label_seq() == index_labels(
                old(self).label_seq(),
                row_index_labels(label@, row_alt_labels(alts@)),
                row_iri(term@),
            ),
    {
        let t1 = trim_char_exec(term, '<');
        let iri = trim_char_exec(t1.as_str(), '>');
        let pieces = split_char_exec(alts, '\t');
        let mut alt_labels: Vec<String> = Vec::new();
        let mut i: usize = 0;
        while i < pieces.len()
            invariant
                i <= pieces@.len(),
                pieces@.len() == split_char(alts@, '\t').len(),
                forall|k: int| 0 <= k < pieces@.len() ==> (#[trigger] pieces@[k])@ == split_char(alts@, '\t')[k],
                alt_labels@.map_values(|a: String| a@) == nonempty(split_char(alts@, '\t').take(i as int)),
            decreases pieces@.len() - i,
        {
            proof {
                assert(split_char(alts@, '\t').take(i + 1).drop_last() =~= split_char(alts@, '\t').take(i as int));
            }
            if !pieces[i].as_str().is_empty() {
                alt_labels.push(pieces[i].clone());
                proof {
                    assert(pieces@[i as int]@.len() > 0) by {
                        if pieces@[i as int]@.len() == 0 {
                            assert(pieces@[i as int]@ =~= Seq::<char>::empty());
                        }
                    }
                }
            } else {
                proof {
                    assert(pieces@[i as int]@.len() == 0);
                }
            }
            proof {
                assert(alt_labels@.map_values(|a: String| a@) =~= nonempty(split_char(alts@, '\t').take(i + 1)));
            }
            i = i + 1;
        }
        assert(split_char(alts@, '\t').take(pieces@.len() as int) =~= split_char(alts@, '\t'));
        let ghost alts_seq = row_alt_labels(alts@);
        let ghost labels = row_index_labels(label@, alts_seq);
        let ghost start = self.label_seq();
        // index the primary label, then each alternative label
        let ll = to_lowercase(label);
        self.index_label(ll, &iri);
        proof {
            assert(labels.take(1) =~= seq![unicode_lowercase(label@)]);
            assert(labels.take(1).drop_last() =~= Seq::<Seq<char>>::empty());
            assert(index_labels(start, labels.take(1).drop_last(), iri@) == start);
            assert(labels.take(1).last() == unicode_lowercase(label@));
            assert(index_labels(start, labels.take(1), iri@) == index_one(start, unicode_lowercase(label@), iri@));
        }
        let mut j: usize = 0;
        while j < alt_labels.len()
            invariant
                j <= alt_labels@.len(),
                alt_labels@.map_values(|a: String| a@) == alts_seq,
                labels == row_index_labels(label@, alts_seq),
                iri@ == row_iri(term@),
                self.terms == old(self).terms,
                self.label_seq() == index_labels(start, labels.take(j + 1), iri@),
            decreases alt_labels@.len() - j,
        {
            let lowered = to_lowercase(alt_labels[j].as_str());
            proof {
                assert(labels.take(j + 2).drop_last() =~= labels.take(j + 1));
                assert(labels[j + 1] == unicode_lowercase(alts_seq[j as int]));
            }
            self.index_label(lowered, &iri);
            j = j + 1;
        }
        assert(labels.take(alt_labels@.len() + 1 as int) =~= labels);
        let t = VocabTerm {
            iri: iri.clone(),
            label: label.to_owned(),
            comment: comment.to_owned(),
            alt_labels,
            is_class,
            source: source_name.to_owned(),
        };
        let ghost tg = t;
        let ghost before = self.terms@;
        assert(before == old(self).terms@);
        match self.term_pos(iri.as_str()) {
            Some(p) => {
                self.terms.set(p, t);
                assert(self.terms@ =~= before.update(p as int, tg));
            },
            None => {
                self.terms.push(t);
                assert(self.terms@ =~= before.push(tg));
            },
        }
        assert(self.term_seq() == upsert_term(old(self).term_seq(), tg));
    }
}

// ---------------------------------------------------------------------------
// Loading a vocabulary
// ---------------------------------------------------------------------------

/// A term as plain values.
pub struct TermV {
    pub iri: Seq<char>,
    pub label: Seq<char>,
    pub comment: Seq<char>,
    pub alt_labels: Seq<Seq<char>>,
    pub is_class: bool,
    pub source: Seq<char>,
}

pub open spec fn term_view(t: VocabTerm) -> TermV {
    TermV {
        iri: t.iri@,
        label: t.label@,
        comment: t.comment@,
        alt_labels: t.alt_labels@.map_values(|a: String| a@),
        is_class: t.is_class,
        source: t.source@,
    }
}

pub open spec fn term_views(s: Seq<VocabTerm>) -> Seq<TermV> {
    s.map_values(|t: VocabTerm| term_view(t))
}

/// First position `>= i` of the term view with IRI `iri`.
pub open spec fn first_view_pos(terms: Seq<TermV>, iri: Seq<char>, i: int) -> Option<int>
    decreases terms.len() - i,
{
    if i < 0 || i >= terms.len() {
        None
    } else if terms[i].iri == iri {
        Some(i)
    } else {
        first_view_pos(terms, iri, i + 1)
    }
}

/// Put `t` in place of the term with the same IRI, or add it at the end.
pub open spec fn upsert_view(terms: Seq<TermV>, t: TermV) -> Seq<TermV> {
    match first_view_pos(terms, t.iri, 0) {
        Some(i) => terms.update(i, t),
        None => terms.push(t),
    }
}

proof fn lemma_first_pos_views(terms: Seq<VocabTerm>, iri: Seq<char>, i: int)
    ensures
        first_term_pos(terms, iri, i) == first_view_pos(term_views(terms), iri, i),
    decreases terms.len() - i,
{
    if 0 <= i < terms.len() {
        lemma_first_pos_views(terms, iri, i + 1);
    }
}

/// A cell of a query row as text, empty when unbound.
pub open spec fn cell_text(row: Seq<Option<Seq<char>>>, k: int) -> Seq<char> {
    if 0 <= k < row.len() {
        match row[k] {
            Some(s) => s,
            None => Seq::empty(),
        }
    } else {
        Seq::empty()
    }
}

/// A row (term, label, comment, alternative labels) has its term.
pub open spec fn row_has_term(row: Seq<Option<Seq<char>>>) -> bool {
    row.len() > 0 && row[0] is Some
}

/// The term a row describes.
pub open spec fn row_term(row: Seq<Option<Seq<char>>>, is_class: bool, source: Seq<char>) -> TermV {
    TermV {
        iri: row_iri(cell_text(row, 0)),
        label: cell_text(row, 1),
        comment: cell_text(row, 2),
        alt_labels: row_alt_labels(cell_text(row, 3)),
        is_class,
        source,
    }
}

/// The terms after adding rows in order.
pub open spec fn terms_after(
    terms: Seq<TermV>,
    rows: Seq<Seq<Option<Seq<char>>>>,
    is_class: bool,
    source: Seq<char>,
) -> Seq<TermV>
    decreases rows.len(),
{
    if rows.len() == 0 {
        terms
    } else {
        upsert_view(terms_after(terms, rows.drop_last(), is_class, source), row_term(rows.last(), is_class, source))
    }
}

/// The label index after adding rows in order.
pub open spec fn labels_after(
    index: Seq<(Seq<char>, Seq<Seq<char>>)>,
    rows: Seq<Seq<Option<Seq<char>>>>,
) -> Seq<(Seq<char>, Seq<Seq<char>>)>
    decreases rows.len(),
{
    if rows.len() == 0 {
        index
    } else {
        let row = rows.last();
        index_labels(
            labels_after(index, rows.drop_last()),
            row_index_labels(cell_text(row, 1), row_alt_labels(cell_text(row, 3))),
            row_iri(cell_text(row, 0)),
        )
    }
}

/// The number of rows before the first one without a term (all of them when none lacks it).
pub open spec fn good_prefix(rows: Seq<Seq<Option<Seq<char>>>>) -> int
    decreases rows.len(),
{
    if rows.len() == 0 {
        0
    } else if good_prefix(rows.drop_last()) < rows.len() - 1 {
        good_prefix(rows.drop_last())
    } else if row_has_term(rows.last()) {
        rows.len() as int
    } else {
        rows.len() - 1
    }
}

/// Why a vocabulary could not be loaded.
#[derive(Debug, Clone, PartialEq, Eq)]
pub enum VocabError {
    /// The Turtle text does not parse.
    Turtle,
    /// A query over the vocabulary failed.
    Store(crate::store::StoreError),
    /// A query did not answer with solutions.
    NotSolutions,
    /// A solution lacked its term IRI.
    MissingTerm,
}

pub open spec fn rows_view(rows: Seq<Vec<Option<String>>>) -> Seq<Seq<Option<Seq<char>>>> {
    Seq::new(rows.len(), |i: int| crate::store::opt_views(rows[i]@))
}

impl VocabularyIndex {
    fn cell_str(row: &Vec<Option<String>>, k: usize) -> (r: &str)
        ensures
            r@ == cell_text(crate::store::opt_views(row@), k as int),
    {
        if k < row.len() {
            match &row[k] {
                Some(s) => s.as_str(),
                None => {
                    proof {
                        reveal_strlit("");
                    }
                    ""
                },
            }
        } else {
            proof {
                reveal_strlit("");
            }
            ""
        }
    }

    /// Adds query rows (term, label, comment, alternative labels) in order, stopping with
    /// `MissingTerm` at the first row without a term; the rows before it stay added.
    pub fn load_rows(&mut self, rows: &Vec<Vec<Option<String>>>, is_class: bool, source: &str) -> (r: Result<(), VocabError>)
        ensures
            r is Ok <==> good_prefix(rows_view(rows@)) == rows@.len(),
            r is Err ==> r == Err::<(), VocabError>(VocabError::MissingTerm),
            term_views(final(self).term_seq()) == terms_after(
                term_views(old(self).term_seq()),
                rows_view(rows@).take(good_prefix(rows_view(rows@))),
                is_class,
                source@,
            ),
            final(self).label_seq() == labels_after(old(self).label_seq(), rows_view(rows@).take(good_prefix(rows_view(rows@)))),
    {
        let ghost rv = rows_view(rows@);
        let ghost t0 = term_views(self.term_seq());
        let ghost l0 = self.label_seq();
        let mut i: usize = 0;
        while i < rows.len()
            invariant
                i <= rows.len(),
                rv == rows_view(rows@),
                t0 == term_views(old(self).term_seq()),
                l0 == old(self).label_seq(),
                good_prefix(rv.take(i as int)) == i,
                term_views(self.term_seq()) == terms_after(t0, rv.take(i as int), is_class, source@),
                self.label_seq() == labels_after(l0, rv.take(i as int)),
            decreases rows.len() - i,
        {
            let row = &rows[i];
            proof {
                assert(rv.take(i + 1).drop_last() =~= rv.take(i as int));
                assert(rv.take(i + 1).last() == rv[i as int]);
                assert(rv[i as int] == crate::store::opt_views(row@));
            }
            if row.len() == 0 || row[0].is_none() {
                proof {
                    lemma_good_prefix_stops(rv, i as int);
                }
                return Err(VocabError::MissingTerm);
            }
            let ghost before = self.term_seq();
            self.add_term_row(
                Self::cell_str(row, 0),
                Self::cell_str(row, 1),
                Self::cell_str(row, 2),
                Self::cell_str(row, 3),
                is_class,
                source,
            );
            proof {
                let t = choose|t: VocabTerm| {
                    &&& t.iri@ == row_iri(cell_text(rv[i as int], 0))
                    &&& t.label@ == cell_text(rv[i as int], 1)
                    &&& t.comment@ == cell_text(rv[i as int], 2)
                    &&& t.alt_labels@.map_values(|a: String| a@) == row_alt_labels(cell_text(rv[i as int], 3))
                    &&& t.is_class == is_class
                    &&& t.source@ == source@
                    &&& self.term_seq() == upsert_term(before, t)
                };
                lemma_first_pos_views(before, t.iri@, 0);
                assert(term_view(t) == row_term(rv[i as int], is_class, source@));
                match first_term_pos(before, t.iri@, 0) {
                    Some(p) => {
                        lemma_first_term_pos_range(before, t.iri@, 0);
                        assert(term_views(before.update(p, t)) =~= term_views(before).update(p, term_view(t)));
                    },
                    None => {
                        assert(term_views(before.push(t)) =~= term_views(before).push(term_view(t)));
                    },
                }
                assert(term_views(self.term_seq()) =~= upsert_view(term_views(before), term_view(t)));
            }
            i = i + 1;
        }
        proof {
            assert(rv.take(rows@.len() as int) =~= rv);
        }
        Ok(())
    }
}

proof fn lemma_first_term_pos_range(terms: Seq<VocabTerm>, iri: Seq<char>, i: int)
    ensures
        first_term_pos(terms, iri, i) matches Some(p) ==> 0 <= i <= p < terms.len(),
    decreases terms.len() - i,
{
    if 0 <= i < terms.len() {
        lemma_first_term_pos_range(terms, iri, i + 1);
    }
}

proof fn lemma_good_prefix_stops(rv: Seq<Seq<Option<Seq<char>>>>, i: int)
    requires
        0 <= i < rv.len(),
        good_prefix(rv.take(i)) == i,
        !row_has_term(rv[i]),
    ensures
        good_prefix(rv) == i,
    decreases rv.len(),
{
    if rv.len() == i + 1 {
        assert(rv.drop_last() =~= rv.take(i));
    } else {
        assert(rv.drop_last().take(i) =~= rv.take(i));
        lemma_good_prefix_stops(rv.drop_last(), i);
    }
}

/// The query for a vocabulary's classes: term, label, comment and tab-joined
/// alternative labels.
pub const CLASSES_QUERY: &'static str = "
    PREFIX rdfs: <http://www.w3.org/2000/01/rdf-schema#>
    PREFIX skos: <http://www.w3.org/2004/02/skos/core#>
    SELECT ?term ?label ?comment (GROUP_CONCAT(?alt; SEPARATOR=\"\\t\") AS ?alts) WHERE {
        ?term a rdfs:Class .
        ?term rdfs:label ?label .
        OPTIONAL { ?term rdfs:comment ?comment }
        OPTIONAL { ?term skos:altLabel ?alt }
    }
    GROUP BY ?term ?label ?comment
";

/// The query for a vocabulary's properties, in the same columns.
pub const PROPERTIES_QUERY: &'static str = "
    PREFIX rdfs: <http://www.w3.org/2000/01/rdf-schema#>
    PREFIX rdf: <http://www.w3.org/1999/02/22-rdf-syntax-ns#>
    PREFIX skos: <http://www.w3.org/2004/02/skos/core#>
    SELECT ?term ?label ?comment (GROUP_CONCAT(?alt; SEPARATOR=\"\\t\") AS ?alts) WHERE {
        ?term a rdf:Property .
        ?term rdfs:label ?label .
        OPTIONAL { ?term rdfs:comment ?comment }
        OPTIONAL { ?term skos:altLabel ?alt }
    }
    GROUP BY ?term ?label ?comment
";


/// The index after the rows of the class query (the terms flagged as classes) and then
/// the rows of the property query (flagged as properties), each up to its first row
/// without a term, every term noted with its source; the terms already there stay.
pub open spec fn loaded_classes_then_properties(
    terms0: Seq<VocabTerm>,
    labels0: Seq<(Seq<char>, Seq<Seq<char>>)>,
    terms1: Seq<VocabTerm>,
    labels1: Seq<(Seq<char>, Seq<Seq<char>>)>,
    rv1: Seq<Seq<Option<Seq<char>>>>,
    rv2: Seq<Seq<Option<Seq<char>>>>,
    source: Seq<char>,
) -> bool {
    &&& term_views(terms1) == terms_after(
        terms_after(term_views(terms0), rv1.take(good_prefix(rv1)), true, source),
        rv2.take(good_prefix(rv2)),
        false,
        source,
    )
    &&& labels1 == labels_after(labels_after(labels0, rv1.take(good_prefix(rv1))), rv2.take(good_prefix(rv2)))
}

impl VocabularyIndex {
    fn load_from_query(
        &mut self,
        store: &crate::store::ContentStore,
        query: &str,
        is_class: bool,
        source: &str,
    ) -> (r: Result<(), VocabError>)
        ensures
            r matches Err(VocabError::Store(StoreError::Syntax(_))) <==> !sparql_parses(query@),
            r matches Err(e) ==> !(e is Turtle),
            (r matches Err(VocabError::Store(_))) || (r matches Err(VocabError::NotSolutions)) ==> final(self).term_seq()
                == old(self).term_seq() && final(self).label_seq() == old(self).label_seq(),
            r is Ok || (r matches Err(VocabError::MissingTerm)) ==> exists|rv: Seq<Seq<Option<Seq<char>>>>|
                (r is Ok <==> #[trigger] good_prefix(rv) == rv.len())
                && term_views(final(self).term_seq()) == terms_after(
                    term_views(old(self).term_seq()),
                    rv.take(good_prefix(rv)),
                    is_class,
                    source@,
                )
                && final(self).label_seq() == labels_after(old(self).label_seq(), rv.take(good_prefix(rv))),
    {
        let answer = match store.query_answer(query) {
            Ok(a) => a,
            Err(e) => return Err(VocabError::Store(e)),
        };
        if !matches!(answer, crate::store::QueryAnswer::Solutions { .. }) {
            return Err(VocabError::NotSolutions);
        }
        let names: Vec<&str> = vec!["term", "label", "comment", "alts"];
        let rows = crate::store::answer_columns(&answer, &names);
        let r = self.load_rows(&rows, is_class, source);
        proof {
            let rv = rows_view(rows@);
            assert(good_prefix(rv) == rv.len() <==> r is Ok);
        }
        r
    }

    /// Loads the classes and properties of a Turtle vocabulary, each term noted with its
    /// source; gives the number of terms the index then holds.
    pub fn load_ttl_text(&mut self, text: &str, source: &str) -> (r: Result<usize, VocabError>)
        ensures
            r matches Ok(n) ==> n == final(self).term_seq().len(),
            r matches Err(VocabError::Turtle) <==> !turtle_parses(text@),
            r matches Err(VocabError::Turtle) ==> final(self).term_seq() == old(self).term_seq()
                && final(self).label_seq() == old(self).label_seq(),
            !(r matches Err(VocabError::Turtle)) ==> exists|rv1: Seq<Seq<Option<Seq<char>>>>, rv2: Seq<Seq<Option<Seq<char>>>>|
                loaded_classes_then_properties(
                    old(self).term_seq(),
                    old(self).label_seq(),
                    final(self).term_seq(),
                    final(self).label_seq(),
                    rv1,
                    rv2,
                    source@,
                ) && (r is Ok ==> good_prefix(rv1) == rv1.len() && good_prefix(rv2) == rv2.len()),
    {
        let ghost t0 = self.term_seq();
        let ghost l0 = self.label_seq();
        let ghost empty = Seq::<Seq<Option<Seq<char>>>>::empty();
        let mut store = match crate::store::ContentStore::new() {
            Ok(s) => s,
            Err(e) => return Err(VocabError::Store(e)),
        };
        if !store.load_turtle(text) {
            return Err(VocabError::Turtle);
        }
        let r1 = self.load_from_query(&store, CLASSES_QUERY, true, source);
        let ghost t1 = self.term_seq();
        let ghost l1 = self.label_seq();
        let ghost rv1 = if r1 is Ok || (r1 matches Err(VocabError::MissingTerm)) {
            choose|rv: Seq<Seq<Option<Seq<char>>>>| (r1 is Ok <==> #[trigger] good_prefix(rv) == rv.len())
                && term_views(t1) == terms_after(term_views(t0), rv.take(good_prefix(rv)), true, source@)
                && l1 == labels_after(l0, rv.take(good_prefix(rv)))
        } else {
            empty
        };
        proof {
            assert(empty.take(0) =~= empty);
        }
        if let Err(e) = r1 {
            proof {
                assert(loaded_classes_then_properties(t0, l0, t1, l1, rv1, empty, source@));
            }
            return Err(e);
        }
        let r2 = self.load_from_query(&store, PROPERTIES_QUERY, false, source);
        let ghost rv2 = if r2 is Ok || (r2 matches Err(VocabError::MissingTerm)) {
            choose|rv: Seq<Seq<Option<Seq<char>>>>| (r2 is Ok <==> #[trigger] good_prefix(rv) == rv.len())
                && term_views(self.term_seq()) == terms_after(term_views(t1), rv.take(good_prefix(rv)), false, source@)
                && self.label_seq() == labels_after(l1, rv.take(good_prefix(rv)))
        } else {
            empty
        };
        if let Err(e) = r2 {
            proof {
                assert(loaded_classes_then_properties(t0, l0, self.term_seq(), self.label_seq(), rv1, rv2, source@));
            }
            return Err(e);
        }
        proof {
            assert(loaded_classes_then_properties(t0, l0, self.term_seq(), self.label_seq(), rv1, rv2, source@));
        }
        Ok(self.terms.len())
    }
}


proof fn lemma_class_split(terms: Seq<VocabTerm>)
    ensures
        with_class_flag(terms, true).to_multiset().add(with_class_flag(terms, false).to_multiset()) =~= terms.to_multiset(),
        forall|i: int| 0 <= i < with_class_flag(terms, true).len() ==> (#[trigger] with_class_flag(terms, true)[i]).is_class,
        forall|i: int| 0 <= i < with_class_flag(terms, false).len() ==> !(#[trigger] with_class_flag(terms, false)[i]).is_class,
    decreases terms.len(),
{
    broadcast use vstd::seq_lib::group_to_multiset_ensures;
    if terms.len() > 0 {
        let init = terms.drop_last();
        let t = terms.last();
        lemma_class_split(init);
        assert(init.push(t) =~= terms);
        let c0 = with_class_flag(init, true);
        let p0 = with_class_flag(init, false);
        if t.is_class {
            assert(with_class_flag(terms, true) =~= c0.push(t));
            assert(with_class_flag(terms, false) =~= p0);
        } else {
            assert(with_class_flag(terms, true) =~= c0);
            assert(with_class_flag(terms, false) =~= p0.push(t));
        }
    } else {
        assert(terms.to_multiset() =~= vstd::multiset::Multiset::empty());
    }
}

/// The classes and the properties of an index split its terms: every class has the
/// class flag, no property has it, and together they are every term, each once.
pub proof fn law_classes_and_properties_partition(idx: VocabularyIndex)
    ensures
        with_class_flag(idx.term_seq(), true).to_multiset().add(with_class_flag(idx.term_seq(), false).to_multiset())
            == idx.term_seq().to_multiset(),
        forall|i: int| 0 <= i < with_class_flag(idx.term_seq(), true).len()
            ==> (#[trigger] with_class_flag(idx.term_seq(), true)[i]).is_class,
        forall|i: int| 0 <= i < with_class_flag(idx.term_seq(), false).len()
            ==> !(#[trigger] with_class_flag(idx.term_seq(), false)[i]).is_class,
{
    lemma_class_split(idx.term_seq());
}

/// The number of classes and the number of properties add up to the number of terms.
pub proof fn law_classes_and_properties_count(idx: VocabularyIndex)
    ensures
        with_class_flag(idx.term_seq(), true).len() + with_class_flag(idx.term_seq(), false).len() == idx.term_seq().len(),
{
    broadcast use vstd::seq_lib::group_to_multiset_ensures;
    lemma_class_split(idx.term_seq());
    let c = with_class_flag(idx.term_seq(), true);
    let p = with_class_flag(idx.term_seq(), false);
    assert(c.to_multiset().len() == c.len());
    assert(p.to_multiset().len() == p.len());
    assert(idx.term_seq().to_multiset().len() == idx.term_seq().len());
}

proof fn lemma_term_with_iri(terms: Seq<VocabTerm>, iri: Seq<char>)
    ensures
        term_with_iri(terms, iri) matches Some(t) ==> t.iri@ == iri,
        term_with_iri(terms, iri) is Some <==> exists|i: int| 0 <= i < terms.len() && (#[trigger] terms[i]).iri@ == iri,
    decreases terms.len(),
{
    if terms.len() > 0 {
        lemma_term_with_iri(terms.drop_first(), iri);
        if terms[0].iri@ != iri {
            if exists|i: int| 0 <= i < terms.len() && (#[trigger] terms[i]).iri@ == iri {
                let i = choose|i: int| 0 <= i < terms.len() && (#[trigger] terms[i]).iri@ == iri;
                assert(terms.drop_first()[i - 1] == terms[i]);
            }
            assert forall|i: int| 0 <= i < terms.drop_first().len() && (#[trigger] terms.drop_first()[i]).iri@ == iri
                implies exists|j: int| 0 <= j < terms.len() && (#[trigger] terms[j]).iri@ == iri by {
                assert(terms[i + 1] == terms.drop_first()[i]);
            }
        }
    }
}

/// Looking a term up by IRI finds a term with that IRI, and finds one exactly when the
/// index holds a term with that IRI.
pub proof fn law_get(idx: VocabularyIndex, iri: Seq<char>)
    ensures
        term_with_iri(idx.term_seq(), iri) matches Some(t) ==> t.iri@ == iri,
        term_with_iri(idx.term_seq(), iri) is Some <==> exists|i: int| 0 <= i < idx.term_seq().len()
            && (#[trigger] idx.term_seq()[i]).iri@ == iri,
{
    lemma_term_with_iri(idx.term_seq(), iri);
}

} // verus!
