//! SHACL shapes for content types, and the outcome of a validation run.
use vstd::prelude::*;
use crate::text::str_eq;

verus! {

/// Result of SHACL validation against content data.
#[derive(Debug)]
pub struct ValidationOutcome {
    /// Whether all data conforms to the shapes.
    pub conforms: bool,
    /// Number of violations found.
    pub violations: usize,
    /// Number of warnings found.
    pub warnings: usize,
    /// Human-readable report text.
    pub report_text: String,
}

/// The prefix declarations every generated shapes graph starts with.
pub open spec fn shapes_header() -> Seq<char> {
    "@prefix sh: <http://www.w3.org/ns/shacl#> .\n@prefix schema: <https://schema.org/> .\n@prefix xsd: <http://www.w3.org/2001/XMLSchema#> .\n@prefix rdf: <http://www.w3.org/1999/02/22-rdf-syntax-ns#> .\n@prefix geoff-shapes: <urn:geoff:shapes:> .\n\n"@
}

/// The schema.org type a content type name stands for, for the types that get a shape.
pub open spec fn shape_schema_type(ct: Seq<char>) -> Option<Seq<char>> {
    if ct == "Blog Post"@ || ct == "BlogPosting"@ {
        Some("BlogPosting"@)
    } else if ct == "Article"@ {
        Some("Article"@)
    } else if ct == "Web Page"@ || ct == "WebPage"@ {
        Some("WebPage"@)
    } else if ct == "How-To Guide"@ || ct == "HowTo"@ {
        Some("HowTo"@)
    } else if ct == "FAQ Page"@ || ct == "FAQPage"@ {
        Some("FAQPage"@)
    } else if ct == "Event"@ {
        Some("Event"@)
    } else {
        None
    }
}

/// The node shape for one schema.org type: exactly one `schema:name` string.
pub open spec fn shape_block(t: Seq<char>) -> Seq<char> {
    "geoff-shapes:"@ + t + "Shape a sh:NodeShape ;\n    sh:targetClass schema:"@ + t
        + " ;\n    sh:property [\n        sh:path schema:name ;\n        sh:minCount 1 ;\n        sh:maxCount 1 ;\n        sh:datatype xsd:string ;\n        sh:message \"Every "@
        + t + " must have exactly one name\" ;\n    ] .\n\n"@
}

/// The shape blocks for a list of content types, skipping unknown ones.
pub open spec fn shape_blocks(cts: Seq<Seq<char>>) -> Seq<char>
    decreases cts.len(),
{
    if cts.len() == 0 {
        Seq::empty()
    } else {
        shape_blocks(cts.drop_last()) + match shape_schema_type(cts.last()) {
            Some(t) => shape_block(t),
            None => Seq::empty(),
        }
    }
}

fn schema_type_for(ct: &str) -> (r: Option<&'static str>)
    ensures
        r matches Some(t) ==> shape_schema_type(ct@) == Some(t@),
        r is None ==> shape_schema_type(ct@) == None::<Seq<char>>,
{
    if str_eq(ct, "Blog Post") || str_eq(ct, "BlogPosting") {
        Some("BlogPosting")
    } else if str_eq(ct, "Article") {
        Some("Article")
    } else if str_eq(ct, "Web Page") || str_eq(ct, "WebPage") {
        Some("WebPage")
    } else if str_eq(ct, "How-To Guide") || str_eq(ct, "HowTo") {
        Some("HowTo")
    } else if str_eq(ct, "FAQ Page") || str_eq(ct, "FAQPage") {
        Some("FAQPage")
    } else if str_eq(ct, "Event") {
        Some("Event")
    } else {
        None
    }
}

/// Generate a basic SHACL shapes graph (Turtle) defining a node shape for each
/// of the given content types that maps to a known schema.org type.
pub fn generate_shapes(content_types: &[&str]) -> (ttl: String)
    ensures
        ttl@ == shapes_header() + shape_blocks(content_types@.map_values(|s: &str| s@)),
{
    let ghost cts = content_types@.map_values(|s: &str| s@);
    let mut ttl = String::new();
    ttl.append("@prefix sh: <http://www.w3.org/ns/shacl#> .\n@prefix schema: <https://schema.org/> .\n@prefix xsd: <http://www.w3.org/2001/XMLSchema#> .\n@prefix rdf: <http://www.w3.org/1999/02/22-rdf-syntax-ns#> .\n@prefix geoff-shapes: <urn:geoff:shapes:> .\n\n");
    let mut i: usize = 0;
    assert(cts.take(0) =~= Seq::<Seq<char>>::empty());
    while i < content_types.len()
        invariant
            i <= content_types@.len(),
            cts == content_types@.map_values(|s: &str| s@),
            ttl@ == shapes_header() + shape_blocks(cts.take(i as int)),
        decreases content_types@.len() - i,
    {
        proof {
            assert(cts.take(i + 1).drop_last() =~= cts.take(i as int));
        }
        match schema_type_for(content_types[i]) {
            Some(t) => {
                let ghost before = ttl@;
                ttl.append("geoff-shapes:");
                ttl.append(t);
                ttl.append("Shape a sh:NodeShape ;\n    sh:targetClass schema:");
                ttl.append(t);
                ttl.append(" ;\n    sh:property [\n        sh:path schema:name ;\n        sh:minCount 1 ;\n        sh:maxCount 1 ;\n        sh:datatype xsd:string ;\n        sh:message \"Every ");
                ttl.append(t);
                ttl.append(" must have exactly one name\" ;\n    ] .\n\n");
                assert(ttl@ =~= before + shape_block(t@));
            },
            None => {
                assert(ttl@ =~= ttl@ + Seq::<char>::empty());
            },
        }
        i = i + 1;
    }
    assert(cts.take(content_types@.len() as int) =~= cts);
    ttl
}


/// The shape blocks of two lists of content types, one after the other, are the blocks
/// of the first list followed by the blocks of the second: shapes for `a` then `b` are
/// the shapes for `a` with the blocks for `b` after them.
pub proof fn law_shape_blocks_concat(a: Seq<Seq<char>>, b: Seq<Seq<char>>)
    ensures
        shape_blocks(a + b) == shape_blocks(a) + shape_blocks(b),
        shapes_header() + shape_blocks(a + b) == (shapes_header() + shape_blocks(a)) + shape_blocks(b),
    decreases b.len(),
{
    if b.len() == 0 {
        assert(a + b =~= a);
        assert(shape_blocks(a) + shape_blocks(b) =~= shape_blocks(a));
    } else {
        law_shape_blocks_concat(a, b.drop_last());
        assert((a + b).drop_last() =~= a + b.drop_last());
        assert((a + b).last() == b.last());
        let tail = match shape_schema_type(b.last()) {
            Some(t) => shape_block(t),
            None => Seq::<char>::empty(),
        };
        assert(shape_blocks(a) + shape_blocks(b.drop_last()) + tail =~= shape_blocks(a) + (shape_blocks(b.drop_last()) + tail));
    }
    assert(shapes_header() + (shape_blocks(a) + shape_blocks(b)) =~= (shapes_header() + shape_blocks(a)) + shape_blocks(b));
}

/// A content type with a shape adds exactly its block; any other name adds nothing.
pub proof fn law_shape_block_of_one(ct: Seq<char>)
    ensures
        shape_blocks(seq![ct]) == match shape_schema_type(ct) {
            Some(t) => shape_block(t),
            None => Seq::<char>::empty(),
        },
{
    let one = seq![ct];
    assert(one.drop_last() =~= Seq::<Seq<char>>::empty());
    assert(one.last() == ct);
    assert(shape_blocks(one.drop_last()) == Seq::<char>::empty());
    match shape_schema_type(ct) {
        Some(t) => assert(Seq::<char>::empty() + shape_block(t) =~= shape_block(t)),
        None => assert(Seq::<char>::empty() + Seq::<char>::empty() =~= Seq::<char>::empty()),
    }
}

} // verus!
