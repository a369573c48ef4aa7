//! Resolving a friendly type or property name to an IRI without guessing: a persisted
//! mapping first, then a label that names exactly one term of the right kind.
use vstd::prelude::*;
use crate::mappings::{lookup_ci, MappingRegistry};
use crate::text::unicode_lowercase;
use crate::vocabulary::{iris_for_label, terms_for, VocabTerm, VocabularyIndex};

verus! {

/// A name resolved without fuzzy matching.
#[derive(Debug, Clone, PartialEq, Eq)]
pub enum KnownTerm {
    /// The IRI the site's mappings give the name.
    Mapped(String),
    /// The IRI of the one term of the right kind labelled with the name.
    ExactMatch(String),
}

/// The terms of one kind (classes or properties) among a list.
pub open spec fn of_kind(ts: Seq<VocabTerm>, class: bool) -> Seq<VocabTerm>
    decreases ts.len(),
{
    if ts.len() == 0 {
        Seq::empty()
    } else {
        of_kind(ts.drop_last(), class) + if ts.last().is_class == class { seq![ts.last()] } else { Seq::empty() }
    }
}

/// How a name resolves without fuzzy matching: its mapping (types for a class,
/// properties otherwise), else the IRI of the single term of that kind whose label or
/// alternative label is the name (case-insensitively), else nothing.
pub open spec fn known_spec(reg: MappingRegistry, index: VocabularyIndex, name: Seq<char>, class: bool) -> Option<(bool, Seq<char>)> {
    let mapped = if class { lookup_ci(reg.types.pairs(), name) } else { lookup_ci(reg.properties.pairs(), name) };
    match mapped {
        Some(iri) => Some((true, iri)),
        None => {
            let exact = of_kind(terms_for(index.term_seq(), iris_for_label(index.label_seq(), unicode_lowercase(name))), class);
            if exact.len() == 1 {
                Some((false, exact[0].iri@))
            } else {
                None
            }
        },
    }
}

pub open spec fn known_view(k: Option<KnownTerm>) -> Option<(bool, Seq<char>)> {
    match k {
        Some(KnownTerm::Mapped(s)) => Some((true, s@)),
        Some(KnownTerm::ExactMatch(s)) => Some((false, s@)),
        None => None,
    }
}

/// Resolves a type (`class`) or property name by mapping or exact label.
pub fn resolve_known(registry: &MappingRegistry, index: &VocabularyIndex, name: &str, class: bool) -> (r: Option<KnownTerm>)
    requires
        registry.wf(),
    ensures
        known_view(r) == known_spec(*registry, *index, name@, class),
{
    let mapped = if class { registry.resolve_type(name) } else { registry.resolve_property(name) };
    if let Some(iri) = mapped {
        return Some(KnownTerm::Mapped(iri.to_string()));
    }
    let exact = index.lookup_by_label(name);
    let ghost all = terms_for(index.term_seq(), iris_for_label(index.label_seq(), unicode_lowercase(name@)));
    let mut found: Option<&VocabTerm> = None;
    let mut count: usize = 0;
    let mut i: usize = 0;
    while i < exact.len()
        invariant
            i <= exact.len(),
            exact@.len() == all.len(),
            forall|k: int| 0 <= k < exact@.len() ==> *(#[trigger] exact@[k]) == all[k],
            count == of_kind(all.take(i as int), class).len(),
            count >= 1 ==> (found matches Some(t) && *t == of_kind(all.take(i as int), class)[0]),
            count <= i,
        decreases exact.len() - i,
    {
        proof {
            assert(all.take(i + 1).drop_last() =~= all.take(i as int));
            assert(all.take(i + 1).last() == all[i as int]);
        }
        if exact[i].is_class == class {
            if count == 0 {
                found = Some(exact[i]);
            }
            count = count + 1;
        }
        i = i + 1;
    }
    proof {
        assert(all.take(exact@.len() as int) =~= all);
    }
    if count == 1 {
        match found {
            Some(t) => Some(KnownTerm::ExactMatch(t.iri.clone())),
            None => None,
        }
    } else {
        None
    }
}

} // verus!
