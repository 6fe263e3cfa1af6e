//! Properties of merging, stated over the models and proved once for all
//! inputs.

use vstd::prelude::*;

use crate::combine;
use crate::entry::EntryV;
use crate::entry::merge_spec;

verus! {

/// Field concatenation is associative: however merges for one name are
/// grouped, a text field ends up as the same concatenation.
pub proof fn lemma_combine_associative(
    a: Option<Seq<char>>,
    b: Option<Seq<char>>,
    c: Option<Seq<char>>,
)
    ensures
        combine(combine(a, b), c) == combine(a, combine(b, c)),
{
    match (a, b, c) {
        (Some(x), Some(y), Some(z)) => {
            assert((x + y) + z =~= x + (y + z));
        },
        _ => {},
    }
}

/// Merging three same-named entries in order yields a description equal
/// to the concatenation of their descriptions in that order, with no
/// separator inserted.
pub proof fn lemma_merge_description_concat(
    e1: EntryV,
    e2: EntryV,
    e3: EntryV,
    d1: Seq<char>,
    d2: Seq<char>,
    d3: Seq<char>,
)
    requires
        e1.name == e2.name,
        e2.name == e3.name,
        e1.description == Some(d1),
        e2.description == Some(d2),
        e3.description == Some(d3),
    ensures
        merge_spec(merge_spec(e1, e2), e3).description == Some(d1 + d2 + d3),
{
}

/// Merging keeps collaborators in order: those of the earlier entry
/// first, then those of the later one, duplicates preserved.
pub proof fn lemma_merge_collaborator_order(e1: EntryV, e2: EntryV)
    requires
        e1.name == e2.name,
    ensures
        merge_spec(e1, e2).cc == e1.cc + e2.cc,
{
}

} // verus!
