//! The enum sort checker.
//!
//! Given an enum's variant names in declaration order, the checker either
//! approves the declaration or reports the first ordering violation: the
//! first adjacent inversion, anchored at the inverted variant and naming the
//! first variant its name belongs before. Only the first violation is ever
//! reported. Any other item shape is rejected with a fixed message.

use vstd::prelude::*;
use vstd::string::StrSliceExecFns;
use vstd::string::StringExecFns;
use crate::ast::ItemDecl;
use crate::order::{
    find_unsorted_element, first_greater, first_inversion, keys_sorted,
    lemma_first_greater_from, lemma_first_inversion_from, lemma_sorted_iff_no_inversion,
    scan_first_inversion,
};
use crate::text::{lex_lt, seq_views, sort_message};

verus! {

/// One ordering violation: the inverted entry, the entry it belongs
/// before, and the message naming both.
pub struct SortDiag {
    pub index: usize,
    pub target: usize,
    pub message: String,
}

/// What a correct diagnostic for `variants` says: its position is the first
/// adjacent inversion, its target the first entry greater than the inverted
/// one (position zero when no scan hit exists), and its message names the
/// two entries in order.
pub open spec fn sort_diag_ok(variants: Seq<String>, d: SortDiag) -> bool {
    let keys = seq_views(variants);
    &&& d.index < variants.len()
    &&& d.target < variants.len()
    &&& first_inversion(keys) == Some(d.index as int)
    &&& d.target as int == match first_greater(keys, keys[d.index as int]) {
        Some(j) => j,
        None => 0,
    }
    &&& d.message@ == keys[d.index as int] + " should sort before "@ + keys[d.target as int]
}

/// Checks variant names for ascending order: no diagnostic exactly when
/// they are sorted, otherwise the first violation.
pub fn check_enum_sorted(variants: &Vec<String>) -> (r: Option<SortDiag>)
    ensures
        (r is None) == keys_sorted(seq_views(variants@)),
        match r {
            Some(d) => sort_diag_ok(variants@, d),
            None => true,
        },
{
    let ghost keys = seq_views(variants@);
    proof {
        lemma_sorted_iff_no_inversion(keys);
    }
    let sorted = match scan_first_inversion(variants) {
        Some(_) => false,
        None => true,
    };
    if sorted {
        return None;
    }
    proof {
        lemma_first_inversion_from(keys, 1);
    }
    let (index, target) = find_unsorted_element(variants);
    let message = sort_message(variants[index].as_str(), variants[target].as_str());
    Some(SortDiag { index, target, message })
}

/// The outcome of checking one item.
pub enum SortedOutcome {
    Accepted,
    Violation(SortDiag),
    WrongShape { message: String },
}

/// Checks an item: enums go through the variant ordering check; anything
/// else is rejected with the fixed shape message.
pub fn sorted_item(item: &ItemDecl) -> (r: SortedOutcome)
    ensures
        match item {
            ItemDecl::EnumItem { variants } => match r {
                SortedOutcome::Accepted => keys_sorted(seq_views(variants@)),
                SortedOutcome::Violation(d) => !keys_sorted(seq_views(variants@)) && sort_diag_ok(
                    variants@,
                    d,
                ),
                SortedOutcome::WrongShape { .. } => false,
            },
            ItemDecl::OtherItem => r matches SortedOutcome::WrongShape { message } && message@
                == "expected enum or match expression"@,
        },
{
    match item {
        ItemDecl::EnumItem { variants } => match check_enum_sorted(variants) {
            Some(d) => SortedOutcome::Violation(d),
            None => SortedOutcome::Accepted,
        },
        ItemDecl::OtherItem => SortedOutcome::WrongShape {
            message: "expected enum or match expression".to_owned(),
        },
    }
}

/// With exactly one adjacent inversion, at position `i`, the diagnostic is
/// anchored at position `i` and names the inverted variant together with
/// the first variant whose name is strictly greater than it.
pub proof fn lemma_single_inversion_report(variants: Seq<String>, i: int, d: SortDiag)
    requires
        1 <= i < variants.len(),
        lex_lt(seq_views(variants)[i], seq_views(variants)[i - 1]),
        forall|k: int|
            1 <= k < variants.len() && k != i ==> !(#[trigger] lex_lt(
                seq_views(variants)[k],
                seq_views(variants)[k - 1],
            )),
        sort_diag_ok(variants, d),
    ensures
        d.index == i,
        lex_lt(seq_views(variants)[i], seq_views(variants)[d.target as int]),
        forall|k: int|
            0 <= k < d.target ==> !(#[trigger] lex_lt(
                seq_views(variants)[i],
                seq_views(variants)[k],
            )),
        d.message@ == seq_views(variants)[i] + " should sort before "@ + seq_views(
            variants,
        )[d.target as int],
{
    let keys = seq_views(variants);
    lemma_first_inversion_from(keys, 1);
    lemma_first_greater_from(keys, keys[d.index as int], 0);
    assert(d.index == i);
    // The scan for a greater entry cannot come up empty: the predecessor of
    // the inverted variant is itself strictly greater.
    assert(lex_lt(keys[i], keys[i - 1]));
    assert(first_greater(keys, keys[i]) is Some);
}

} // verus!
