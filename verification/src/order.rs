//! The shared ordering check.
//!
//! Both checkers walk a key sequence for the first adjacent inversion — the
//! first position whose key sorts strictly before its predecessor — and then
//! scan from the start for the first key strictly greater than the inverted
//! one, the position it belongs before. The spec functions define both scans
//! recursively; the lemmas restate them as first-such-index properties.

use vstd::prelude::*;
use vstd::string::StrSliceExecFns;
use crate::text::{lex_lt, seq_views, str_lt};

verus! {

/// The first adjacent inversion at or after position `i`.
pub open spec fn first_inversion_from(keys: Seq<Seq<char>>, i: int) -> Option<int>
    decreases keys.len() - i,
{
    if i < 1 || i >= keys.len() {
        None
    } else if lex_lt(keys[i], keys[i - 1]) {
        Some(i)
    } else {
        first_inversion_from(keys, i + 1)
    }
}

/// The first adjacent inversion of the key sequence.
pub open spec fn first_inversion(keys: Seq<Seq<char>>) -> Option<int> {
    first_inversion_from(keys, 1)
}

/// No adjacent pair is inverted.
pub open spec fn keys_sorted(keys: Seq<Seq<char>>) -> bool {
    forall|i: int| 1 <= i < keys.len() ==> !(#[trigger] lex_lt(keys[i], keys[i - 1]))
}

/// The first position at or after `j` whose key is strictly greater
/// than `pivot`.
pub open spec fn first_greater_from(keys: Seq<Seq<char>>, pivot: Seq<char>, j: int) -> Option<int>
    decreases keys.len() - j,
{
    if j < 0 || j >= keys.len() {
        None
    } else if lex_lt(pivot, keys[j]) {
        Some(j)
    } else {
        first_greater_from(keys, pivot, j + 1)
    }
}

/// The first position whose key is strictly greater than `pivot`.
pub open spec fn first_greater(keys: Seq<Seq<char>>, pivot: Seq<char>) -> Option<int> {
    first_greater_from(keys, pivot, 0)
}

/// The inversion scan finds the first inversion: anything it skips is in
/// order, and a `None` outcome means everything from `i` on is in order.
pub proof fn lemma_first_inversion_from(keys: Seq<Seq<char>>, i: int)
    requires
        1 <= i,
    ensures
        match first_inversion_from(keys, i) {
            Some(j) => {
                &&& i <= j < keys.len()
                &&& lex_lt(keys[j], keys[j - 1])
                &&& forall|k: int| i <= k < j ==> !(#[trigger] lex_lt(keys[k], keys[k - 1]))
            },
            None => forall|k: int| i <= k < keys.len() ==> !(#[trigger] lex_lt(keys[k], keys[k - 1])),
        },
    decreases keys.len() - i,
{
    if i < keys.len() && !lex_lt(keys[i], keys[i - 1]) {
        lemma_first_inversion_from(keys, i + 1);
    }
}

/// A key sequence is sorted exactly when the inversion scan comes up empty.
pub proof fn lemma_sorted_iff_no_inversion(keys: Seq<Seq<char>>)
    ensures
        keys_sorted(keys) <==> first_inversion(keys) is None,
{
    lemma_first_inversion_from(keys, 1);
}

/// The target scan finds the first strictly greater key: anything it skips
/// is not greater, and a `None` outcome means no key is greater.
pub proof fn lemma_first_greater_from(keys: Seq<Seq<char>>, pivot: Seq<char>, j: int)
    requires
        0 <= j,
    ensures
        match first_greater_from(keys, pivot, j) {
            Some(t) => {
                &&& j <= t < keys.len()
                &&& lex_lt(pivot, keys[t])
                &&& forall|k: int| j <= k < t ==> !(#[trigger] lex_lt(pivot, keys[k]))
            },
            None => forall|k: int| j <= k < keys.len() ==> !(#[trigger] lex_lt(pivot, keys[k])),
        },
    decreases keys.len() - j,
{
    if 0 <= j < keys.len() && !lex_lt(pivot, keys[j]) {
        lemma_first_greater_from(keys, pivot, j + 1);
    }
}

/// Scans for the first adjacent inversion among the strings' keys.
pub fn scan_first_inversion(array: &Vec<String>) -> (r: Option<usize>)
    ensures
        match r {
            Some(i) => first_inversion(seq_views(array@)) == Some(i as int),
            None => first_inversion(seq_views(array@)) is None,
        },
{
    let ghost keys = seq_views(array@);
    let length = array.len();
    let mut i: usize = 1;
    while i < length
        invariant
            1 <= i,
            keys == seq_views(array@),
            length == array@.len(),
            first_inversion(keys) == first_inversion_from(keys, i as int),
        decreases length - i,
    {
        if str_lt(array[i].as_str(), array[i - 1].as_str()) {
            return Some(i);
        }
        i = i + 1;
    }
    None
}

/// Scans for the first key strictly greater than the key at `pivot`.
pub fn scan_first_greater(array: &Vec<String>, pivot: usize) -> (r: Option<usize>)
    requires
        pivot < array@.len(),
    ensures
        match r {
            Some(j) => first_greater(seq_views(array@), seq_views(array@)[pivot as int]) == Some(
                j as int,
            ),
            None => first_greater(seq_views(array@), seq_views(array@)[pivot as int]) is None,
        },
{
    let ghost keys = seq_views(array@);
    let length = array.len();
    let mut j: usize = 0;
    while j < length
        invariant
            keys == seq_views(array@),
            length == array@.len(),
            pivot < length,
            first_greater(keys, keys[pivot as int]) == first_greater_from(
                keys,
                keys[pivot as int],
                j as int,
            ),
        decreases length - j,
    {
        if str_lt(array[pivot].as_str(), array[j].as_str()) {
            return Some(j);
        }
        j = j + 1;
    }
    None
}

/// Locates the first adjacent inversion and the position its key belongs
/// before: the first entry strictly greater than the inverted one. Either
/// scan falls back to position zero when it finds nothing.
pub fn find_unsorted_element(array: &Vec<String>) -> (r: (usize, usize))
    requires
        array@.len() >= 1,
    ensures
        ({
            let keys = seq_views(array@);
            &&& r.0 < array@.len()
            &&& r.1 < array@.len()
            &&& r.0 as int == match first_inversion(keys) {
                Some(i) => i,
                None => 0,
            }
            &&& r.1 as int == match first_greater(keys, keys[r.0 as int]) {
                Some(j) => j,
                None => 0,
            }
        }),
{
    let ghost keys = seq_views(array@);
    let unsorted: usize = match scan_first_inversion(array) {
        Some(i) => {
            proof {
                lemma_first_inversion_from(keys, 1);
            }
            i
        },
        None => 0,
    };
    let target: usize = match scan_first_greater(array, unsorted) {
        Some(j) => {
            proof {
                lemma_first_greater_from(keys, keys[unsorted as int], 0);
            }
            j
        },
        None => 0,
    };
    (unsorted, target)
}

} // verus!
