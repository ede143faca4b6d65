//! Text ordering and message building.
//!
//! Variant and arm keys are compared as character sequences in ascending
//! code-point order, the order Rust gives identifiers. The exec comparisons
//! here are specified against the recursive [`lex_lt_from`] relation, and the
//! message builders state the exact text they produce.

use vstd::prelude::*;
use vstd::string::StrSliceExecFns;
use vstd::string::StringExecFns;

verus! {

/// Lexicographic "strictly less" on character sequences, deciding at
/// position `k` under the assumption that `a` and `b` agree before `k`.
pub open spec fn lex_lt_from(a: Seq<char>, b: Seq<char>, k: int) -> bool
    decreases b.len() - k,
{
    if k < 0 || k >= b.len() {
        false
    } else if k >= a.len() {
        true
    } else if a[k] != b[k] {
        (a[k] as u32) < (b[k] as u32)
    } else {
        lex_lt_from(a, b, k + 1)
    }
}

/// `a` sorts strictly before `b`.
pub open spec fn lex_lt(a: Seq<char>, b: Seq<char>) -> bool {
    lex_lt_from(a, b, 0)
}

/// The views of a sequence of strings.
pub open spec fn seq_views(ss: Seq<String>) -> Seq<Seq<char>> {
    ss.map_values(|s: String| s@)
}

/// Decides [`lex_lt`] on string slices.
pub fn str_lt(a: &str, b: &str) -> (r: bool)
    ensures
        r == lex_lt(a@, b@),
{
    let a_len = a.unicode_len();
    let b_len = b.unicode_len();
    let mut i: usize = 0;
    loop
        invariant
            i <= a_len,
            i <= b_len,
            a_len == a@.len(),
            b_len == b@.len(),
            lex_lt(a@, b@) == lex_lt_from(a@, b@, i as int),
        decreases b_len - i,
    {
        if i >= b_len {
            return false;
        }
        if i >= a_len {
            return true;
        }
        let ca = a.get_char(i);
        let cb = b.get_char(i);
        if ca != cb {
            return (ca as u32) < (cb as u32);
        }
        i = i + 1;
    }
}

/// Decides equality of the character sequences of two string slices.
pub fn str_eq(a: &str, b: &str) -> (r: bool)
    ensures
        r == (a@ == b@),
{
    let a_len = a.unicode_len();
    let b_len = b.unicode_len();
    if a_len != b_len {
        return false;
    }
    let mut i: usize = 0;
    while i < a_len
        invariant
            i <= a_len,
            a_len == a@.len(),
            a_len == b@.len(),
            forall|j: int| 0 <= j < i ==> a@[j] == b@[j],
        decreases a_len - i,
    {
        if a.get_char(i) != b.get_char(i) {
            return false;
        }
        i = i + 1;
    }
    proof {
        assert(a@ =~= b@);
    }
    true
}

/// The parts joined with the separator between consecutive parts.
pub open spec fn join_parts(parts: Seq<Seq<char>>, sep: Seq<char>) -> Seq<char>
    decreases parts.len(),
{
    if parts.len() == 0 {
        Seq::empty()
    } else if parts.len() == 1 {
        parts[0]
    } else {
        join_parts(parts.drop_last(), sep) + sep + parts.last()
    }
}

/// Joins path segment names with `"::"`, the textual key of a path.
pub fn join_segments(segments: &Vec<String>) -> (r: String)
    ensures
        r@ == join_parts(seq_views(segments@), "::"@),
{
    let ghost parts = seq_views(segments@);
    let mut out = String::new();
    let mut i: usize = 0;
    while i < segments.len()
        invariant
            i <= segments.len(),
            parts == seq_views(segments@),
            parts.len() == segments@.len(),
            out@ == join_parts(parts.take(i as int), "::"@),
        decreases segments.len() - i,
    {
        if i > 0 {
            out.append("::");
        }
        out.append(segments[i].as_str());
        proof {
            assert(parts.take(i + 1).drop_last() =~= parts.take(i as int));
            assert(parts.take(i + 1).last() == parts[i as int]);
            if i == 0 {
                assert(out@ =~= join_parts(parts.take(1), "::"@));
            }
        }
        i = i + 1;
    }
    proof {
        assert(parts.take(segments@.len() as int) =~= parts);
    }
    out
}

/// The text of an ordering diagnostic: the offending key, then the key it
/// belongs before.
pub fn sort_message(offending: &str, target: &str) -> (m: String)
    ensures
        m@ == offending@ + " should sort before "@ + target@,
{
    let mut m = offending.to_owned();
    m.append(" should sort before ");
    m.append(target);
    m
}

/// The text of a finalizer error naming the field left unset.
pub fn unset_message(field: &str) -> (m: String)
    ensures
        m@ == "Field "@ + field@ + " must be set!"@,
{
    let mut m = "Field ".to_owned();
    m.append(field);
    m.append(" must be set!");
    m
}

} // verus!
