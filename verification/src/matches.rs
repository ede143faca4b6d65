//! The match-arm extractor and match sort checker.
//!
//! A match expression is in scope only if it carries the marker attribute:
//! a bare path attribute of exactly one segment reading `sorted`. For each
//! arm a comparable key is extracted — a name, a `::`-joined path, or `_`
//! for a wildcard; arms of any other pattern shape are excluded from the
//! comparison and each gets an unsupported-pattern diagnostic. The
//! extracted keys then go through the shared ordering check, which adds at
//! most one ordering diagnostic, anchored at the arm of the offending key.
//! The marker attribute is removed from the output unconditionally once
//! detected, violation or not.

use vstd::prelude::*;
use vstd::string::StrSliceExecFns;
use vstd::string::StringExecFns;
use crate::ast::{AttrDecl, MatchDecl, PatDecl};
use crate::order::{
    find_unsorted_element, first_greater, first_inversion, keys_sorted,
    lemma_first_inversion_from, lemma_sorted_iff_no_inversion, scan_first_inversion,
};
use crate::text::{join_parts, join_segments, seq_views, sort_message, str_eq};

verus! {

/// The marker attribute: a bare path of exactly one segment, `sorted`.
pub open spec fn is_marker(a: AttrDecl) -> bool {
    match a {
        AttrDecl::PathAttr { segments } => segments@.len() == 1 && segments@[0]@ == "sorted"@,
        AttrDecl::OtherAttr => false,
    }
}

/// The first marker attribute at or after position `i`.
pub open spec fn marker_from(attrs: Seq<AttrDecl>, i: int) -> Option<int>
    decreases attrs.len() - i,
{
    if i < 0 || i >= attrs.len() {
        None
    } else if is_marker(attrs[i]) {
        Some(i)
    } else {
        marker_from(attrs, i + 1)
    }
}

/// The position of the first marker attribute.
pub open spec fn marker_index(attrs: Seq<AttrDecl>) -> Option<int> {
    marker_from(attrs, 0)
}

/// The marker scan finds the first marker, and a `None` outcome means
/// there is none.
pub proof fn lemma_marker_from(attrs: Seq<AttrDecl>, i: int)
    requires
        0 <= i,
    ensures
        match marker_from(attrs, i) {
            Some(k) => {
                &&& i <= k < attrs.len()
                &&& is_marker(attrs[k])
                &&& forall|j: int| i <= j < k ==> !is_marker(#[trigger] attrs[j])
            },
            None => forall|j: int| i <= j < attrs.len() ==> !is_marker(#[trigger] attrs[j]),
        },
    decreases attrs.len() - i,
{
    if i < attrs.len() && !is_marker(attrs[i]) {
        lemma_marker_from(attrs, i + 1);
    }
}

/// Finds the first marker attribute, if any.
pub fn has_sorted_attribute(attrs: &Vec<AttrDecl>) -> (r: Option<usize>)
    ensures
        match r {
            Some(k) => marker_index(attrs@) == Some(k as int) && k < attrs@.len(),
            None => marker_index(attrs@) is None,
        },
{
    let mut i: usize = 0;
    while i < attrs.len()
        invariant
            i <= attrs@.len(),
            marker_index(attrs@) == marker_from(attrs@, i as int),
        decreases attrs@.len() - i,
    {
        let hit = match &attrs[i] {
            AttrDecl::PathAttr { segments } => segments.len() == 1 && str_eq(
                segments[0].as_str(),
                "sorted",
            ),
            AttrDecl::OtherAttr => false,
        };
        if hit {
            return Some(i);
        }
        i = i + 1;
    }
    None
}

/// The comparable key of one arm pattern, if its shape supports one.
pub open spec fn key_of(p: PatDecl) -> Option<Seq<char>> {
    match p {
        PatDecl::IdentPat { name } => Some(name@),
        PatDecl::PathPat { segments } => Some(join_parts(seq_views(segments@), "::"@)),
        PatDecl::StructPat { segments } => Some(join_parts(seq_views(segments@), "::"@)),
        PatDecl::TupleStructPat { segments } => Some(join_parts(seq_views(segments@), "::"@)),
        PatDecl::WildPat => Some("_"@),
        PatDecl::OtherPat => None,
    }
}

/// Extracts the comparable key of one arm pattern.
pub fn arm_key(p: &PatDecl) -> (r: Option<String>)
    ensures
        match r {
            Some(k) => key_of(*p) == Some(k@),
            None => key_of(*p) is None,
        },
{
    match p {
        PatDecl::IdentPat { name } => Some(name.clone()),
        PatDecl::PathPat { segments } => Some(join_segments(segments)),
        PatDecl::StructPat { segments } => Some(join_segments(segments)),
        PatDecl::TupleStructPat { segments } => Some(join_segments(segments)),
        PatDecl::WildPat => Some("_".to_owned()),
        PatDecl::OtherPat => None,
    }
}

/// The comparable arms, in order: each arm position with a key, paired
/// with its key.
pub open spec fn keyed_arms(arms: Seq<PatDecl>) -> Seq<(int, Seq<char>)>
    decreases arms.len(),
{
    if arms.len() == 0 {
        Seq::empty()
    } else {
        let pre = keyed_arms(arms.drop_last());
        match key_of(arms.last()) {
            Some(k) => pre.push(((arms.len() - 1) as int, k)),
            None => pre,
        }
    }
}

/// The extracted key sequence, unsupported arms excluded.
pub open spec fn arm_keys(arms: Seq<PatDecl>) -> Seq<Seq<char>> {
    keyed_arms(arms).map_values(|p: (int, Seq<char>)| p.1)
}

/// The positions of the arms whose pattern shape supports no key.
pub open spec fn unsupported_arms(arms: Seq<PatDecl>) -> Seq<int>
    decreases arms.len(),
{
    if arms.len() == 0 {
        Seq::empty()
    } else {
        let pre = unsupported_arms(arms.drop_last());
        if key_of(arms.last()) is None {
            pre.push((arms.len() - 1) as int)
        } else {
            pre
        }
    }
}

/// One diagnostic of the match checker, anchored at an arm.
pub struct ArmDiag {
    pub arm: usize,
    pub message: String,
}

/// The (arm, message) pairs of a diagnostic list.
pub open spec fn arm_diag_view(ds: Seq<ArmDiag>) -> Seq<(int, Seq<char>)> {
    ds.map_values(|d: ArmDiag| (d.arm as int, d.message@))
}

/// The attribute list after the checker ran: the first marker removed,
/// or unchanged if there was none.
pub open spec fn stripped_attrs(attrs: Seq<AttrDecl>) -> Seq<AttrDecl> {
    match marker_index(attrs) {
        Some(k) => attrs.remove(k),
        None => attrs,
    }
}

/// The diagnostics the checker emits for one match expression: nothing
/// without a marker; otherwise one unsupported-pattern diagnostic per
/// unsupported arm, in arm order, and — only if the extracted keys are not
/// sorted — one final ordering diagnostic, anchored at the arm of the
/// first inverted key and naming it together with the first key greater
/// than it.
pub open spec fn match_diag_pairs(m: MatchDecl) -> Seq<(int, Seq<char>)> {
    if marker_index(m.attrs@) is None {
        Seq::empty()
    } else {
        let arms = m.arms@;
        let unsup = unsupported_arms(arms).map_values(
            |a: int| (a, "unsupported by #[sorted]"@),
        );
        let keys = arm_keys(arms);
        if keys_sorted(keys) {
            unsup
        } else {
            let u = match first_inversion(keys) {
                Some(i) => i,
                None => 0,
            };
            let t = match first_greater(keys, keys[u]) {
                Some(j) => j,
                None => 0,
            };
            unsup.push((keyed_arms(arms)[u].0, keys[u] + " should sort before "@ + keys[t]))
        }
    }
}

/// Checks one match expression: strips the first marker attribute, leaves
/// the arms untouched, and returns the diagnostics.
pub fn check_match(m: &mut MatchDecl) -> (diags: Vec<ArmDiag>)
    ensures
        final(m).arms == old(m).arms,
        final(m).attrs@ == stripped_attrs(old(m).attrs@),
        arm_diag_view(diags@) == match_diag_pairs(*old(m)),
{
    let marker = has_sorted_attribute(&m.attrs);
    let marker_at: usize = match marker {
        None => {
            let diags: Vec<ArmDiag> = Vec::new();
            proof {
                assert(arm_diag_view(diags@) =~= match_diag_pairs(*m));
            }
            return diags;
        },
        Some(k) => k,
    };
    let ghost arms = m.arms@;
    let mut keys: Vec<String> = Vec::new();
    let mut key_arms: Vec<usize> = Vec::new();
    let mut diags: Vec<ArmDiag> = Vec::new();
    let mut i: usize = 0;
    while i < m.arms.len()
        invariant
            *m == *old(m),
            arms == old(m).arms@,
            i <= arms.len(),
            keys@.len() == keyed_arms(arms.take(i as int)).len(),
            key_arms@.len() == keys@.len(),
            forall|j: int|
                0 <= j < keys@.len() ==> #[trigger] keyed_arms(arms.take(i as int))[j] == (
                    key_arms@[j] as int,
                    keys@[j]@,
                ),
            diags@.len() == unsupported_arms(arms.take(i as int)).len(),
            forall|j: int|
                0 <= j < diags@.len() ==> {
                    &&& (#[trigger] diags@[j]).arm as int == unsupported_arms(
                        arms.take(i as int),
                    )[j]
                    &&& diags@[j].message@ == "unsupported by #[sorted]"@
                },
        decreases arms.len() - i,
    {
        proof {
            assert(arms.take(i + 1).drop_last() =~= arms.take(i as int));
            assert(arms.take(i + 1).last() == arms[i as int]);
        }
        match arm_key(&m.arms[i]) {
            Some(k) => {
                keys.push(k);
                key_arms.push(i);
            },
            None => {
                diags.push(ArmDiag { arm: i, message: "unsupported by #[sorted]".to_owned() });
            },
        }
        i = i + 1;
    }
    proof {
        assert(arms.take(arms.len() as int) =~= arms);
        assert(seq_views(keys@) =~= arm_keys(arms));
    }
    let sorted = match scan_first_inversion(&keys) {
        None => true,
        Some(_) => false,
    };
    proof {
        lemma_sorted_iff_no_inversion(arm_keys(arms));
    }
    if !sorted {
        proof {
            lemma_first_inversion_from(arm_keys(arms), 1);
        }
        let (u, t) = find_unsorted_element(&keys);
        let offending_arm = key_arms[u];
        let message = sort_message(keys[u].as_str(), keys[t].as_str());
        diags.push(ArmDiag { arm: offending_arm, message });
    }
    m.attrs.remove(marker_at);
    proof {
        assert(arm_diag_view(diags@) =~= match_diag_pairs(*old(m)));
    }
    diags
}

/// One diagnostic of a whole-function walk: the match expression it came
/// from, the arm, and the message.
pub struct FnDiag {
    pub match_index: usize,
    pub arm: usize,
    pub message: String,
}

/// The (match, arm, message) triples of a diagnostic list.
pub open spec fn fn_diag_view(ds: Seq<FnDiag>) -> Seq<(int, int, Seq<char>)> {
    ds.map_values(|d: FnDiag| (d.match_index as int, d.arm as int, d.message@))
}

/// The pairs of one match's diagnostics, tagged with the match position.
pub open spec fn lifted_pairs(k: int, ps: Seq<(int, Seq<char>)>) -> Seq<(int, int, Seq<char>)> {
    ps.map_values(|p: (int, Seq<char>)| (k, p.0, p.1))
}

/// The diagnostics of walking a function's match expressions in order:
/// each match contributes its own diagnostics, tagged with its position.
pub open spec fn fn_diag_triples(ms: Seq<MatchDecl>) -> Seq<(int, int, Seq<char>)>
    decreases ms.len(),
{
    if ms.len() == 0 {
        Seq::empty()
    } else {
        fn_diag_triples(ms.drop_last()) + match_diag_pairs(ms.last()).map_values(
            |p: (int, Seq<char>)| ((ms.len() - 1) as int, p.0, p.1),
        )
    }
}

/// Walks a function's match expressions in visit order: every match comes
/// back with its arms untouched and its first marker attribute stripped,
/// and the diagnostics of all matches accumulate in order.
pub fn check_fn(input: Vec<MatchDecl>) -> (r: (Vec<MatchDecl>, Vec<FnDiag>))
    ensures
        r.0@.len() == input@.len(),
        forall|i: int|
            0 <= i < input@.len() ==> {
                &&& (#[trigger] r.0@[i]).arms == input@[i].arms
                &&& r.0@[i].attrs@ == stripped_attrs(input@[i].attrs@)
            },
        fn_diag_view(r.1@) == fn_diag_triples(input@),
{
    let ghost source = input@;
    let mut rest = input;
    let mut out: Vec<MatchDecl> = Vec::new();
    let mut diags: Vec<FnDiag> = Vec::new();
    while rest.len() > 0
        invariant
            out@.len() + rest@.len() == source.len(),
            rest@ == source.skip(out@.len() as int),
            forall|i: int|
                0 <= i < out@.len() ==> {
                    &&& (#[trigger] out@[i]).arms == source[i].arms
                    &&& out@[i].attrs@ == stripped_attrs(source[i].attrs@)
                },
            fn_diag_view(diags@) == fn_diag_triples(source.take(out@.len() as int)),
        decreases rest@.len(),
    {
        let idx = out.len();
        let ghost k = out@.len() as int;
        let mut current = rest.remove(0);
        proof {
            assert(current == source[k]);
            assert(rest@ =~= source.skip(k + 1));
        }
        let ds = check_match(&mut current);
        let ghost pairs = match_diag_pairs(source[k]);
        let ghost prefix = fn_diag_triples(source.take(k));
        let mut j: usize = 0;
        while j < ds.len()
            invariant
                j <= ds@.len(),
                idx as int == k,
                arm_diag_view(ds@) == pairs,
                pairs.len() == ds@.len(),
                prefix == fn_diag_triples(source.take(k)),
                fn_diag_view(diags@) == prefix + lifted_pairs(k, pairs.take(j as int)),
            decreases ds@.len() - j,
        {
            let d = &ds[j];
            let ghost dpre = diags@;
            diags.push(FnDiag { match_index: idx, arm: d.arm, message: d.message.clone() });
            proof {
                assert(arm_diag_view(ds@)[j as int] == (d.arm as int, d.message@));
                assert(pairs[j as int] == (d.arm as int, d.message@));
                let nd = diags@[diags@.len() - 1];
                assert(diags@ == dpre.push(nd));
                assert(fn_diag_view(diags@) =~~= fn_diag_view(dpre).push(
                    (nd.match_index as int, nd.arm as int, nd.message@),
                ));
                assert((nd.match_index as int, nd.arm as int, nd.message@) == (
                    k,
                    pairs[j as int].0,
                    pairs[j as int].1,
                ));
                assert(lifted_pairs(k, pairs.take(j as int + 1)) =~~= lifted_pairs(
                    k,
                    pairs.take(j as int),
                ).push((k, pairs[j as int].0, pairs[j as int].1)));
                assert(fn_diag_view(diags@) =~~= prefix + lifted_pairs(
                    k,
                    pairs.take(j as int + 1),
                ));
            }
            j = j + 1;
        }
        out.push(current);
        proof {
            assert(pairs.take(ds@.len() as int) =~= pairs);
            assert(fn_diag_view(diags@) == prefix + lifted_pairs(k, pairs));
            assert(source.take(k + 1).drop_last() =~= source.take(k));
            assert(source.take(k + 1).last() == source[k]);
            assert(fn_diag_view(diags@) =~~= fn_diag_triples(source.take(k + 1)));
        }
    }
    proof {
        assert(source.take(source.len() as int) =~= source);
    }
    (out, diags)
}

/// A marked match whose extracted keys are already sorted gets no ordering
/// diagnostic — every diagnostic it emits is an unsupported-pattern report
/// — and, the marker occurring once, no marker is left in the output.
pub proof fn lemma_sorted_match_clean(m: MatchDecl, k: int)
    requires
        marker_index(m.attrs@) == Some(k),
        forall|j: int| 0 <= j < m.attrs@.len() && j != k ==> !is_marker(#[trigger] m.attrs@[j]),
        keys_sorted(arm_keys(m.arms@)),
    ensures
        match_diag_pairs(m).len() == unsupported_arms(m.arms@).len(),
        forall|i: int|
            0 <= i < match_diag_pairs(m).len() ==> (#[trigger] match_diag_pairs(m)[i]).1
                == "unsupported by #[sorted]"@,
        forall|i: int|
            0 <= i < stripped_attrs(m.attrs@).len() ==> !is_marker(
                #[trigger] stripped_attrs(m.attrs@)[i],
            ),
{
    lemma_marker_from(m.attrs@, 0);
    assert forall|i: int| 0 <= i < stripped_attrs(m.attrs@).len() implies !is_marker(
        #[trigger] stripped_attrs(m.attrs@)[i],
    ) by {
        assert(stripped_attrs(m.attrs@) == m.attrs@.remove(k));
        if i < k {
            assert(m.attrs@.remove(k)[i] == m.attrs@[i]);
        } else {
            assert(m.attrs@.remove(k)[i] == m.attrs@[i + 1]);
        }
    }
}

} // verus!
