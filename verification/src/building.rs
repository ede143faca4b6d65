//! The runtime behaviour of a synthesized builder.
//!
//! The emitted builder stores every field behind one extra `Option`; its
//! setters overwrite unconditionally (last write wins), and its finalizer
//! consumes the stored values in declaration order, failing on the first
//! field still unset. This module gives that behaviour directly, over a
//! builder state whose field values are opaque tokens — the emitted code
//! moves values without inspecting them, so one token stands for any value
//! of the field's type. Because the finalizer consumes what it reads, a
//! builder that has finalized once is back in the all-unset state: calling
//! the finalizer again fails on the first field, a caller contract of the
//! emitted code, not an error in it.

use vstd::prelude::*;
use vstd::pervasive::VecAdditionalExecFns;
use crate::builder::{BuilderFieldPlan, BuilderPlan, FieldKind};
use crate::text::unset_message;

verus! {

/// One builder slot: unset, a plain field's stored value, or an
/// `Option`-shaped field's stored inner state.
#[derive(Clone, Copy, Debug)]
pub enum Slot {
    Vacant,
    PlainVal { v: u64 },
    OptVal { v: Option<u64> },
}

/// One finalized field: a plain value moved out, or the `Option`-shaped
/// field's final state.
#[derive(Clone, Copy, Debug)]
pub enum FieldVal {
    PlainVal { v: u64 },
    OptVal { v: Option<u64> },
}

/// The slots of a freshly constructed builder: plain fields unset,
/// `Option`-shaped fields set to empty.
pub open spec fn fresh_slots(fields: Seq<BuilderFieldPlan>) -> Seq<Slot> {
    Seq::new(
        fields.len(),
        |i: int|
            match fields[i].kind {
                FieldKind::Plain => Slot::Vacant,
                FieldKind::Optional { .. } => Slot::OptVal { v: None },
            },
    )
}

/// What one setter stores for a field of the given classification.
pub open spec fn stored_slot(kind: FieldKind, v: u64) -> Slot {
    match kind {
        FieldKind::Plain => Slot::PlainVal { v },
        FieldKind::Optional { .. } => Slot::OptVal { v: Some(v) },
    }
}

/// The slots after one setter call.
pub open spec fn set_slots(
    fields: Seq<BuilderFieldPlan>,
    slots: Seq<Slot>,
    i: int,
    v: u64,
) -> Seq<Slot> {
    slots.update(i, stored_slot(fields[i].kind, v))
}

/// The slots after a sequence of setter calls, applied left to right.
pub open spec fn apply_sets(
    fields: Seq<BuilderFieldPlan>,
    slots: Seq<Slot>,
    ops: Seq<(int, u64)>,
) -> Seq<Slot>
    decreases ops.len(),
{
    if ops.len() == 0 {
        slots
    } else {
        set_slots(
            fields,
            apply_sets(fields, slots, ops.drop_last()),
            ops.last().0,
            ops.last().1,
        )
    }
}

/// The first unset slot at or after position `i`.
pub open spec fn first_vacant_from(slots: Seq<Slot>, i: int) -> Option<int>
    decreases slots.len() - i,
{
    if i < 0 || i >= slots.len() {
        None
    } else if slots[i] is Vacant {
        Some(i)
    } else {
        first_vacant_from(slots, i + 1)
    }
}

/// What the finalizer yields for a filled slot.
pub open spec fn taken_value(s: Slot) -> FieldVal {
    match s {
        Slot::Vacant => arbitrary(),
        Slot::PlainVal { v } => FieldVal::PlainVal { v },
        Slot::OptVal { v } => FieldVal::OptVal { v },
    }
}

/// What constructing the struct directly from value `v` gives for a field
/// of the given classification.
pub open spec fn direct_value(kind: FieldKind, v: u64) -> FieldVal {
    match kind {
        FieldKind::Plain => FieldVal::PlainVal { v },
        FieldKind::Optional { .. } => FieldVal::OptVal { v: Some(v) },
    }
}

/// The state of one builder instance: one slot per planned field.
pub struct BuilderState {
    pub slots: Vec<Slot>,
}

impl BuilderState {
    /// The zero-argument constructor the builder plan emits: every field
    /// starts unset — for `Option`-shaped fields the outer absence, not
    /// an explicit empty value.
    pub fn new_for(plan: &BuilderPlan) -> (s: BuilderState)
        ensures
            s.slots@ == fresh_slots(plan.fields@),
    {
        let mut slots: Vec<Slot> = Vec::new();
        let mut i: usize = 0;
        while i < plan.fields.len()
            invariant
                i <= plan.fields@.len(),
                slots@.len() == i,
                forall|j: int| 0 <= j < i ==> slots@[j] == fresh_slots(plan.fields@)[j],
            decreases plan.fields@.len() - i,
        {
            let slot = match &plan.fields[i].kind {
                FieldKind::Plain => Slot::Vacant,
                FieldKind::Optional { .. } => Slot::OptVal { v: None },
            };
            slots.push(slot);
            i = i + 1;
        }
        proof {
            assert(slots@ =~= fresh_slots(plan.fields@));
        }
        BuilderState { slots }
    }

    /// One setter call: records field `i` as set, overwriting any earlier
    /// value — last write wins, with no duplicate-set error.
    pub fn set_field(&mut self, plan: &BuilderPlan, i: usize, v: u64)
        requires
            old(self).slots@.len() == plan.fields@.len(),
            i < plan.fields@.len(),
        ensures
            final(self).slots@ == set_slots(plan.fields@, old(self).slots@, i as int, v),
    {
        let slot = match &plan.fields[i].kind {
            FieldKind::Plain => Slot::PlainVal { v },
            FieldKind::Optional { .. } => Slot::OptVal { v: Some(v) },
        };
        self.slots.set(i, slot);
    }

    /// The finalizer: consumes the stored values in declaration order. If
    /// every slot is filled it yields each field's value; otherwise it
    /// fails on the first unset field, naming it, with the slots before it
    /// already consumed and the slots after it untouched.
    pub fn build(&mut self, plan: &BuilderPlan) -> (r: Result<Vec<FieldVal>, String>)
        requires
            old(self).slots@.len() == plan.fields@.len(),
        ensures
            final(self).slots@.len() == old(self).slots@.len(),
            match r {
                Ok(vals) => {
                    &&& first_vacant_from(old(self).slots@, 0) is None
                    &&& vals@.len() == plan.fields@.len()
                    &&& forall|j: int|
                        0 <= j < vals@.len() ==> vals@[j] == taken_value(old(self).slots@[j])
                    &&& forall|j: int|
                        0 <= j < final(self).slots@.len()
                            ==> (#[trigger] final(self).slots@[j]) is Vacant
                },
                Err(m) => first_vacant_from(old(self).slots@, 0) matches Some(k) && {
                    &&& m@ == "Field "@ + plan.fields@[k].name@ + " must be set!"@
                    &&& forall|j: int|
                        0 <= j <= k ==> (#[trigger] final(self).slots@[j]) is Vacant
                    &&& forall|j: int|
                        k < j < old(self).slots@.len()
                            ==> final(self).slots@[j] == old(self).slots@[j]
                },
            },
    {
        let ghost orig = self.slots@;
        let n = self.slots.len();
        let mut vals: Vec<FieldVal> = Vec::new();
        let mut i: usize = 0;
        while i < n
            invariant
                orig == old(self).slots@,
                i <= n,
                n == plan.fields@.len(),
                self.slots@.len() == n,
                orig.len() == n,
                forall|j: int| i <= j < n ==> self.slots@[j] == orig[j],
                forall|j: int| 0 <= j < i ==> (#[trigger] self.slots@[j]) is Vacant,
                forall|j: int| 0 <= j < i ==> !((#[trigger] orig[j]) is Vacant),
                first_vacant_from(orig, 0) == first_vacant_from(orig, i as int),
                vals@.len() == i,
                forall|j: int| 0 <= j < i ==> vals@[j] == taken_value(orig[j]),
            decreases n - i,
        {
            let slot = self.slots[i];
            self.slots.set(i, Slot::Vacant);
            match slot {
                Slot::Vacant => {
                    let m = unset_message(plan.fields[i].name.as_str());
                    return Err(m);
                },
                Slot::PlainVal { v } => vals.push(FieldVal::PlainVal { v }),
                Slot::OptVal { v } => vals.push(FieldVal::OptVal { v }),
            }
            i = i + 1;
        }
        Ok(vals)
    }
}

/// Every op names a field position.
pub open spec fn ops_in_range(ops: Seq<(int, u64)>, n: int) -> bool {
    forall|j: int| 0 <= j < ops.len() ==> 0 <= (#[trigger] ops[j]).0 < n
}

/// Some op sets field `i`.
pub open spec fn op_for_exists(ops: Seq<(int, u64)>, i: int) -> bool {
    exists|j: int| 0 <= j < ops.len() && (#[trigger] ops[j]).0 == i
}

/// The position of the last op that sets field `i`.
pub open spec fn last_op_for(ops: Seq<(int, u64)>, i: int) -> Option<int>
    decreases ops.len(),
{
    if ops.len() == 0 {
        None
    } else if ops.last().0 == i {
        Some(ops.len() - 1)
    } else {
        last_op_for(ops.drop_last(), i)
    }
}

/// There is a last op for `i` exactly when there is any op for `i`, and it
/// is an op for `i`.
pub proof fn lemma_last_op_exists(ops: Seq<(int, u64)>, i: int)
    ensures
        (last_op_for(ops, i) is Some) == op_for_exists(ops, i),
        match last_op_for(ops, i) {
            Some(j) => 0 <= j < ops.len() && ops[j].0 == i,
            None => true,
        },
    decreases ops.len(),
{
    if ops.len() > 0 {
        lemma_last_op_exists(ops.drop_last(), i);
        if ops.last().0 == i {
            assert(ops[ops.len() - 1].0 == i);
            assert(op_for_exists(ops, i));
        } else {
            if op_for_exists(ops, i) {
                let j = choose|j: int| 0 <= j < ops.len() && (#[trigger] ops[j]).0 == i;
                assert(j < ops.len() - 1);
                assert(ops.drop_last()[j] == ops[j]);
                assert(op_for_exists(ops.drop_last(), i));
            }
            if op_for_exists(ops.drop_last(), i) {
                let j = choose|j: int|
                    0 <= j < ops.drop_last().len() && (#[trigger] ops.drop_last()[j]).0 == i;
                assert(ops.drop_last()[j] == ops[j]);
                assert(op_for_exists(ops, i));
            }
        }
    }
}

/// Applying setter ops keeps the slot count.
pub proof fn lemma_apply_sets_len(
    fields: Seq<BuilderFieldPlan>,
    slots: Seq<Slot>,
    ops: Seq<(int, u64)>,
)
    requires
        ops_in_range(ops, slots.len() as int),
    ensures
        apply_sets(fields, slots, ops).len() == slots.len(),
    decreases ops.len(),
{
    if ops.len() > 0 {
        assert forall|j: int| 0 <= j < ops.drop_last().len() implies 0 <= (#[trigger] ops.drop_last()[j]).0
            < slots.len() by {
            assert(ops.drop_last()[j] == ops[j]);
        }
        lemma_apply_sets_len(fields, slots, ops.drop_last());
        assert(0 <= ops.last().0 < slots.len());
    }
}

/// Last write wins: after a sequence of setter calls, slot `i` holds what
/// the last op for `i` stored, or its initial state if no op set it.
pub proof fn lemma_apply_sets_at(
    fields: Seq<BuilderFieldPlan>,
    slots: Seq<Slot>,
    ops: Seq<(int, u64)>,
    i: int,
)
    requires
        slots.len() == fields.len(),
        0 <= i < fields.len(),
        ops_in_range(ops, fields.len() as int),
    ensures
        apply_sets(fields, slots, ops)[i] == match last_op_for(ops, i) {
            Some(j) => stored_slot(fields[i].kind, ops[j].1),
            None => slots[i],
        },
    decreases ops.len(),
{
    lemma_apply_sets_len(fields, slots, ops);
    if ops.len() > 0 {
        assert forall|j: int| 0 <= j < ops.drop_last().len() implies 0 <= (#[trigger] ops.drop_last()[j]).0
            < fields.len() by {
            assert(ops.drop_last()[j] == ops[j]);
        }
        lemma_apply_sets_len(fields, slots, ops.drop_last());
        lemma_apply_sets_at(fields, slots, ops.drop_last(), i);
        if ops.last().0 != i {
            match last_op_for(ops, i) {
                Some(j) => {
                    lemma_last_op_exists(ops.drop_last(), i);
                    assert(ops.drop_last()[j] == ops[j]);
                },
                None => {},
            }
        }
    }
}

/// No slot at or after `i` is unset, so the vacancy scan from `i` is empty.
pub proof fn lemma_first_vacant_none(slots: Seq<Slot>, i: int)
    requires
        0 <= i,
        forall|j: int| i <= j < slots.len() ==> !((#[trigger] slots[j]) is Vacant),
    ensures
        first_vacant_from(slots, i) is None,
    decreases slots.len() - i,
{
    if i < slots.len() {
        lemma_first_vacant_none(slots, i + 1);
    }
}

/// Slot `k` is the first unset slot, so the vacancy scan finds it.
pub proof fn lemma_first_vacant_at(slots: Seq<Slot>, i: int, k: int)
    requires
        0 <= i <= k < slots.len(),
        slots[k] is Vacant,
        forall|j: int| i <= j < k ==> !((#[trigger] slots[j]) is Vacant),
    ensures
        first_vacant_from(slots, i) == Some(k),
    decreases slots.len() - i,
{
    if i < k {
        lemma_first_vacant_at(slots, i + 1, k);
    }
}

/// Ops that set each field exactly once, in any order.
pub open spec fn ops_cover_once(ops: Seq<(int, u64)>, n: int) -> bool {
    &&& ops_in_range(ops, n)
    &&& forall|i: int| 0 <= i < n ==> op_for_exists(ops, i)
    &&& forall|j: int, k: int|
        0 <= j < ops.len() && 0 <= k < ops.len() && (#[trigger] ops[j]).0 == (#[trigger] ops[k]).0
            ==> j == k
}

/// Calling every setter once, in any order, then finalizing, yields the
/// value constructed directly from the same field values: the finalizer
/// succeeds, and each field holds what its one setter stored.
pub proof fn lemma_every_setter_then_build(fields: Seq<BuilderFieldPlan>, ops: Seq<(int, u64)>)
    requires
        ops_cover_once(ops, fields.len() as int),
    ensures
        first_vacant_from(apply_sets(fields, fresh_slots(fields), ops), 0) is None,
        forall|j: int|
            0 <= j < ops.len() ==> taken_value(
                apply_sets(fields, fresh_slots(fields), ops)[(#[trigger] ops[j]).0],
            ) == direct_value(fields[ops[j].0].kind, ops[j].1),
{
    let start = fresh_slots(fields);
    let outcome = apply_sets(fields, start, ops);
    lemma_apply_sets_len(fields, start, ops);
    assert forall|i: int| 0 <= i < outcome.len() implies !((#[trigger] outcome[i]) is Vacant) by {
        lemma_apply_sets_at(fields, start, ops, i);
        lemma_last_op_exists(ops, i);
    }
    lemma_first_vacant_none(outcome, 0);
    assert forall|j: int| 0 <= j < ops.len() implies taken_value(
        outcome[(#[trigger] ops[j]).0],
    ) == direct_value(fields[ops[j].0].kind, ops[j].1) by {
        let i = ops[j].0;
        lemma_apply_sets_at(fields, start, ops, i);
        lemma_last_op_exists(ops, i);
        // The last op for `i` is an op whose position carries `i`; setting
        // each field once makes that op the one at `j`.
        let l = last_op_for(ops, i)->Some_0;
        assert(ops[l].0 == ops[j].0);
        assert(l == j);
    }
}

/// Omitting the setters of `Option`-shaped fields is allowed: as long as
/// every plain field is set, the finalizer succeeds, and every
/// `Option`-shaped field that no setter touched finalizes to the empty
/// state, not an error.
pub proof fn lemma_optional_unset_defaults(fields: Seq<BuilderFieldPlan>, ops: Seq<(int, u64)>)
    requires
        ops_in_range(ops, fields.len() as int),
        forall|i: int|
            0 <= i < fields.len() && (#[trigger] fields[i]).kind is Plain ==> op_for_exists(
                ops,
                i,
            ),
    ensures
        first_vacant_from(apply_sets(fields, fresh_slots(fields), ops), 0) is None,
        forall|i: int|
            0 <= i < fields.len() && (#[trigger] fields[i]).kind is Optional && !op_for_exists(
                ops,
                i,
            ) ==> taken_value(apply_sets(fields, fresh_slots(fields), ops)[i]) == (
            FieldVal::OptVal { v: None }),
{
    let start = fresh_slots(fields);
    let outcome = apply_sets(fields, start, ops);
    lemma_apply_sets_len(fields, start, ops);
    assert forall|i: int| 0 <= i < outcome.len() implies !((#[trigger] outcome[i]) is Vacant) by {
        lemma_apply_sets_at(fields, start, ops, i);
        lemma_last_op_exists(ops, i);
    }
    lemma_first_vacant_none(outcome, 0);
    assert forall|i: int|
        0 <= i < fields.len() && (#[trigger] fields[i]).kind is Optional && !op_for_exists(
            ops,
            i,
        ) implies taken_value(outcome[i]) == (FieldVal::OptVal { v: None }) by {
        lemma_apply_sets_at(fields, start, ops, i);
        lemma_last_op_exists(ops, i);
    }
}

/// Omitting the setter of a plain field makes the finalizer fail, naming
/// that exact field: if field `i` is plain and never set while every other
/// plain field is set, the first unset slot the finalizer hits is `i`.
pub proof fn lemma_missing_plain_field_fails(
    fields: Seq<BuilderFieldPlan>,
    ops: Seq<(int, u64)>,
    i: int,
)
    requires
        ops_in_range(ops, fields.len() as int),
        0 <= i < fields.len(),
        fields[i].kind is Plain,
        !op_for_exists(ops, i),
        forall|k: int|
            0 <= k < fields.len() && (#[trigger] fields[k]).kind is Plain && k != i
                ==> op_for_exists(ops, k),
    ensures
        first_vacant_from(apply_sets(fields, fresh_slots(fields), ops), 0) == Some(i),
{
    let start = fresh_slots(fields);
    let outcome = apply_sets(fields, start, ops);
    lemma_apply_sets_len(fields, start, ops);
    lemma_apply_sets_at(fields, start, ops, i);
    lemma_last_op_exists(ops, i);
    assert(outcome[i] is Vacant);
    assert forall|j: int| 0 <= j < i implies !((#[trigger] outcome[j]) is Vacant) by {
        lemma_apply_sets_at(fields, start, ops, j);
        lemma_last_op_exists(ops, j);
    }
    lemma_first_vacant_at(outcome, 0, i);
}

} // verus!
