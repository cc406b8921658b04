//! A dynamic model of the generated builder's runtime behaviour.
//!
//! The synthesizer emits source text; the behaviour that text promises is
//! modelled here so it can be stated and proved. A [`BuilderInstance`] holds,
//! for each field of a schema, an optional slot. It is created by the factory
//! with every slot absent, mutated only through setters (which overwrite
//! unconditionally: last write wins), and observed through [`build`], which
//! either duplicates every present value into a [`RecordValue`] or reports
//! the first missing field in declaration order. Build never consumes slot
//! contents, so the instance stays usable indefinitely.
//!
//! [`build`]: BuilderInstance::build

use crate::descriptor::StructDescriptor;
use vstd::prelude::*;

verus! {

/// A runtime field value: a piece of text, or a list of pieces of text.
#[derive(Debug, PartialEq, Eq)]
pub enum Value {
    Text(String),
    ListOfText(Vec<String>),
}

/// The mathematical content of a [`Value`]: what it holds, as character
/// sequences.
#[verifier::ext_equal]
pub enum ValueView {
    Text(Seq<char>),
    ListOfText(Seq<Seq<char>>),
}

impl View for Value {
    type V = ValueView;

    open spec fn view(&self) -> ValueView {
        match self {
            Value::Text(s) => ValueView::Text(s@),
            Value::ListOfText(items) => ValueView::ListOfText(items.deep_view()),
        }
    }
}

impl DeepView for Value {
    type V = ValueView;

    open spec fn deep_view(&self) -> ValueView {
        self.view()
    }
}

impl Clone for Value {
    /// Duplication, as `build` requires of every field type: the copy holds
    /// the same observable content as the original.
    fn clone(&self) -> (r: Self)
        ensures
            r@ == self@,
    {
        match self {
            Value::Text(s) => Value::Text(s.clone()),
            Value::ListOfText(items) => {
                let copied = items.clone();
                proof {
                    assert forall|i: int| 0 <= i < copied@.len() implies copied@[i]
                        == items@[i] by {
                        assert(cloned::<String>(items@[i], copied@[i]));
                    }
                    assert(copied.deep_view() =~= items.deep_view());
                }
                Value::ListOfText(copied)
            },
        }
    }
}

/// A fully assembled instance of the described type: one value per field, in
/// declaration order.
#[derive(Debug, PartialEq, Eq)]
pub struct RecordValue {
    pub values: Vec<Value>,
}

impl View for RecordValue {
    type V = Seq<ValueView>;

    open spec fn view(&self) -> Seq<ValueView> {
        self.values.deep_view()
    }
}

/// The build-time failure: a required field whose slot is absent. It names
/// the first such field in declaration order, and it is fully recoverable —
/// the caller may set the field and build again.
#[derive(Debug, PartialEq, Eq)]
pub enum BuildError {
    MissingField { field: String },
}

/// The runtime object the generated artifact realises: one optional slot per
/// field of its schema. The factory is the only exposed way to create one.
pub struct BuilderInstance {
    descriptor: StructDescriptor,
    slots: Vec<Option<Value>>,
}

impl BuilderInstance {
    /// The schema this builder was made for.
    pub closed spec fn descriptor_spec(&self) -> StructDescriptor {
        self.descriptor
    }

    /// The slots, in declaration order.
    pub closed spec fn slots_spec(&self) -> Seq<Option<Value>> {
        self.slots@
    }

    /// The number of fields (and slots).
    pub open spec fn n(&self) -> nat {
        self.descriptor_spec().n_fields()
    }

    /// One slot per field.
    pub open spec fn wf(&self) -> bool {
        self.slots_spec().len() == self.n()
    }

    /// The slot of field `i`.
    pub open spec fn slot(&self, i: int) -> Option<Value> {
        self.slots_spec()[i]
    }

    /// Every slot holds a value: the `Populated` state, in which `build`
    /// succeeds.
    pub open spec fn all_set(&self) -> bool {
        forall|i: int| 0 <= i < self.n() ==> (#[trigger] self.slot(i)) is Some
    }

    /// The first index at or after `i`, in declaration order, whose slot is
    /// absent; the field count when every slot from `i` on is present.
    pub open spec fn first_missing_from(&self, i: int) -> int
        decreases self.n() - i
        when 0 <= i <= self.n()
    {
        if i >= self.n() {
            i
        } else if self.slot(i) is None {
            i
        } else {
            self.first_missing_from(i + 1)
        }
    }

    /// The declaration-order index of the first absent slot.
    pub open spec fn first_missing(&self) -> int {
        self.first_missing_from(0)
    }

    /// The observable content of the slots of a fully populated builder, in
    /// declaration order.
    pub open spec fn built_views(&self) -> Seq<ValueView> {
        Seq::new(self.n(), |i: int| (self.slot(i)->0)@)
    }

    /// What `build` observes, as a function of the builder state alone: with
    /// every slot present, the duplicated contents in declaration order;
    /// otherwise the name of the first missing field.
    pub open spec fn build_result(&self) -> Result<Seq<ValueView>, Seq<char>> {
        if self.all_set() {
            Ok(self.built_views())
        } else {
            Err(self.descriptor_spec().fields@[self.first_missing()].name@)
        }
    }
}

impl StructDescriptor {
    /// The factory: a fresh builder for this schema, every slot absent. This
    /// is the only creation path for a builder instance exposed to callers.
    pub fn builder(self) -> (b: BuilderInstance)
        ensures
            b.wf(),
            b.descriptor_spec() == self,
            forall|i: int| 0 <= i < b.n() ==> (#[trigger] b.slot(i)) is None,
    {
        let n = self.fields.len();
        let mut slots: Vec<Option<Value>> = Vec::new();
        for i in 0..n
            invariant
                slots@.len() == i,
                forall|k: int| 0 <= k < i ==> (#[trigger] slots@[k]) is None,
        {
            slots.push(None);
        }
        BuilderInstance { descriptor: self, slots }
    }
}

/// The first absent slot is found where the scan from `j` finds it: all slots
/// before `i` (from `j` on) present and slot `i` absent place it at `i`.
proof fn lemma_first_missing_found(b: BuilderInstance, j: int, i: int)
    requires
        b.wf(),
        0 <= j <= i < b.n(),
        forall|k: int| j <= k < i ==> (#[trigger] b.slot(k)) is Some,
        b.slot(i) is None,
    ensures
        b.first_missing_from(j) == i,
    decreases i - j,
{
    if j < i {
        lemma_first_missing_found(b, j + 1, i);
    }
}

/// What the scan for the first absent slot guarantees: it stops at an absent
/// slot (or runs off the end), and every slot it passed over is present.
proof fn lemma_first_missing_props(b: BuilderInstance, j: int)
    requires
        b.wf(),
        0 <= j <= b.n(),
    ensures
        j <= b.first_missing_from(j) <= b.n(),
        b.first_missing_from(j) < b.n() ==> b.slot(b.first_missing_from(j)) is None,
        forall|k: int| j <= k < b.first_missing_from(j) ==> (#[trigger] b.slot(k)) is Some,
        b.first_missing_from(j) == b.n() ==> forall|k: int|
            j <= k < b.n() ==> (#[trigger] b.slot(k)) is Some,
    decreases b.n() - j,
{
    if j < b.n() && !(b.slot(j) is None) {
        lemma_first_missing_props(b, j + 1);
    }
}

impl BuilderInstance {
    /// A setter addressed by slot index: unconditionally overwrites the slot
    /// with the given value. Repeated calls are unrestricted; the last write
    /// wins.
    pub fn set(&mut self, index: usize, value: Value)
        requires
            old(self).wf(),
            index < old(self).n(),
        ensures
            final(self).wf(),
            final(self).descriptor_spec() == old(self).descriptor_spec(),
            final(self).slots_spec() == old(self).slots_spec().update(
                index as int,
                Some(value),
            ),
    {
        self.slots.set(index, Some(value));
    }

    /// A setter addressed by field name, as the generated setters address
    /// their slots: overwrites the slot of the first field carrying `name`,
    /// and reports whether such a field exists; with no such field the
    /// builder is left unchanged.
    pub fn set_by_name(&mut self, name: &String, value: Value) -> (found: bool)
        requires
            old(self).wf(),
        ensures
            final(self).wf(),
            final(self).descriptor_spec() == old(self).descriptor_spec(),
            found == old(self).descriptor_spec().has_field(name@),
            found ==> final(self).slots_spec() == old(self).slots_spec().update(
                old(self).descriptor_spec().field_index(name@),
                Some(value),
            ),
            !found ==> *final(self) == *old(self),
    {
        match self.descriptor.find_field(name) {
            Some(i) => {
                self.set(i, value);
                true
            },
            None => false,
        }
    }

    /// The validating build: reads the slots in declaration order, duplicates
    /// each present value, and either assembles the record or fails naming
    /// the first missing field — no later field is checked once one is found
    /// missing.
    ///
    /// Build is a pure observation: the builder is left exactly as it was
    /// (`*final(self) == *old(self)`) and the result is a function of the
    /// builder state alone (`build_result`), so building twice in succession
    /// yields equal results and the builder stays fully populated.
    pub fn build(&mut self) -> (r: Result<RecordValue, BuildError>)
        requires
            old(self).wf(),
        ensures
            *final(self) == *old(self),
            match r {
                Ok(inst) => old(self).build_result() == Ok::<Seq<ValueView>, Seq<char>>(inst@),
                Err(e) => {
                    &&& e matches BuildError::MissingField { field }
                    &&& old(self).build_result() == Err::<Seq<ValueView>, Seq<char>>(field@)
                    &&& field == old(self).descriptor_spec().fields@[old(
                        self,
                    ).first_missing()].name
                },
            },
    {
        let n = self.slots.len();
        let mut values: Vec<Value> = Vec::new();
        for i in 0..n
            invariant
                *self == *old(self),
                self.wf(),
                n == self.n(),
                values@.len() == i,
                forall|k: int| 0 <= k < i ==> (#[trigger] self.slot(k)) is Some,
                forall|k: int|
                    0 <= k < i ==> values.deep_view()[k] == (#[trigger] self.slot(k)->0)@,
        {
            if self.slots[i].is_some() {
                let ghost prev = values.deep_view();
                let v = self.slots[i].as_ref().unwrap().clone();
                proof {
                    assert(v@ == (self.slot(i as int)->0)@);
                }
                values.push(v);
                proof {
                    assert forall|k: int| 0 <= k < i + 1 implies values.deep_view()[k] == (
                    #[trigger] self.slot(k)->0)@ by {
                        if k < i {
                            assert(values.deep_view()[k] == prev[k]);
                        } else {
                            assert(values.deep_view()[k] == v@);
                        }
                    }
                }
            } else {
                proof {
                    lemma_first_missing_found(*self, 0, i as int);
                    assert(!self.all_set());
                }
                let field = self.descriptor.fields[i].name.clone();
                return Err(BuildError::MissingField { field });
            }
        }
        let inst = RecordValue { values };
        proof {
            assert(self.all_set());
            assert(inst@ =~= self.built_views());
        }
        Ok(inst)
    }
}

/// A factory-fresh builder has every slot absent, and building it fails
/// naming the first declared field.
pub proof fn lemma_fresh_builder_reports_first_field(b: BuilderInstance)
    requires
        b.wf(),
        b.n() >= 1,
        forall|i: int| 0 <= i < b.n() ==> (#[trigger] b.slot(i)) is None,
    ensures
        b.build_result() == Err::<Seq<ValueView>, Seq<char>>(
            b.descriptor_spec().fields@[0].name@,
        ),
{
    assert(b.slot(0) is None);
    assert(!b.all_set());
}

/// However the present slots came to be set, and in whatever order: building
/// with any slot still absent fails, and the field named is exactly the
/// first absent one in declaration order — every field before it is present.
pub proof fn lemma_build_reports_first_missing(b: BuilderInstance)
    requires
        b.wf(),
        !b.all_set(),
    ensures
        0 <= b.first_missing() < b.n(),
        b.slot(b.first_missing()) is None,
        forall|j: int| 0 <= j < b.first_missing() ==> (#[trigger] b.slot(j)) is Some,
        b.build_result() == Err::<Seq<ValueView>, Seq<char>>(
            b.descriptor_spec().fields@[b.first_missing()].name@,
        ),
{
    lemma_first_missing_props(b, 0);
    if b.first_missing() == b.n() {
        assert(forall|k: int| 0 <= k < b.n() ==> (#[trigger] b.slot(k)) is Some);
        assert(false);
    }
}

/// With every slot present — set in any order and any multiplicity — building
/// succeeds, and the value at field `i` is an observable duplicate of the
/// value last written into slot `i`.
pub proof fn lemma_full_builder_builds(b: BuilderInstance)
    requires
        b.wf(),
        b.all_set(),
    ensures
        b.build_result() is Ok,
        b.build_result()->Ok_0.len() == b.n(),
        forall|i: int| 0 <= i < b.n() ==> b.build_result()->Ok_0[i] == (#[trigger] b.slot(i)->0)@,
{
}

/// The slots a sequence of setter calls leaves behind, starting from `slots`:
/// each call `(index, value)` overwrites one slot, exactly as the `set`
/// contract states, in the order the calls were made.
pub open spec fn after_sets(slots: Seq<Option<Value>>, writes: Seq<(int, Value)>) -> Seq<
    Option<Value>,
>
    decreases writes.len(),
{
    if writes.len() == 0 {
        slots
    } else {
        after_sets(slots, writes.drop_last()).update(writes.last().0, Some(writes.last().1))
    }
}

/// The position in `writes` of the last call addressed to slot `i`; negative
/// when no call addressed it.
pub open spec fn last_write_to(writes: Seq<(int, Value)>, i: int) -> int
    decreases writes.len(),
{
    if writes.len() == 0 {
        -1
    } else if writes.last().0 == i {
        writes.len() - 1
    } else {
        last_write_to(writes.drop_last(), i)
    }
}

/// The position of the last write, when there is one, lies within the call
/// sequence.
proof fn lemma_last_write_to_in_range(writes: Seq<(int, Value)>, i: int)
    ensures
        -1 <= last_write_to(writes, i) < writes.len(),
    decreases writes.len(),
{
    if writes.len() > 0 && writes.last().0 != i {
        lemma_last_write_to_in_range(writes.drop_last(), i);
    }
}

/// Whatever the order and multiplicity of a sequence of setter calls, each
/// slot ends up holding the value of the last call addressed to it, and a
/// slot no call addressed keeps its prior content.
pub proof fn lemma_sets_leave_last_writes(
    slots: Seq<Option<Value>>,
    writes: Seq<(int, Value)>,
    i: int,
)
    requires
        0 <= i < slots.len(),
        forall|k: int| 0 <= k < writes.len() ==> 0 <= (#[trigger] writes[k]).0 < slots.len(),
    ensures
        after_sets(slots, writes).len() == slots.len(),
        last_write_to(writes, i) >= 0 ==> after_sets(slots, writes)[i] == Some(
            writes[last_write_to(writes, i)].1,
        ),
        last_write_to(writes, i) < 0 ==> after_sets(slots, writes)[i] == slots[i],
    decreases writes.len(),
{
    if writes.len() > 0 {
        assert forall|k: int| 0 <= k < writes.drop_last().len() implies 0 <= (#[trigger] writes.drop_last()[k]).0
            < slots.len() by {
            assert(writes.drop_last()[k] == writes[k]);
        }
        lemma_sets_leave_last_writes(slots, writes.drop_last(), i);
        if writes.last().0 != i {
            let lw = last_write_to(writes.drop_last(), i);
            lemma_last_write_to_in_range(writes.drop_last(), i);
            if lw >= 0 {
                assert(writes.drop_last()[lw] == writes[lw]);
            }
        }
    }
}

/// With every slot eventually written — the calls made in any order and any
/// multiplicity — the builder is fully populated, building succeeds, and
/// field `i` holds exactly (the observable content of) the value passed to
/// the last setter call addressed to slot `i`.
pub proof fn lemma_any_order_fills_and_builds(
    b: BuilderInstance,
    fresh: Seq<Option<Value>>,
    writes: Seq<(int, Value)>,
)
    requires
        b.wf(),
        fresh.len() == b.n(),
        forall|k: int| 0 <= k < writes.len() ==> 0 <= (#[trigger] writes[k]).0 < fresh.len(),
        b.slots_spec() == after_sets(fresh, writes),
        forall|i: int| 0 <= i < b.n() ==> last_write_to(writes, i) >= 0,
    ensures
        b.all_set(),
        b.build_result() is Ok,
        forall|i: int|
            0 <= i < b.n() ==> b.build_result()->Ok_0[i] == writes[last_write_to(writes, i)].1@,
{
    assert forall|i: int| 0 <= i < b.n() implies (#[trigger] b.slot(i)) is Some by {
        lemma_sets_leave_last_writes(fresh, writes, i);
    }
    lemma_full_builder_builds(b);
    assert forall|i: int| 0 <= i < b.n() implies b.build_result()->Ok_0[i] == writes[last_write_to(
        writes,
        i,
    )].1@ by {
        lemma_sets_leave_last_writes(fresh, writes, i);
    }
}

/// With some slot never written — whatever was written to the others, in
/// whatever order — building fails, naming the first field, in declaration
/// order, that no setter call addressed. Starting from a factory-fresh
/// builder, those are exactly the unset fields.
pub proof fn lemma_any_order_partial_fails(
    b: BuilderInstance,
    fresh: Seq<Option<Value>>,
    writes: Seq<(int, Value)>,
    m: int,
)
    requires
        b.wf(),
        fresh.len() == b.n(),
        forall|i: int| 0 <= i < fresh.len() ==> (#[trigger] fresh[i]) is None,
        forall|k: int| 0 <= k < writes.len() ==> 0 <= (#[trigger] writes[k]).0 < fresh.len(),
        b.slots_spec() == after_sets(fresh, writes),
        0 <= m < b.n(),
        last_write_to(writes, m) < 0,
        forall|i: int| 0 <= i < m ==> last_write_to(writes, i) >= 0,
    ensures
        !b.all_set(),
        b.first_missing() == m,
        b.build_result() == Err::<Seq<ValueView>, Seq<char>>(
            b.descriptor_spec().fields@[m].name@,
        ),
{
    assert forall|j: int| 0 <= j < m implies (#[trigger] b.slot(j)) is Some by {
        lemma_sets_leave_last_writes(fresh, writes, j);
    }
    lemma_sets_leave_last_writes(fresh, writes, m);
    assert(b.slot(m) is None);
    lemma_first_missing_found(b, 0, m);
}

/// Build is idempotent as an observation: `build` leaves the builder exactly
/// as it was (its ensures), so a fully populated builder observed twice in
/// succession, with no intervening setter calls, yields two equal, successful
/// results and remains fully populated.
pub proof fn lemma_build_idempotent(before: BuilderInstance, after: BuilderInstance)
    requires
        before.wf(),
        before.all_set(),
        after == before,
    ensures
        after.all_set(),
        before.build_result() is Ok,
        after.build_result() == before.build_result(),
{
}

/// Setters to different slots commute: the builder state a sequence of setter
/// calls reaches depends only on the last value written to each slot, never
/// on the order of the calls.
pub proof fn lemma_set_order_independent(
    slots: Seq<Option<Value>>,
    i: int,
    j: int,
    v: Value,
    w: Value,
)
    requires
        0 <= i < slots.len(),
        0 <= j < slots.len(),
        i != j,
    ensures
        slots.update(i, Some(v)).update(j, Some(w)) == slots.update(j, Some(w)).update(
            i,
            Some(v),
        ),
{
    assert(slots.update(i, Some(v)).update(j, Some(w)) =~= slots.update(j, Some(w)).update(
        i,
        Some(v),
    ));
}

/// Repeated setter calls to one slot overwrite it: only the last value
/// written remains.
pub proof fn lemma_set_last_write_wins(slots: Seq<Option<Value>>, i: int, v: Value, w: Value)
    requires
        0 <= i < slots.len(),
    ensures
        slots.update(i, Some(v)).update(i, Some(w)) == slots.update(i, Some(w)),
{
    assert(slots.update(i, Some(v)).update(i, Some(w)) =~= slots.update(i, Some(w)));
}

} // verus!
