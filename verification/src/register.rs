//! The register file of an execution context.

use crate::object_pointer::{ObjectPointer, ObjectPointerPointer};
use vstd::prelude::*;

verus! {

/// Numbered slots that hold the working values of one activation. A slot is
/// unset until it is written to.
#[derive(Debug)]
pub struct Register {
    values: Vec<Option<ObjectPointer>>,
}

impl View for Register {
    type V = Seq<Option<ObjectPointer>>;

    /// The slots, by number, up to the highest one that was ever written to.
    closed spec fn view(&self) -> Seq<Option<ObjectPointer>> {
        self.values@
    }
}

/// What is in slot `index` of `slots`, if anything.
pub open spec fn slot_at(slots: Seq<Option<ObjectPointer>>, index: int) -> Option<ObjectPointer> {
    if 0 <= index < slots.len() {
        slots[index]
    } else {
        None
    }
}

/// `slots` after a write of `value` to slot `index`: slots between the old
/// end and `index` come into being unset.
pub open spec fn slots_after_set(
    slots: Seq<Option<ObjectPointer>>,
    index: int,
    value: ObjectPointer,
) -> Seq<Option<ObjectPointer>>
    recommends
        0 <= index,
{
    if index < slots.len() {
        slots.update(index, Some(value))
    } else {
        (slots + Seq::new((index - slots.len()) as nat, |i: int| None::<ObjectPointer>)).push(
            Some(value),
        )
    }
}

/// Handles to the set slots among `slots`, in the order of their numbers,
/// for the context that is `context` steps above the current one.
pub open spec fn register_pointers(
    slots: Seq<Option<ObjectPointer>>,
    context: usize,
) -> Seq<ObjectPointerPointer>
    decreases slots.len(),
{
    if slots.len() == 0 {
        Seq::empty()
    } else {
        let before = register_pointers(slots.drop_last(), context);
        if slots.last() is Some {
            before.push(
                ObjectPointerPointer::Register { context, index: (slots.len() - 1) as usize },
            )
        } else {
            before
        }
    }
}

/// A handle is among the register pointers exactly where it names a set
/// slot of this context.
pub proof fn lemma_register_pointers_complete(
    slots: Seq<Option<ObjectPointer>>,
    context: usize,
    index: usize,
)
    requires
        slots.len() <= usize::MAX,
    ensures
        register_pointers(slots, context).contains(
            ObjectPointerPointer::Register { context, index },
        ) <==> slot_at(slots, index as int) is Some,
        forall|handle: ObjectPointerPointer| #[trigger]
            register_pointers(slots, context).contains(handle) ==> handle
                is Register && handle->Register_context == context,
    decreases slots.len(),
{
    let wanted = ObjectPointerPointer::Register { context, index };
    if slots.len() > 0 {
        let before = register_pointers(slots.drop_last(), context);
        lemma_register_pointers_complete(slots.drop_last(), context, index);
        let last = ObjectPointerPointer::Register { context, index: (slots.len() - 1) as usize };
        if slots.last() is Some {
            assert(before.push(last).last() == last);
            assert forall|handle: ObjectPointerPointer| #[trigger]
                before.push(last).contains(handle) implies handle is Register
                && handle->Register_context == context by {
                let i = choose|i: int| 0 <= i < before.push(last).len() && before.push(last)[i] == handle;
                if i < before.len() {
                    assert(before[i] == handle);
                    assert(before.contains(handle));
                }
            }
            if before.push(last).contains(wanted) {
                let i = choose|i: int| 0 <= i < before.push(last).len() && before.push(last)[i] == wanted;
                if i < before.len() {
                    assert(before[i] == wanted);
                    assert(before.contains(wanted));
                }
            }
            if before.contains(wanted) {
                let i = choose|i: int| 0 <= i < before.len() && before[i] == wanted;
                assert(before.push(last)[i] == wanted);
            }
            if index == slots.len() - 1 {
                assert(before.push(last)[before.len() as int] == wanted);
            }
        }
    }
}

/// Writing to a set slot leaves the handles as they are: they name the
/// slots, whatever the slots hold.
pub proof fn lemma_register_pointers_keep(
    slots: Seq<Option<ObjectPointer>>,
    context: usize,
    index: int,
    value: ObjectPointer,
)
    requires
        0 <= index < slots.len(),
        slots[index] is Some,
    ensures
        register_pointers(slots.update(index, Some(value)), context) == register_pointers(
            slots,
            context,
        ),
    decreases slots.len(),
{
    let written = slots.update(index, Some(value));
    if index < slots.len() - 1 {
        assert(written.drop_last() =~= slots.drop_last().update(index, Some(value)));
        lemma_register_pointers_keep(slots.drop_last(), context, index, value);
    } else {
        assert(written.drop_last() =~= slots.drop_last());
    }
}

impl Register {
    /// A register file has no more slots than a machine word can count.
    pub proof fn lemma_slots_bounded(&self)
        ensures
            self@.len() <= usize::MAX,
    {
        assert(self.values.len() <= usize::MAX);
    }

    /// A register file without any set slot.
    pub fn new() -> (register: Register)
        ensures
            register@ == Seq::<Option<ObjectPointer>>::empty(),
    {
        Register { values: Vec::new() }
    }

    /// The pointer in slot `index`, or nothing where the slot is unset.
    pub fn get(&self, index: usize) -> (value: Option<ObjectPointer>)
        ensures
            value == slot_at(self@, index as int),
    {
        if index < self.values.len() {
            self.values[index]
        } else {
            None
        }
    }

    /// Puts `value` in slot `index`, growing the register file where needed.
    pub fn set(&mut self, index: usize, value: ObjectPointer)
        ensures
            final(self)@ == slots_after_set(old(self)@, index as int, value),
    {
        if index < self.values.len() {
            self.values[index] = Some(value);
        } else {
            let ghost start = self.values@;
            while self.values.len() < index
                invariant
                    start == old(self)@,
                    start.len() <= self.values@.len() <= index,
                    self.values@ == start + Seq::new(
                        (self.values@.len() - start.len()) as nat,
                        |i: int| None::<ObjectPointer>,
                    ),
                decreases index - self.values.len(),
            {
                self.values.push(None);
                assert(self.values@ =~= start + Seq::new(
                    (self.values@.len() - start.len()) as nat,
                    |i: int| None::<ObjectPointer>,
                ));
            }
            self.values.push(Some(value));
        }
    }

    /// Appends to `pointers` a handle to each set slot, in the order of the
    /// slot numbers, for the context that is `context` steps above the
    /// current one.
    pub fn push_pointers(&self, context: usize, pointers: &mut Vec<ObjectPointerPointer>)
        ensures
            final(pointers)@ == old(pointers)@ + register_pointers(self@, context),
    {
        let mut index: usize = 0;
        assert(self.values@.take(0) =~= Seq::empty());
        assert(old(pointers)@ + Seq::<ObjectPointerPointer>::empty() =~= old(pointers)@);
        while index < self.values.len()
            invariant
                index <= self.values@.len(),
                pointers@ == old(pointers)@ + register_pointers(
                    self.values@.take(index as int),
                    context,
                ),
            decreases self.values.len() - index,
        {
            let ghost shorter = self.values@.take(index as int);
            let ghost longer = self.values@.take(index + 1);
            assert(longer.drop_last() =~= shorter);
            if self.values[index].is_some() {
                pointers.push(ObjectPointerPointer::Register { context, index });
                assert(pointers@ =~= old(pointers)@ + register_pointers(longer, context));
            }
            index = index + 1;
        }
        assert(self.values@.take(index as int) =~= self.values@);
    }
}

} // verus!
