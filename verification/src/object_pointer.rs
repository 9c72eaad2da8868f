//! Tagged pointers to heap objects, and handles to the slots that hold them.

use vstd::prelude::*;

verus! {

/// The word that an [`ObjectPointer`] wraps.
pub type RawObjectPointer = usize;

/// The part of the heap that a pointer points into.
#[derive(Debug, Clone, Copy, PartialEq, Eq, Structural)]
pub enum Generation {
    /// The heap that is never collected.
    Permanent,
    /// The young generation of a process.
    Young,
    /// The mature generation of a process.
    Mature,
    /// The heap that holds the messages sent to a process.
    Mailbox,
}

/// The number of objects that one generation can address.
pub const MAX_OBJECTS: usize = usize::MAX / 4;

/// A pointer to an object: an object number in the upper bits, and in the
/// lowest two bits a tag that tells which generation the object lives in.
/// Two pointers are equal where their words are equal.
#[derive(Debug, Clone, Copy, PartialEq, Eq, Structural)]
pub struct ObjectPointer {
    pub raw: RawObjectPointer,
}

/// The tag that marks the pointers into a generation.
pub open spec fn tag_of(generation: Generation) -> int {
    match generation {
        Generation::Permanent => 0,
        Generation::Young => 1,
        Generation::Mature => 2,
        Generation::Mailbox => 3,
    }
}

impl ObjectPointer {
    /// The generation that the tag of this pointer names.
    pub open spec fn spec_generation(self) -> Generation {
        if self.raw % 4 == 0 {
            Generation::Permanent
        } else if self.raw % 4 == 1 {
            Generation::Young
        } else if self.raw % 4 == 2 {
            Generation::Mature
        } else {
            Generation::Mailbox
        }
    }

    /// The number of the object within its generation.
    pub open spec fn spec_index(self) -> int {
        self.raw as int / 4
    }

    /// Whether the pointer points into the young generation.
    pub open spec fn spec_is_young(self) -> bool {
        self.spec_generation() == Generation::Young
    }

    /// Whether the pointer points into the mature generation.
    pub open spec fn spec_is_mature(self) -> bool {
        self.spec_generation() == Generation::Mature
    }

    /// Whether the pointer points into the young or the mature generation.
    pub open spec fn spec_is_local(self) -> bool {
        self.spec_is_young() || self.spec_is_mature()
    }

    /// The pointer that wraps the given word.
    pub fn new(raw: RawObjectPointer) -> (pointer: ObjectPointer)
        ensures
            pointer.raw == raw,
    {
        ObjectPointer { raw }
    }

    /// The pointer whose word is zero. It carries the tag of the permanent
    /// generation, so it is never copied and never remembered.
    pub fn null() -> (pointer: ObjectPointer)
        ensures
            pointer.raw == 0,
            pointer.spec_generation() == Generation::Permanent,
    {
        ObjectPointer { raw: 0 }
    }

    /// The pointer to object number `index` of `generation`.
    pub fn tagged(generation: Generation, index: usize) -> (pointer: ObjectPointer)
        requires
            index <= MAX_OBJECTS,
        ensures
            pointer.spec_generation() == generation,
            pointer.spec_index() == index,
            pointer.raw == index * 4 + tag_of(generation),
    {
        let tag: usize = match generation {
            Generation::Permanent => 0,
            Generation::Young => 1,
            Generation::Mature => 2,
            Generation::Mailbox => 3,
        };
        ObjectPointer { raw: index * 4 + tag }
    }

    /// Whether the word of the pointer is zero.
    pub fn is_null(&self) -> (answer: bool)
        ensures
            answer == (self.raw == 0),
    {
        self.raw == 0
    }

    /// The generation that the tag of this pointer names.
    pub fn generation(&self) -> (generation: Generation)
        ensures
            generation == self.spec_generation(),
    {
        let tag = self.raw % 4;
        if tag == 0 {
            Generation::Permanent
        } else if tag == 1 {
            Generation::Young
        } else if tag == 2 {
            Generation::Mature
        } else {
            Generation::Mailbox
        }
    }

    /// The number of the object within its generation.
    pub fn index(&self) -> (index: usize)
        ensures
            index == self.spec_index(),
            index <= MAX_OBJECTS,
    {
        self.raw / 4
    }

    /// Whether the pointer points into the permanent heap.
    pub fn is_permanent(&self) -> (answer: bool)
        ensures
            answer == (self.spec_generation() == Generation::Permanent),
    {
        self.raw % 4 == 0
    }

    /// Whether the pointer points into the young generation.
    pub fn is_young(&self) -> (answer: bool)
        ensures
            answer == self.spec_is_young(),
    {
        self.raw % 4 == 1
    }

    /// Whether the pointer points into the mature generation.
    pub fn is_mature(&self) -> (answer: bool)
        ensures
            answer == self.spec_is_mature(),
    {
        self.raw % 4 == 2
    }

    /// Whether the pointer points into a mailbox heap.
    pub fn is_mailbox(&self) -> (answer: bool)
        ensures
            answer == (self.spec_generation() == Generation::Mailbox),
    {
        self.raw % 4 == 3
    }

    /// Whether the object lives in the young or the mature generation of a
    /// process.
    pub fn is_local(&self) -> (answer: bool)
        ensures
            answer == self.spec_is_local(),
    {
        let tag = self.raw % 4;
        tag == 1 || tag == 2
    }
}

/// A pointer is told apart by its generation and its number in it.
pub proof fn lemma_pointer_determined(a: ObjectPointer, b: ObjectPointer)
    requires
        a.spec_generation() == b.spec_generation(),
        a.spec_index() == b.spec_index(),
    ensures
        a == b,
{
}

/// A handle to a binding in the table of bindings of a process.
#[derive(Debug, Clone, Copy, PartialEq, Eq, Structural)]
pub struct RcBinding {
    pub index: usize,
}

/// A handle to a slot that holds a pointer. It names the slot, not the
/// pointer in it, so that whoever moves the object can rewrite the slot.
#[derive(Debug, Clone, Copy, PartialEq, Eq, Structural)]
pub enum ObjectPointerPointer {
    /// The `self` slot of a binding.
    SelfObject { binding: RcBinding },
    /// A local variable of a binding.
    Local { binding: RcBinding, index: usize },
    /// A register of the execution context that is `context` steps above
    /// the current one.
    Register { context: usize, index: usize },
}

} // verus!
