//! The allocator of the heap that holds the messages of one process.

use crate::immix::bucket::Bucket;
use crate::object::{Object, ObjectView};
use crate::object_pointer::{Generation, ObjectPointer, MAX_OBJECTS};
use vstd::prelude::*;

verus! {

/// The mailbox heap of one process.
#[derive(Debug)]
pub struct MailboxAllocator {
    bucket: Bucket,
}

impl View for MailboxAllocator {
    type V = Seq<ObjectView>;

    /// The objects of the mailbox heap.
    closed spec fn view(&self) -> Seq<ObjectView> {
        self.bucket@
    }
}

impl MailboxAllocator {
    /// The object that `pointer` points to in this heap, where it points
    /// into it.
    pub open spec fn object_at(&self, pointer: ObjectPointer) -> Option<ObjectView> {
        if pointer.spec_generation() == Generation::Mailbox && pointer.spec_index() < self@.len() {
            Some(self@[pointer.spec_index()])
        } else {
            None
        }
    }

    /// A heap without objects.
    pub fn new() -> (allocator: MailboxAllocator)
        ensures
            allocator@ == Seq::<ObjectView>::empty(),
    {
        MailboxAllocator { bucket: Bucket::new() }
    }

    /// The number of objects in the heap.
    pub fn len(&self) -> (count: usize)
        ensures
            count == self@.len(),
    {
        self.bucket.len()
    }

    /// Puts `object` in the heap and returns the pointer to it.
    pub fn allocate(&mut self, object: Object) -> (pointer: ObjectPointer)
        requires
            old(self)@.len() < MAX_OBJECTS,
        ensures
            pointer.spec_generation() == Generation::Mailbox,
            pointer.spec_index() == old(self)@.len(),
            final(self)@ == old(self)@.push(object@),
    {
        let index = self.bucket.allocate(object);
        ObjectPointer::tagged(Generation::Mailbox, index)
    }

    /// The object that `pointer` points to, where it points into this heap.
    pub fn get(&self, pointer: ObjectPointer) -> (object: Option<&Object>)
        ensures
            match object {
                Some(object) => self.object_at(pointer) == Some(object@),
                None => self.object_at(pointer) is None,
            },
    {
        if pointer.is_mailbox() {
            self.bucket.get(pointer.index())
        } else {
            None
        }
    }
}

} // verus!
