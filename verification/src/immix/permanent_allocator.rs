//! The allocator of the heap that is never collected.

use crate::immix::bucket::Bucket;
use crate::object::{Object, ObjectView};
use crate::object_pointer::{Generation, ObjectPointer, MAX_OBJECTS};
use crate::object_value::{ObjectValue, ObjectValueView};
use vstd::prelude::*;

verus! {

/// The permanent heap: objects are added to it and never taken away. Its
/// objects are numbered from 1, so that the null pointer points to none.
#[derive(Debug)]
pub struct PermanentAllocator {
    bucket: Bucket,
}

impl View for PermanentAllocator {
    type V = Seq<ObjectView>;

    /// The objects of the permanent heap.
    closed spec fn view(&self) -> Seq<ObjectView> {
        self.bucket@
    }
}

impl PermanentAllocator {
    /// The object that `pointer` points to in this heap, where it points
    /// into it.
    pub open spec fn object_at(&self, pointer: ObjectPointer) -> Option<ObjectView> {
        if pointer.spec_generation() == Generation::Permanent && 1 <= pointer.spec_index()
            <= self@.len() {
            Some(self@[pointer.spec_index() - 1])
        } else {
            None
        }
    }

    /// A heap without objects.
    pub fn new() -> (allocator: PermanentAllocator)
        ensures
            allocator@ == Seq::<ObjectView>::empty(),
    {
        PermanentAllocator { bucket: Bucket::new() }
    }

    /// Whether the heap can take one more object.
    pub fn has_room(&self) -> (answer: bool)
        ensures
            answer == (self@.len() < MAX_OBJECTS),
    {
        self.bucket.has_room()
    }

    /// Puts `object` in the heap and returns the pointer to it.
    pub fn allocate(&mut self, object: Object) -> (pointer: ObjectPointer)
        requires
            old(self)@.len() < MAX_OBJECTS,
        ensures
            pointer.spec_generation() == Generation::Permanent,
            pointer.spec_index() == old(self)@.len() + 1,
            final(self)@ == old(self)@.push(object@),
    {
        let index = self.bucket.allocate(object);
        ObjectPointer::tagged(Generation::Permanent, index + 1)
    }

    /// Allocates an object without prototype, attributes and payload.
    pub fn allocate_empty(&mut self) -> (pointer: ObjectPointer)
        requires
            old(self)@.len() < MAX_OBJECTS,
        ensures
            pointer.spec_generation() == Generation::Permanent,
            pointer.spec_index() == old(self)@.len() + 1,
            final(self)@ == old(self)@.push(
                ObjectView {
                    prototype: None,
                    attributes: Seq::empty(),
                    value: ObjectValueView::Empty,
                },
            ),
    {
        self.allocate(Object::new(ObjectValue::Empty))
    }

    /// The object that `pointer` points to, where it points into this heap.
    pub fn get(&self, pointer: ObjectPointer) -> (object: Option<&Object>)
        ensures
            match object {
                Some(object) => self.object_at(pointer) == Some(object@),
                None => self.object_at(pointer) is None,
            },
    {
        if pointer.is_permanent() && pointer.index() >= 1 {
            self.bucket.get(pointer.index() - 1)
        } else {
            None
        }
    }
}

} // verus!
