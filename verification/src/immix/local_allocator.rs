//! The allocator of the heap that belongs to one process.

use crate::immix::bucket::{blocks_for, Bucket};
use crate::object::{Object, ObjectView};
use crate::object_pointer::{Generation, ObjectPointer, MAX_OBJECTS};
use crate::object_value::{ObjectValue, ObjectValueView};
use vstd::prelude::*;

verus! {

/// The number of blocks of the young generation at which a collection of
/// it falls due.
pub const YOUNG_BLOCK_THRESHOLD: usize = 32;

/// The number of blocks of the mature generation at which a collection of
/// it falls due.
pub const MATURE_BLOCK_THRESHOLD: usize = 128;

/// The young and the mature generation of one process.
#[derive(Debug)]
pub struct LocalAllocator {
    young: Bucket,
    mature: Bucket,
}

impl LocalAllocator {
    /// The objects of the young generation.
    pub closed spec fn young(&self) -> Seq<ObjectView> {
        self.young@
    }

    /// The objects of the mature generation.
    pub closed spec fn mature(&self) -> Seq<ObjectView> {
        self.mature@
    }

    /// The number of collections that the young generation has lived
    /// through.
    pub closed spec fn young_age(&self) -> usize {
        self.young.spec_age()
    }

    /// The number of collections that the mature generation has lived
    /// through.
    pub closed spec fn mature_age(&self) -> usize {
        self.mature.spec_age()
    }

    /// The object that `pointer` points to in this heap, where it points
    /// into it.
    pub open spec fn object_at(&self, pointer: ObjectPointer) -> Option<ObjectView> {
        if pointer.spec_is_young() && pointer.spec_index() < self.young().len() {
            Some(self.young()[pointer.spec_index()])
        } else if pointer.spec_is_mature() && pointer.spec_index() < self.mature().len() {
            Some(self.mature()[pointer.spec_index()])
        } else {
            None
        }
    }

    /// A heap without objects.
    pub fn new() -> (allocator: LocalAllocator)
        ensures
            allocator.young() == Seq::<ObjectView>::empty(),
            allocator.mature() == Seq::<ObjectView>::empty(),
            allocator.young_age() == 0,
            allocator.mature_age() == 0,
    {
        LocalAllocator { young: Bucket::new(), mature: Bucket::new() }
    }

    /// The number of objects in the young generation.
    pub fn young_len(&self) -> (count: usize)
        ensures
            count == self.young().len(),
    {
        self.young.len()
    }

    /// The number of objects in the mature generation.
    pub fn mature_len(&self) -> (count: usize)
        ensures
            count == self.mature().len(),
    {
        self.mature.len()
    }

    /// Whether the young generation can take one more object.
    pub fn has_room(&self) -> (answer: bool)
        ensures
            answer == (self.young().len() < MAX_OBJECTS),
    {
        self.young.has_room()
    }

    /// Puts `object` in the young generation and returns the pointer to it.
    pub fn allocate(&mut self, object: Object) -> (pointer: ObjectPointer)
        requires
            old(self).young().len() < MAX_OBJECTS,
        ensures
            pointer.spec_is_young(),
            pointer.spec_index() == old(self).young().len(),
            final(self).young() == old(self).young().push(object@),
            final(self).mature() == old(self).mature(),
            final(self).young_age() == old(self).young_age(),
            final(self).mature_age() == old(self).mature_age(),
    {
        let index = self.young.allocate(object);
        ObjectPointer::tagged(Generation::Young, index)
    }

    /// Allocates an object without prototype, attributes and payload.
    pub fn allocate_empty(&mut self) -> (pointer: ObjectPointer)
        requires
            old(self).young().len() < MAX_OBJECTS,
        ensures
            pointer.spec_is_young(),
            pointer.spec_index() == old(self).young().len(),
            final(self).young() == old(self).young().push(
                ObjectView {
                    prototype: None,
                    attributes: Seq::empty(),
                    value: ObjectValueView::Empty,
                },
            ),
            final(self).mature() == old(self).mature(),
            final(self).young_age() == old(self).young_age(),
            final(self).mature_age() == old(self).mature_age(),
    {
        self.allocate(Object::new(ObjectValue::Empty))
    }

    /// Allocates an object with the given payload and prototype.
    pub fn allocate_with_prototype(&mut self, value: ObjectValue, prototype: ObjectPointer) -> (pointer:
        ObjectPointer)
        requires
            old(self).young().len() < MAX_OBJECTS,
        ensures
            pointer.spec_is_young(),
            pointer.spec_index() == old(self).young().len(),
            final(self).young() == old(self).young().push(
                ObjectView { prototype: Some(prototype), attributes: Seq::empty(), value: value@ },
            ),
            final(self).mature() == old(self).mature(),
            final(self).young_age() == old(self).young_age(),
            final(self).mature_age() == old(self).mature_age(),
    {
        self.allocate(Object::with_prototype(value, prototype))
    }

    /// Allocates an object with the given payload and without a prototype.
    pub fn allocate_without_prototype(&mut self, value: ObjectValue) -> (pointer: ObjectPointer)
        requires
            old(self).young().len() < MAX_OBJECTS,
        ensures
            pointer.spec_is_young(),
            pointer.spec_index() == old(self).young().len(),
            final(self).young() == old(self).young().push(
                ObjectView { prototype: None, attributes: Seq::empty(), value: value@ },
            ),
            final(self).mature() == old(self).mature(),
            final(self).young_age() == old(self).young_age(),
            final(self).mature_age() == old(self).mature_age(),
    {
        self.allocate(Object::new(value))
    }

    /// The object that `pointer` points to, where it points into this heap.
    pub fn get(&self, pointer: ObjectPointer) -> (object: Option<&Object>)
        ensures
            match object {
                Some(object) => self.object_at(pointer) == Some(object@),
                None => self.object_at(pointer) is None,
            },
    {
        if pointer.is_young() {
            self.young.get(pointer.index())
        } else if pointer.is_mature() {
            self.mature.get(pointer.index())
        } else {
            None
        }
    }

    /// Whether the young generation has grown to the number of blocks at
    /// which it is to be collected.
    pub fn young_block_allocation_threshold_exceeded(&self) -> (answer: bool)
        ensures
            answer == (blocks_for(self.young().len()) >= YOUNG_BLOCK_THRESHOLD),
    {
        self.young.blocks() >= YOUNG_BLOCK_THRESHOLD
    }

    /// Whether the mature generation has grown to the number of blocks at
    /// which it is to be collected.
    pub fn mature_block_allocation_threshold_exceeded(&self) -> (answer: bool)
        ensures
            answer == (blocks_for(self.mature().len()) >= MATURE_BLOCK_THRESHOLD),
    {
        self.mature.blocks() >= MATURE_BLOCK_THRESHOLD
    }

    /// Makes the young generation one collection older.
    pub fn increment_young_ages(&mut self)
        ensures
            final(self).young() == old(self).young(),
            final(self).mature() == old(self).mature(),
            final(self).mature_age() == old(self).mature_age(),
            final(self).young_age() == if old(self).young_age() == usize::MAX {
                usize::MAX
            } else {
                (old(self).young_age() + 1) as usize
            },
    {
        self.young.increment_age();
    }

    /// The mature generation, for the collector to work on. The young
    /// generation is out of its reach.
    pub fn mature_generation_mut(&mut self) -> (bucket: &mut Bucket)
        ensures
            bucket@ == old(self).mature(),
            bucket.spec_age() == old(self).mature_age(),
            final(self).mature() == final(bucket)@,
            final(self).mature_age() == final(bucket).spec_age(),
            final(self).young() == old(self).young(),
            final(self).young_age() == old(self).young_age(),
    {
        &mut self.mature
    }
}

} // verus!
