//! Buckets: the objects of one generation.

use crate::object::{Object, ObjectView};
use crate::object_pointer::MAX_OBJECTS;
use vstd::prelude::*;

verus! {

/// The number of objects that fit in one block.
pub const OBJECTS_PER_BLOCK: usize = 1024;

/// The objects of one generation, in the order of their allocation. Objects
/// fill one block after the other.
#[derive(Debug)]
pub struct Bucket {
    objects: Vec<Object>,
    age: usize,
}

impl View for Bucket {
    type V = Seq<ObjectView>;

    closed spec fn view(&self) -> Seq<ObjectView> {
        Seq::new(self.objects@.len(), |i: int| self.objects@[i]@)
    }
}

/// The number of blocks that `objects` objects take up.
pub open spec fn blocks_for(objects: nat) -> nat {
    (objects + OBJECTS_PER_BLOCK - 1) as nat / (OBJECTS_PER_BLOCK as nat)
}

impl Bucket {
    /// The number of collections that the objects of this bucket have
    /// lived through.
    pub closed spec fn spec_age(&self) -> usize {
        self.age
    }

    /// A bucket without objects, of age 0.
    pub fn new() -> (bucket: Bucket)
        ensures
            bucket@ == Seq::<ObjectView>::empty(),
            bucket.spec_age() == 0,
    {
        let bucket = Bucket { objects: Vec::new(), age: 0 };
        assert(bucket@ =~= Seq::empty());
        bucket
    }

    /// The number of objects in the bucket.
    pub fn len(&self) -> (count: usize)
        ensures
            count == self@.len(),
    {
        self.objects.len()
    }

    /// The number of collections that the objects of this bucket have
    /// lived through.
    pub fn age(&self) -> (age: usize)
        ensures
            age == self.spec_age(),
    {
        self.age
    }

    /// Makes the bucket one collection older. The age stops at the largest
    /// number.
    pub fn increment_age(&mut self)
        ensures
            final(self)@ == old(self)@,
            final(self).spec_age() == if old(self).spec_age() == usize::MAX {
                usize::MAX
            } else {
                (old(self).spec_age() + 1) as usize
            },
    {
        if self.age < usize::MAX {
            self.age = self.age + 1;
        }
        assert(self@ =~= old(self)@);
    }

    /// The number of blocks that the objects take up.
    pub fn blocks(&self) -> (count: usize)
        ensures
            count == blocks_for(self@.len()),
    {
        let objects = self.objects.len();
        if objects % OBJECTS_PER_BLOCK == 0 {
            objects / OBJECTS_PER_BLOCK
        } else {
            objects / OBJECTS_PER_BLOCK + 1
        }
    }

    /// Whether the bucket can take one more object.
    pub fn has_room(&self) -> (answer: bool)
        ensures
            answer == (self@.len() < MAX_OBJECTS),
    {
        self.objects.len() < MAX_OBJECTS
    }

    /// The object with the given number.
    pub fn get(&self, index: usize) -> (object: Option<&Object>)
        ensures
            match object {
                Some(object) => index < self@.len() && object@ == self@[index as int],
                None => index >= self@.len(),
            },
    {
        if index < self.objects.len() {
            Some(&self.objects[index])
        } else {
            None
        }
    }

    /// Puts `object` after the objects of the bucket and returns its
    /// number.
    pub fn allocate(&mut self, object: Object) -> (index: usize)
        ensures
            index == old(self)@.len(),
            final(self)@ == old(self)@.push(object@),
            final(self).spec_age() == old(self).spec_age(),
    {
        let index = self.objects.len();
        self.objects.push(object);
        assert(self@ =~= old(self)@.push(object@));
        index
    }

    /// Puts `object` in the place of the object with the given number.
    pub fn replace(&mut self, index: usize, object: Object)
        requires
            index < old(self)@.len(),
        ensures
            final(self)@ == old(self)@.update(index as int, object@),
            final(self).spec_age() == old(self).spec_age(),
    {
        self.objects[index] = object;
        assert(self@ =~= old(self)@.update(index as int, object@));
    }
}

} // verus!
