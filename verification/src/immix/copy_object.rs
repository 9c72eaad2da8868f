//! Copying an object, with all that it points to, from the heap of one
//! process into the mailbox heap of another.
//!
//! The copy follows every pointer into the source heap. It keeps a record
//! of the objects it has met, by their place in the source heap, so that an
//! object that is reached twice, or that reaches itself, is copied once.
//! Pointers that do not point into the source heap are kept as they are.

use crate::immix::local_allocator::LocalAllocator;
use crate::immix::mailbox_allocator::MailboxAllocator;
use crate::object::{lemma_with_pointers, ObjectView};
use crate::object_pointer::{Generation, ObjectPointer, MAX_OBJECTS};
use vstd::prelude::*;

verus! {

/// Whether `to` is a copy in the mailbox heap `target` of what `from`
/// points to in the heap `source`, as far as `depth` steps along the
/// pointers of the objects can tell. A pointer that does not point into
/// `source` is its own copy. Otherwise the copy is an object of `target`
/// that is the same as the object copied but for its pointers, which are copies
/// of the pointers of that object, one for one.
pub open spec fn is_copy(
    source: LocalAllocator,
    target: Seq<ObjectView>,
    from: ObjectPointer,
    to: ObjectPointer,
    depth: nat,
) -> bool
    decreases depth,
{
    match source.object_at(from) {
        None => to == from,
        Some(sent) => {
            &&& to.spec_generation() == Generation::Mailbox
            &&& to.spec_index() < target.len()
            &&& depth > 0 ==> {
                let copy = target[to.spec_index()];
                &&& sent.same_but_pointers(copy)
                &&& copy.pointers().len() == sent.pointers().len()
                &&& forall|i: int|
                    0 <= i < sent.pointers().len() ==> is_copy(
                        source,
                        target,
                        #[trigger] sent.pointers()[i],
                        copy.pointers()[i],
                        (depth - 1) as nat,
                    )
            }
        },
    }
}

/// The pointer to object `index` of a mailbox heap.
pub open spec fn mailbox_pointer(index: usize) -> ObjectPointer {
    ObjectPointer { raw: (index * 4 + 3) as usize }
}

/// The number of places that the record has nothing for.
spec fn unvisited(record: Seq<Option<usize>>) -> nat
    decreases record.len(),
{
    if record.len() == 0 {
        0
    } else {
        unvisited(record.drop_last()) + if record.last() is None {
            1nat
        } else {
            0nat
        }
    }
}

proof fn lemma_unvisited_update(record: Seq<Option<usize>>, index: int, value: usize)
    requires
        0 <= index < record.len(),
        record[index] is None,
    ensures
        unvisited(record.update(index, Some(value))) + 1 == unvisited(record),
    decreases record.len(),
{
    let updated = record.update(index, Some(value));
    if index < record.len() - 1 {
        assert(updated.drop_last() =~= record.drop_last().update(index, Some(value)));
        lemma_unvisited_update(record.drop_last(), index, value);
    } else {
        assert(updated.drop_last() =~= record.drop_last());
    }
}

proof fn lemma_unvisited_all(length: nat)
    ensures
        unvisited(Seq::new(length, |i: int| None::<usize>)) == length,
    decreases length,
{
    if length > 0 {
        assert(Seq::new(length, |i: int| None::<usize>).drop_last() =~= Seq::new(
            (length - 1) as nat,
            |i: int| None::<usize>,
        ));
        lemma_unvisited_all((length - 1) as nat);
    }
}

/// The place in the target heap that the records hold for `pointer`.
spec fn lookup(young: Seq<Option<usize>>, mature: Seq<Option<usize>>, pointer: ObjectPointer) -> Option<
    usize,
> {
    if pointer.spec_is_young() && pointer.spec_index() < young.len() {
        young[pointer.spec_index()]
    } else if pointer.spec_is_mature() && pointer.spec_index() < mature.len() {
        mature[pointer.spec_index()]
    } else {
        None
    }
}

/// The pointer that takes the place of `pointer` in a copy.
spec fn moved_pointer(young: Seq<Option<usize>>, mature: Seq<Option<usize>>, pointer: ObjectPointer) -> ObjectPointer {
    match lookup(young, mature, pointer) {
        Some(index) => mailbox_pointer(index),
        None => pointer,
    }
}

/// Whether the records and the list of the objects met agree: the object
/// met as number `k` has the place `base + k`, and nothing else has a place.
spec fn consistent(
    source: LocalAllocator,
    base: nat,
    young: Seq<Option<usize>>,
    mature: Seq<Option<usize>>,
    order: Seq<ObjectPointer>,
) -> bool {
    &&& young.len() == source.young().len()
    &&& mature.len() == source.mature().len()
    &&& base + source.young().len() + source.mature().len() <= MAX_OBJECTS
    &&& order.len() + unvisited(young) + unvisited(mature) == source.young().len()
        + source.mature().len()
    &&& forall|k: int|
        0 <= k < order.len() ==> source.object_at(#[trigger] order[k]) is Some && lookup(
            young,
            mature,
            order[k],
        ) == Some((base + k) as usize)
    &&& forall|pointer: ObjectPointer|
        (#[trigger] lookup(young, mature, pointer)) is Some ==> base <= lookup(
            young,
            mature,
            pointer,
        )->0 < base + order.len() && order[lookup(young, mature, pointer)->0 - base] == pointer
}

/// Whether every pointer into the source heap that the object met as
/// number `k` holds has a place.
spec fn followed(
    source: LocalAllocator,
    young: Seq<Option<usize>>,
    mature: Seq<Option<usize>>,
    order: Seq<ObjectPointer>,
    k: int,
) -> bool {
    forall|i: int|
        0 <= i < source.object_at(order[k])->0.pointers().len() ==> (source.object_at(
            #[trigger] source.object_at(order[k])->0.pointers()[i],
        ) is Some ==> lookup(young, mature, source.object_at(order[k])->0.pointers()[i]) is Some)
}

/// The copy of the object met as number `k`.
spec fn image(
    source: LocalAllocator,
    young: Seq<Option<usize>>,
    mature: Seq<Option<usize>>,
    order: Seq<ObjectPointer>,
    k: int,
) -> ObjectView {
    let sent = source.object_at(order[k])->0;
    sent.with_pointers(
        Seq::new(sent.pointers().len(), |i: int| moved_pointer(young, mature, sent.pointers()[i])),
    )
}

/// Once every object met has been followed and copied, each pointer is
/// moved_all to its copy.
proof fn lemma_moved_is_copy(
    source: LocalAllocator,
    target: Seq<ObjectView>,
    base: nat,
    young: Seq<Option<usize>>,
    mature: Seq<Option<usize>>,
    order: Seq<ObjectPointer>,
    pointer: ObjectPointer,
    depth: nat,
)
    requires
        consistent(source, base, young, mature, order),
        forall|k: int| 0 <= k < order.len() ==> followed(source, young, mature, order, k),
        target.len() == base + order.len(),
        forall|k: int|
            0 <= k < order.len() ==> #[trigger] target[base + k] == image(
                source,
                young,
                mature,
                order,
                k,
            ),
        source.object_at(pointer) is None || lookup(young, mature, pointer) is Some,
    ensures
        is_copy(source, target, pointer, moved_pointer(young, mature, pointer), depth),
    decreases depth,
{
    match lookup(young, mature, pointer) {
        None => {},
        Some(place) => {
            let k = place - base;
            assert(order[k] == pointer);
            assert(source.object_at(order[k]) is Some);
            let to = mailbox_pointer(place);
            assert(to.spec_generation() == Generation::Mailbox && to.spec_index() == place) by {
                assert(place <= MAX_OBJECTS);
            }
            if depth > 0 {
                let sent = source.object_at(pointer)->0;
                let moved_all = Seq::new(
                    sent.pointers().len(),
                    |i: int| moved_pointer(young, mature, sent.pointers()[i]),
                );
                let copy = target[to.spec_index()];
                assert(copy == target[base + k]);
                assert(copy == sent.with_pointers(moved_all));
                lemma_with_pointers(sent, moved_all);
                assert(followed(source, young, mature, order, k));
                assert forall|i: int| 0 <= i < sent.pointers().len() implies is_copy(
                    source,
                    target,
                    #[trigger] sent.pointers()[i],
                    copy.pointers()[i],
                    (depth - 1) as nat,
                ) by {
                    let child = sent.pointers()[i];
                    assert(copy.pointers()[i] == moved_pointer(young, mature, child));
                    lemma_moved_is_copy(
                        source,
                        target,
                        base,
                        young,
                        mature,
                        order,
                        child,
                        (depth - 1) as nat,
                    );
                }
            }
        },
    }
}

/// The place that the records hold for `pointer`.
fn place_of(young: &Vec<Option<usize>>, mature: &Vec<Option<usize>>, pointer: ObjectPointer) -> (place:
    Option<usize>)
    ensures
        place == lookup(young@, mature@, pointer),
{
    if pointer.is_young() && pointer.index() < young.len() {
        young[pointer.index()]
    } else if pointer.is_mature() && pointer.index() < mature.len() {
        mature[pointer.index()]
    } else {
        None
    }
}

/// Gives `pointer` the next place, unless it has one or does not point into
/// the source heap.
fn meet(
    source: &LocalAllocator,
    base: usize,
    young: &mut Vec<Option<usize>>,
    mature: &mut Vec<Option<usize>>,
    order: &mut Vec<ObjectPointer>,
    pointer: ObjectPointer,
)
    requires
        consistent(*source, base as nat, old(young)@, old(mature)@, old(order)@),
    ensures
        consistent(*source, base as nat, final(young)@, final(mature)@, final(order)@),
        source.object_at(pointer) is Some ==> lookup(final(young)@, final(mature)@, pointer)
            is Some,
        old(order)@.is_prefix_of(final(order)@),
        final(order)@.len() <= old(order)@.len() + 1,
        forall|other: ObjectPointer|
            (#[trigger] lookup(old(young)@, old(mature)@, other)) is Some ==> lookup(
                final(young)@,
                final(mature)@,
                other,
            ) == lookup(old(young)@, old(mature)@, other),
        2 * (unvisited(final(young)@) + unvisited(final(mature)@)) + final(order)@.len() <= 2 * (
        unvisited(old(young)@) + unvisited(old(mature)@)) + old(order)@.len(),
{
    if source.get(pointer).is_some() && place_of(young, mature, pointer).is_none() {
        let ghost young_before = young@;
        let ghost mature_before = mature@;
        let ghost order_before = order@;
        let place = base + order.len();
        let index = pointer.index();
        if pointer.is_young() {
            proof {
                lemma_unvisited_update(young@, index as int, place);
            }
            young[index] = Some(place);
        } else {
            proof {
                lemma_unvisited_update(mature@, index as int, place);
            }
            mature[index] = Some(place);
        }
        order.push(pointer);
        proof {
            assert forall|other: ObjectPointer| other != pointer implies #[trigger] lookup(
                young@,
                mature@,
                other,
            ) == lookup(young_before, mature_before, other) by {
                if other.spec_generation() == pointer.spec_generation() && other.spec_index()
                    == pointer.spec_index() {
                    crate::object_pointer::lemma_pointer_determined(other, pointer);
                }
            }
            assert forall|k: int| 0 <= k < order@.len() implies source.object_at(
                #[trigger] order@[k],
            ) is Some && lookup(young@, mature@, order@[k]) == Some((base + k) as usize) by {
                if k < order_before.len() {
                    assert(order@[k] == order_before[k]);
                    assert(lookup(young_before, mature_before, order_before[k]) is Some);
                }
            }
            assert forall|other: ObjectPointer|
                (#[trigger] lookup(young@, mature@, other)) is Some implies base <= lookup(
                young@,
                mature@,
                other,
            )->0 < base + order@.len() && order@[lookup(young@, mature@, other)->0 - base]
                == other by {
                if other != pointer {
                    assert(lookup(young_before, mature_before, other) is Some);
                    assert(order@[lookup(young@, mature@, other)->0 - base] == order_before[lookup(
                        young@,
                        mature@,
                        other,
                    )->0 - base]);
                }
            }
        }
    }
}

impl MailboxAllocator {
    /// Copies what `pointer` points to in `source`, with all that can be
    /// reached from it in `source`, into this heap, and returns the pointer
    /// to the copy. An object that is reached along several paths, or from
    /// itself, is copied once. A pointer that does not point into `source`
    /// is returned as it is, and nothing is copied.
    ///
    /// The objects that the heap held before stay where they are.
    pub fn copy_object(&mut self, source: &LocalAllocator, pointer: ObjectPointer) -> (copy:
        ObjectPointer)
        requires
            old(self)@.len() + source.young().len() + source.mature().len() <= MAX_OBJECTS,
        ensures
            forall|depth: nat| is_copy(*source, final(self)@, pointer, copy, depth),
            old(self)@.is_prefix_of(final(self)@),
            source.object_at(pointer) is None ==> final(self)@ == old(self)@,
            source.object_at(pointer) is Some ==> copy.spec_index() == old(self)@.len(),
    {
        if source.get(pointer).is_none() {
            return pointer;
        }
        let base = self.len();
        let mut young: Vec<Option<usize>> = Vec::new();
        while young.len() < source.young_len()
            invariant
                young@.len() <= source.young().len(),
                young@ == Seq::new(young@.len(), |i: int| None::<usize>),
            decreases source.young().len() - young@.len(),
        {
            young.push(None);
            assert(young@ =~= Seq::new(young@.len(), |i: int| None::<usize>));
        }
        let mut mature: Vec<Option<usize>> = Vec::new();
        while mature.len() < source.mature_len()
            invariant
                mature@.len() <= source.mature().len(),
                mature@ == Seq::new(mature@.len(), |i: int| None::<usize>),
            decreases source.mature().len() - mature@.len(),
        {
            mature.push(None);
            assert(mature@ =~= Seq::new(mature@.len(), |i: int| None::<usize>));
        }
        let mut order: Vec<ObjectPointer> = Vec::new();
        proof {
            lemma_unvisited_all(young@.len());
            lemma_unvisited_all(mature@.len());
        }
        meet(source, base, &mut young, &mut mature, &mut order, pointer);
        assert(order@.len() == 1 && order@[0] == pointer);
        let mut cursor: usize = 0;
        while cursor < order.len()
            invariant
                base == old(self)@.len(),
                self@ == old(self)@,
                cursor <= order@.len(),
                consistent(*source, base as nat, young@, mature@, order@),
                order@.len() > 0 && order@[0] == pointer,
                forall|k: int| 0 <= k < cursor ==> followed(*source, young@, mature@, order@, k),
            decreases 2 * (unvisited(young@) + unvisited(mature@)) + order@.len() - cursor,
        {
            let current = order[cursor];
            let children = match source.get(current) {
                Some(object) => object.pointers(),
                None => Vec::new(),
            };
            let ghost sent = source.object_at(current)->0;
            let mut index: usize = 0;
            let ghost measure = 2 * (unvisited(young@) + unvisited(mature@)) + order@.len();
            while index < children.len()
                invariant
                    index <= children@.len(),
                    cursor < order@.len(),
                    order@[cursor as int] == current,
                    source.object_at(current) == Some(sent),
                    children@ == sent.pointers(),
                    consistent(*source, base as nat, young@, mature@, order@),
                    order@[0] == pointer,
                    forall|k: int| 0 <= k < cursor ==> followed(*source, young@, mature@, order@, k),
                    forall|i: int|
                        0 <= i < index ==> (source.object_at(#[trigger] children@[i]) is Some
                            ==> lookup(young@, mature@, children@[i]) is Some),
                    2 * (unvisited(young@) + unvisited(mature@)) + order@.len() <= measure,
                decreases children.len() - index,
            {
                let ghost order_before = order@;
                let ghost young_before = young@;
                let ghost mature_before = mature@;
                meet(source, base, &mut young, &mut mature, &mut order, children[index]);
                proof {
                    assert(order@[cursor as int] == order_before[cursor as int]);
                    assert(order@[0] == order_before[0]);
                    assert forall|k: int| 0 <= k < cursor implies followed(
                        *source,
                        young@,
                        mature@,
                        order@,
                        k,
                    ) by {
                        assert(order@[k] == order_before[k]);
                        assert(followed(*source, young_before, mature_before, order_before, k));
                    }
                }
                index = index + 1;
            }
            assert(followed(*source, young@, mature@, order@, cursor as int));
            cursor = cursor + 1;
        }
        let mut made: usize = 0;
        while made < order.len()
            invariant
                base == old(self)@.len(),
                made <= order@.len(),
                consistent(*source, base as nat, young@, mature@, order@),
                order@.len() > 0 && order@[0] == pointer,
                forall|k: int| 0 <= k < order@.len() ==> followed(*source, young@, mature@, order@, k),
                self@.len() == base + made,
                old(self)@.is_prefix_of(self@),
                forall|k: int|
                    0 <= k < made ==> #[trigger] self@[base + k] == image(
                        *source,
                        young@,
                        mature@,
                        order@,
                        k,
                    ),
            decreases order.len() - made,
        {
            let current = order[made];
            match source.get(current) {
                Some(object) => {
                    let children = object.pointers();
                    let mut moved_all: Vec<ObjectPointer> = Vec::new();
                    let mut index: usize = 0;
                    while index < children.len()
                        invariant
                            index <= children@.len(),
                            consistent(*source, base as nat, young@, mature@, order@),
                            moved_all@ == Seq::new(
                                index as nat,
                                |i: int| moved_pointer(young@, mature@, children@[i]),
                            ),
                        decreases children.len() - index,
                    {
                        let child = children[index];
                        let moved = match place_of(&young, &mature, child) {
                            Some(place) => ObjectPointer::tagged(Generation::Mailbox, place),
                            None => child,
                        };
                        moved_all.push(moved);
                        index = index + 1;
                        assert(moved_all@ =~= Seq::new(
                            index as nat,
                            |i: int| moved_pointer(young@, mature@, children@[i]),
                        ));
                    }
                    let copy = object.with_pointers(&moved_all);
                    let ghost before = self@;
                    self.allocate(copy);
                    proof {
                        assert(moved_all@ =~= Seq::new(
                            object@.pointers().len(),
                            |i: int| moved_pointer(young@, mature@, object@.pointers()[i]),
                        ));
                        assert forall|k: int| 0 <= k < made + 1 implies #[trigger] self@[base + k]
                            == image(*source, young@, mature@, order@, k) by {
                            if k < made {
                                assert(self@[base + k] == before[base + k]);
                            }
                        }
                    }
                },
                None => {
                    proof {
                        assert(source.object_at(order@[made as int]) is Some);
                    }
                },
            }
            made = made + 1;
        }
        let copy = ObjectPointer::tagged(Generation::Mailbox, base);
        proof {
            assert(order@[0] == pointer);
            assert(copy == moved_pointer(young@, mature@, pointer));
            assert forall|depth: nat| is_copy(*source, self@, pointer, copy, depth) by {
                lemma_moved_is_copy(
                    *source,
                    self@,
                    base as nat,
                    young@,
                    mature@,
                    order@,
                    pointer,
                    depth,
                );
            }
        }
        copy
    }
}

} // verus!
