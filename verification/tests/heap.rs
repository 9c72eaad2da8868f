use libaeon::binding::BindingTable;
use libaeon::byte_stream::ByteStream;
use libaeon::call_frame::CallFrame;
use libaeon::compiled_code::{CompiledCode, Float};
use libaeon::immix::bucket::{Bucket, OBJECTS_PER_BLOCK};
use libaeon::immix::local_allocator::LocalAllocator;
use libaeon::immix::mailbox_allocator::MailboxAllocator;
use libaeon::immix::permanent_allocator::PermanentAllocator;
use libaeon::instruction::{Instruction, InstructionType};
use libaeon::object::Object;
use libaeon::object_pointer::{
    Generation, ObjectPointer, ObjectPointerPointer, RcBinding, MAX_OBJECTS,
};
use libaeon::object_value;
use libaeon::object_value::ObjectValue;
use libaeon::queue::Queue;
use libaeon::register::Register;

#[test]
fn pointer_tags_name_the_generation() {
    let cases = [
        (Generation::Permanent, 0usize),
        (Generation::Young, 1),
        (Generation::Mature, 2),
        (Generation::Mailbox, 3),
    ];

    for (generation, tag) in cases {
        let pointer = ObjectPointer::tagged(generation, 5);

        assert_eq!(pointer.raw, 5 * 4 + tag);
        assert_eq!(pointer.generation(), generation);
        assert_eq!(pointer.index(), 5);
        assert_eq!(pointer.is_permanent(), generation == Generation::Permanent);
        assert_eq!(pointer.is_young(), generation == Generation::Young);
        assert_eq!(pointer.is_mature(), generation == Generation::Mature);
        assert_eq!(pointer.is_mailbox(), generation == Generation::Mailbox);
        assert_eq!(
            pointer.is_local(),
            generation == Generation::Young || generation == Generation::Mature
        );
        assert!(!pointer.is_null());
    }

    assert!(ObjectPointer::null().is_null());
    assert!(ObjectPointer::null().is_permanent());
    assert_eq!(ObjectPointer::new(0x4).raw, 0x4);
    assert_eq!(ObjectPointer::new(0x4), ObjectPointer::tagged(Generation::Permanent, 1));
    assert_eq!(ObjectPointer::tagged(Generation::Mailbox, MAX_OBJECTS).raw, usize::MAX);
    assert_eq!(ObjectPointer::new(usize::MAX).index(), MAX_OBJECTS);
}

#[test]
fn register_grows_with_unset_slots() {
    let mut register = Register::new();

    assert!(register.get(0).is_none());

    register.set(2, ObjectPointer::new(0x8));

    assert!(register.get(0).is_none());
    assert!(register.get(1).is_none());
    assert_eq!(register.get(2), Some(ObjectPointer::new(0x8)));
    assert!(register.get(3).is_none());

    register.set(0, ObjectPointer::new(0xc));
    register.set(2, ObjectPointer::new(0x10));

    assert_eq!(register.get(0), Some(ObjectPointer::new(0xc)));
    assert_eq!(register.get(2), Some(ObjectPointer::new(0x10)));

    let mut pointers = vec![ObjectPointerPointer::Register { context: 9, index: 9 }];

    register.push_pointers(4, &mut pointers);

    assert_eq!(
        pointers,
        vec![
            ObjectPointerPointer::Register { context: 9, index: 9 },
            ObjectPointerPointer::Register { context: 4, index: 0 },
            ObjectPointerPointer::Register { context: 4, index: 2 },
        ]
    );
}

#[test]
fn binding_pointers_cover_the_scopes_around_it() {
    let mut bindings = BindingTable::new();
    let outer = bindings.add(ObjectPointer::new(0x8));
    let middle = bindings.add_with_parent(ObjectPointer::new(0xc), outer);
    let inner = bindings.add_with_parent(ObjectPointer::new(0x10), middle);

    assert_eq!(bindings.len(), 3);
    assert!(bindings.contains(inner));
    assert!(!bindings.contains(RcBinding { index: 3 }));
    assert_eq!(bindings.parent(inner), Some(middle));
    assert_eq!(bindings.parent(middle), Some(outer));
    assert_eq!(bindings.parent(outer), None);
    assert_eq!(bindings.parent(RcBinding { index: 3 }), None);

    bindings.set_local(outer, 1, ObjectPointer::new(0x14));
    bindings.set_local(inner, 0, ObjectPointer::new(0x18));
    bindings.set_self_object(middle, ObjectPointer::new(0x1c));

    assert_eq!(bindings.self_object(middle).raw, 0x1c);
    assert!(bindings.local_exists(outer, 0));
    assert!(bindings.local_exists(outer, 1));
    assert!(!bindings.local_exists(outer, 2));
    assert!(!bindings.local_exists(middle, 0));
    assert!(!bindings.local_exists(RcBinding { index: 3 }, 0));
    assert!(bindings.get_local(RcBinding { index: 3 }, 0).is_err());

    let mut pointers = Vec::new();

    bindings.push_pointers(inner, &mut pointers);

    assert_eq!(
        pointers,
        vec![
            ObjectPointerPointer::Local { binding: inner, index: 0 },
            ObjectPointerPointer::SelfObject { binding: inner },
            ObjectPointerPointer::SelfObject { binding: middle },
            ObjectPointerPointer::Local { binding: outer, index: 0 },
            ObjectPointerPointer::Local { binding: outer, index: 1 },
            ObjectPointerPointer::SelfObject { binding: outer },
        ]
    );

    let mut none = Vec::new();

    bindings.push_pointers(RcBinding { index: 3 }, &mut none);

    assert!(none.is_empty());
}

#[test]
fn binding_with_a_parent_that_is_not_there_has_none() {
    let mut bindings = BindingTable::new();
    let lonely = bindings.add_with_parent(ObjectPointer::null(), RcBinding { index: 5 });
    let own = bindings.add_with_parent(ObjectPointer::null(), RcBinding { index: 1 });

    assert_eq!(bindings.parent(lonely), None);
    assert_eq!(bindings.parent(own), None);

    let mut pointers = Vec::new();

    bindings.push_pointers(own, &mut pointers);

    assert_eq!(pointers, vec![ObjectPointerPointer::SelfObject { binding: own }]);
}

#[test]
fn queue_hands_out_in_the_order_of_arrival() {
    let mut queue = Queue::new();

    assert_eq!(queue.pop_nonblock(), None);

    queue.push(1);
    queue.push(2);

    assert_eq!(queue.pop_nonblock(), Some(1));

    queue.push(3);

    assert_eq!(queue.len(), 2);
    assert_eq!(queue.pop_nonblock(), Some(2));
    assert_eq!(queue.pop_nonblock(), Some(3));
    assert_eq!(queue.pop_nonblock(), None);
    assert_eq!(queue.len(), 0);
}

#[test]
fn bucket_counts_blocks() {
    let mut bucket = Bucket::new();

    assert_eq!(bucket.blocks(), 0);
    assert_eq!(bucket.age(), 0);
    assert!(bucket.has_room());
    assert!(bucket.get(0).is_none());

    assert_eq!(bucket.allocate(Object::new(ObjectValue::Integer(1))), 0);
    assert_eq!(bucket.blocks(), 1);

    for _ in 1..OBJECTS_PER_BLOCK {
        bucket.allocate(Object::new(ObjectValue::Empty));
    }

    assert_eq!(bucket.len(), OBJECTS_PER_BLOCK);
    assert_eq!(bucket.blocks(), 1);
    assert_eq!(bucket.allocate(Object::new(ObjectValue::Integer(2))), OBJECTS_PER_BLOCK);
    assert_eq!(bucket.blocks(), 2);

    bucket.replace(0, Object::new(ObjectValue::Integer(5)));
    bucket.increment_age();

    assert_eq!(bucket.get(0).unwrap().value.as_integer(), Some(5));
    assert_eq!(bucket.get(OBJECTS_PER_BLOCK).unwrap().value.as_integer(), Some(2));
    assert!(bucket.get(OBJECTS_PER_BLOCK + 1).is_none());
    assert_eq!(bucket.age(), 1);
}

#[test]
fn allocators_hand_out_pointers_into_their_own_generation() {
    let mut local = LocalAllocator::new();
    let mut mailbox = MailboxAllocator::new();

    assert!(local.has_room());

    let first = local.allocate_empty();
    let second = local.allocate_with_prototype(object_value::float(Float::from_bits(9)), first);
    let third = local.allocate_without_prototype(object_value::none());
    let letter = mailbox.allocate(Object::new(object_value::array(vec![first])));

    assert_eq!(first, ObjectPointer::tagged(Generation::Young, 0));
    assert_eq!(second, ObjectPointer::tagged(Generation::Young, 1));
    assert_eq!(third, ObjectPointer::tagged(Generation::Young, 2));
    assert_eq!(letter, ObjectPointer::tagged(Generation::Mailbox, 0));
    assert_eq!(local.get(second).unwrap().prototype, Some(first));
    assert!(local.get(third).unwrap().value.is_none());
    assert!(local.get(first).unwrap().value.as_string().is_none());
    assert!(!local.get(first).unwrap().value.is_string());
    assert!(local.get(letter).is_none());
    assert!(mailbox.get(first).is_none());
    assert_eq!(mailbox.get(letter).unwrap().pointers(), vec![first]);
    assert!(!local.young_block_allocation_threshold_exceeded());
    assert!(!local.mature_block_allocation_threshold_exceeded());

    local.increment_young_ages();

    assert_eq!(local.young_len(), 3);
    assert_eq!(local.mature_generation_mut().age(), 0);
}

#[test]
fn copy_of_what_is_not_in_the_source_is_the_pointer_itself() {
    let mut source = LocalAllocator::new();
    let mut mailbox = MailboxAllocator::new();
    let only = source.allocate_empty();

    for pointer in [
        ObjectPointer::null(),
        ObjectPointer::tagged(Generation::Permanent, 0),
        ObjectPointer::tagged(Generation::Mailbox, 0),
        ObjectPointer::tagged(Generation::Mature, 0),
        ObjectPointer::tagged(Generation::Young, 1),
    ] {
        assert_eq!(mailbox.copy_object(&source, pointer), pointer);
    }

    assert_eq!(mailbox.len(), 0);
    assert_eq!(mailbox.copy_object(&source, only), ObjectPointer::tagged(Generation::Mailbox, 0));
    assert_eq!(mailbox.len(), 1);
}

#[test]
fn copy_reaches_the_mature_generation_too() {
    let mut source = LocalAllocator::new();
    let mut mailbox = MailboxAllocator::new();

    let old = ObjectPointer::tagged(Generation::Mature, 0);
    let young = source.allocate_with_prototype(object_value::integer(1), old);

    source.mature_generation_mut().allocate(Object::with_prototype(
        object_value::string("old".to_string()),
        young,
    ));

    let copy = mailbox.copy_object(&source, old);

    assert_eq!(mailbox.len(), 2);

    let old_copy = mailbox.get(copy).unwrap();
    let young_copy = mailbox.get(old_copy.prototype.unwrap()).unwrap();

    assert_eq!(old_copy.value.as_string().unwrap(), "old");
    assert_eq!(young_copy.value.as_integer(), Some(1));
    assert_eq!(young_copy.prototype, Some(copy));
}

#[test]
fn byte_stream_yields_its_bytes_in_order() {
    let mut stream = ByteStream::new(vec![1, 2, 3]);

    assert_eq!(stream.remaining(), 3);
    assert_eq!(stream.next(), Some(1));
    assert_eq!(stream.next(), Some(2));
    assert_eq!(stream.remaining(), 1);
    assert_eq!(stream.next(), Some(3));
    assert_eq!(stream.next(), None);
    assert_eq!(stream.remaining(), 0);
    assert_eq!(ByteStream::from_slice(&[]).next(), None);
}

#[test]
fn code_and_frames_are_built_from_their_parts() {
    let instruction = Instruction::new(InstructionType::new(3), vec![1, 2], 5, 6);

    assert!(!instruction.instruction_type.is_set_integer());

    let code = CompiledCode::new("f".to_string(), "f.aeon".to_string(), 8, vec![instruction]);

    assert_eq!(code.arguments, 0);
    assert_eq!(code.required_arguments, 0);
    assert!(!code.rest_argument);
    assert_eq!(code.instructions[0].arguments, vec![1, 2]);
    assert_eq!(code.instructions[0].line, 5);
    assert_eq!(code.instructions[0].column, 6);
    assert!(code.locals.is_empty() && code.code_objects.is_empty());

    let shared = CompiledCode::with_rc("g".to_string(), "g.aeon".to_string(), 9, Vec::new());
    let mut frame = CallFrame::new(shared.clone(), 11);

    assert_eq!(frame.line, 11);

    frame.set_parent(CallFrame::from_code(shared));

    assert_eq!(frame.parent.as_ref().unwrap().line, 9);
    assert!(frame.parent.as_ref().unwrap().parent.is_none());
    assert_eq!(Float::from_bits(7).to_bits(), 7);
}

#[test]
fn permanent_allocator_hands_out_permanent_pointers() {
    let mut permanent = PermanentAllocator::new();

    assert!(permanent.has_room());

    let first = permanent.allocate_empty();
    let second = permanent.allocate(Object::new(object_value::integer(4)));

    // The null pointer points to no object.
    assert!(!first.is_null());
    assert!(permanent.get(ObjectPointer::null()).is_none());
    assert_eq!(first, ObjectPointer::tagged(Generation::Permanent, 1));
    assert_eq!(second, ObjectPointer::tagged(Generation::Permanent, 2));
    assert!(second.is_permanent() && !second.is_local());
    assert!(permanent.get(first).unwrap().value.is_none());
    assert_eq!(permanent.get(second).unwrap().value.as_integer(), Some(4));
    assert!(permanent.get(ObjectPointer::tagged(Generation::Permanent, 3)).is_none());
    assert!(permanent.get(ObjectPointer::tagged(Generation::Young, 1)).is_none());
}
