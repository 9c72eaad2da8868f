use libaeon::compiled_code::{CompiledCode, RcCompiledCode};
use libaeon::execution_context::ExecutionContext;
use libaeon::immix::local_allocator::LocalAllocator;
use libaeon::object::{Attribute, Object};
use libaeon::object_pointer::{Generation, ObjectPointer, ObjectPointerPointer, RcBinding};
use libaeon::object_value;
use libaeon::object_value::ObjectValue;
use libaeon::process::{GcState, Process, ProcessStatus};

fn new_code() -> RcCompiledCode {
    CompiledCode::with_rc("a".to_string(), "a".to_string(), 1, Vec::new())
}

fn new_process() -> Process {
    let code = new_code();
    let self_obj = ObjectPointer::null();

    Process::from_code(1, code, self_obj)
}

#[test]
fn test_roots() {
    let mut process = new_process();
    let pointer = process.allocate_empty();

    process.set_local(0, pointer);
    process.set_register(0, pointer);

    assert_eq!(process.roots().len(), 3);
}

#[test]
fn test_roots_doesnt_copy_pointers() {
    let mut process = new_process();
    let pointer = process.allocate_empty();

    process.set_local(0, pointer);
    process.set_register(0, pointer);

    for pointer_pointer in process.roots() {
        assert!(process.write_slot(pointer_pointer, ObjectPointer::new(0x4)));
    }

    assert_eq!(process.get_local(0).unwrap().raw as usize, 0x4);
    assert_eq!(process.get_register(0).unwrap().raw as usize, 0x4);
    assert_eq!(process.self_object().raw as usize, 0x4);
}

#[test]
fn roots_name_the_slots_of_every_context_oldest_first() {
    let mut process = new_process();
    let first = process.allocate_empty();
    let second = process.allocate_empty();

    process.set_local(1, first);
    process.set_register(2, second);

    let outer = process.binding();
    let context =
        ExecutionContext::with_binding(&mut process.local_data.bindings, outer, new_code(), None);
    let inner = context.binding;

    process.push_context(context);
    process.set_local(0, second);
    process.set_register(0, first);

    let roots = process.roots();

    assert_eq!(
        roots,
        vec![
            // the first context, one step above the current one
            ObjectPointerPointer::Local { binding: outer, index: 0 },
            ObjectPointerPointer::Local { binding: outer, index: 1 },
            ObjectPointerPointer::SelfObject { binding: outer },
            ObjectPointerPointer::Register { context: 1, index: 2 },
            // the current context, whose binding has the first one's around it
            ObjectPointerPointer::Local { binding: inner, index: 0 },
            ObjectPointerPointer::SelfObject { binding: inner },
            ObjectPointerPointer::Local { binding: outer, index: 0 },
            ObjectPointerPointer::Local { binding: outer, index: 1 },
            ObjectPointerPointer::SelfObject { binding: outer },
            ObjectPointerPointer::Register { context: 0, index: 0 },
        ]
    );

    assert_eq!(
        process.read_slot(ObjectPointerPointer::Local { binding: outer, index: 1 }),
        Some(first)
    );
    assert_eq!(
        process.read_slot(ObjectPointerPointer::Local { binding: outer, index: 0 }),
        Some(ObjectPointer::null())
    );
    assert_eq!(
        process.read_slot(ObjectPointerPointer::Register { context: 1, index: 2 }),
        Some(second)
    );
    assert_eq!(process.read_slot(ObjectPointerPointer::Register { context: 1, index: 0 }), None);
    assert_eq!(process.read_slot(ObjectPointerPointer::Register { context: 2, index: 0 }), None);
    assert_eq!(
        process.read_slot(ObjectPointerPointer::Local { binding: inner, index: 1 }),
        None
    );
    assert_eq!(
        process.read_slot(ObjectPointerPointer::SelfObject { binding: RcBinding { index: 9 } }),
        None
    );
}

#[test]
fn every_root_can_be_read_and_rewritten() {
    let mut process = new_process();

    for index in 0..5 {
        let pointer = process.allocate_empty();

        process.set_local(index, pointer);
        process.set_register(2 * index, pointer);
    }

    let context = ExecutionContext::with_object(
        &mut process.local_data.bindings,
        ObjectPointer::new(0x20),
        new_code(),
        None,
    );

    process.push_context(context);
    process.set_register(1, ObjectPointer::new(0x40));

    let roots = process.roots();

    // 5 locals, self and 5 registers below; self and 1 register on top
    assert_eq!(roots.len(), 13);

    for (number, handle) in roots.iter().enumerate() {
        assert!(process.read_slot(*handle).is_some());
        assert!(process.write_slot(*handle, ObjectPointer::new(number * 8)));
    }

    for (number, handle) in roots.iter().enumerate() {
        assert_eq!(process.read_slot(*handle), Some(ObjectPointer::new(number * 8)));
    }

    assert_eq!(process.roots(), roots);
    assert_eq!(process.self_object().raw, 11 * 8);
    assert_eq!(process.get_register(1).unwrap().raw, 12 * 8);

    process.pop_context();

    assert_eq!(process.get_local(3).unwrap().raw, 3 * 8);
    assert_eq!(process.self_object().raw, 5 * 8);
    assert_eq!(process.get_register(4).unwrap().raw, 8 * 8);
    assert!(process.get_register(3).is_err());
}

#[test]
fn write_slot_refuses_slots_that_are_not_there() {
    let mut process = new_process();
    let binding = process.binding();

    assert!(!process.write_slot(
        ObjectPointerPointer::Local { binding, index: 0 },
        ObjectPointer::new(0x4)
    ));
    assert!(!process.write_slot(
        ObjectPointerPointer::Register { context: 0, index: 0 },
        ObjectPointer::new(0x4)
    ));
    assert!(!process.write_slot(
        ObjectPointerPointer::SelfObject { binding: RcBinding { index: 1 } },
        ObjectPointer::new(0x4)
    ));
    assert!(process.get_local(0).is_err());
    assert!(process.get_register(0).is_err());
    assert_eq!(process.roots().len(), 1);
}

#[test]
fn status_handshake_with_the_collector() {
    let mut process = new_process();

    process.running();
    process.local_data.suspend_for_gc = true;

    assert!(process.set_status_without_overwriting_gc_status(ProcessStatus::Finished));
    assert_eq!(process.status, ProcessStatus::SuspendedByGc);
    assert!(!process.local_data.suspend_for_gc);

    // The collector alone takes the process out of the suspension.
    assert!(!process.finished());
    assert!(!process.suspend());
    assert_eq!(process.status, ProcessStatus::SuspendedByGc);

    process.reset_status();

    assert_eq!(process.status, ProcessStatus::Scheduled);
    assert_eq!(*process.gc_state(), GcState::Idle);
}

#[test]
fn status_changes_without_the_collector() {
    let mut process = new_process();

    assert_eq!(process.status, ProcessStatus::Scheduled);
    assert!(process.available_for_execution());
    assert!(process.is_alive());
    assert!(!process.should_be_rescheduled());
    assert!(!process.status.is_running());

    process.running();

    assert!(process.status.is_running());
    assert!(process.wait_while_running());
    assert!(!process.available_for_execution());

    assert!(process.suspend());
    assert_eq!(process.status, ProcessStatus::Suspended);
    assert!(process.should_be_rescheduled());
    assert!(process.available_for_execution());
    assert!(!process.wait_while_running());

    process.running();

    assert!(process.finished());
    assert_eq!(process.status, ProcessStatus::Finished);
    assert!(!process.is_alive());

    process.set_status(ProcessStatus::Failed);

    assert!(!process.is_alive());
    assert!(!process.available_for_execution());
}

#[test]
fn collector_requests_a_suspension() {
    let mut process = new_process();

    process.running();

    assert!(!process.should_suspend_for_gc());
    assert!(process.request_gc_suspension());
    assert!(process.local_data.suspend_for_gc);
    assert!(process.should_suspend_for_gc());
    assert!(!process.suspended_by_gc());

    // The worker reaches its safe point.
    process.suspend_for_gc();

    assert!(process.suspended_by_gc());
    assert!(!process.local_data.suspend_for_gc);
    assert!(process.should_suspend_for_gc());
    assert!(!process.status.is_running());

    // A second request finds the process suspended: no flag, no wait.
    assert!(!process.request_gc_suspension());
    assert!(!process.local_data.suspend_for_gc);

    let mut parked = new_process();

    parked.set_status(ProcessStatus::Suspended);

    assert!(!parked.request_gc_suspension());
    assert!(parked.local_data.suspend_for_gc);
}

#[test]
fn write_barrier_remembers_the_mature_object_written_to() {
    let mut process = new_process();
    let young = ObjectPointer::tagged(Generation::Young, 3);
    let other_young = ObjectPointer::tagged(Generation::Young, 4);
    let mature = ObjectPointer::tagged(Generation::Mature, 5);
    let other_mature = ObjectPointer::tagged(Generation::Mature, 6);
    let permanent = ObjectPointer::tagged(Generation::Permanent, 7);
    let mailbox = ObjectPointer::tagged(Generation::Mailbox, 8);

    process.write_barrier(young, mature);
    process.write_barrier(young, other_young);
    process.write_barrier(mature, other_mature);
    process.write_barrier(mature, permanent);
    process.write_barrier(mature, mailbox);
    process.write_barrier(permanent, young);
    process.write_barrier(mailbox, young);

    assert!(process.local_data.remembered_set.is_empty());

    process.write_barrier(mature, young);

    assert_eq!(process.local_data.remembered_set.len(), 1);
    assert!(process.local_data.remembered_set.contains(&mature.raw));

    process.write_barrier(mature, other_young);
    process.write_barrier(other_mature, young);

    assert_eq!(process.remembered_set_mut().len(), 2);
    assert!(process.local_data.remembered_set.contains(&other_mature.raw));
    assert!(!process.local_data.remembered_set.contains(&young.raw));

    // The collector takes an object out again.
    assert!(process.remembered_set_mut().remove(&mature.raw));
    assert_eq!(process.local_data.remembered_set.len(), 1);
}

#[test]
fn mailbox_is_first_in_first_out() {
    let sender = LocalAllocator::new();
    let mut process = new_process();

    assert!(process.receive_message().is_none());

    for number in 1..=5 {
        process.send_message(&sender, ObjectPointer::tagged(Generation::Permanent, number));
    }

    assert_eq!(process.mailbox.len(), 5);

    for number in 1..=5 {
        assert_eq!(
            process.receive_message(),
            Some(ObjectPointer::tagged(Generation::Permanent, number))
        );
    }

    assert!(process.receive_message().is_none());
}

#[test]
fn message_is_copied_into_the_mailbox_heap_of_the_receiver() {
    let mut sender = new_process();
    let mut receiver = new_process();

    let message = sender.allocate_without_prototype(object_value::string("hi".to_string()));

    assert!(message.is_local());
    assert!(receiver.can_receive_from(&sender.local_data.allocator));

    receiver.send_message(&sender.local_data.allocator, message);

    let received = receiver.receive_message().unwrap();

    assert!(received.is_mailbox());
    assert!(!received.is_local());
    assert_ne!(received, message);

    let copy = receiver.mailbox_allocator.get(received).unwrap();

    assert_eq!(copy.value.as_string().unwrap(), "hi");
    assert!(copy.prototype.is_none());

    // What was sent is untouched, and the sender alone holds it.
    let sent = sender.local_data.allocator.get(message).unwrap();

    assert_eq!(sent.value.as_string().unwrap(), "hi");
    assert_eq!(sender.local_data.allocator.young_len(), 1);
    assert_eq!(receiver.local_data.allocator.young_len(), 0);
    assert_eq!(receiver.mailbox_allocator.len(), 1);
}

#[test]
fn message_that_is_not_local_is_sent_as_it_is() {
    let sender = new_process();
    let mut receiver = new_process();
    let permanent = ObjectPointer::tagged(Generation::Permanent, 12);
    let dangling = ObjectPointer::tagged(Generation::Young, 12);

    receiver.send_message(&sender.local_data.allocator, permanent);
    receiver.send_message(&sender.local_data.allocator, ObjectPointer::null());
    receiver.send_message(&sender.local_data.allocator, dangling);

    assert_eq!(receiver.receive_message(), Some(permanent));
    assert_eq!(receiver.receive_message(), Some(ObjectPointer::null()));
    assert_eq!(receiver.receive_message(), Some(dangling));
    assert_eq!(receiver.mailbox_allocator.len(), 0);
}

#[test]
fn message_copy_follows_pointers_and_cycles() {
    let mut sender = LocalAllocator::new();
    let permanent = ObjectPointer::tagged(Generation::Permanent, 3);

    // young 0: a string; young 1: an array of [young 0, young 2, permanent, young 0];
    // young 2: an object whose prototype is young 1 (a cycle) and whose
    // attribute points to itself.
    let text = sender.allocate_without_prototype(object_value::string("leaf".to_string()));
    let list = sender.allocate_empty();
    let node = sender.allocate_with_prototype(object_value::integer(7), list);

    assert_eq!((text.index(), list.index(), node.index()), (0, 1, 2));

    let mut with_items = Object::new(object_value::array(vec![text, node, permanent, text]));

    with_items.add_attribute("first".to_string(), text);

    let mut with_cycle = Object::with_prototype(object_value::integer(7), list);

    with_cycle.add_attribute("me".to_string(), node);

    let mut young_objects = vec![
        Object::new(object_value::string("leaf".to_string())),
        with_items,
        with_cycle,
    ];

    // Build the heap again with the objects as they are meant to be.
    let mut sender = LocalAllocator::new();

    for object in young_objects.drain(..) {
        sender.allocate(object);
    }

    let mut receiver = new_process();

    receiver.send_message(&sender, permanent);
    receiver.send_message(&sender, list);

    assert_eq!(receiver.receive_message(), Some(permanent));

    let received = receiver.receive_message().unwrap();

    // Three objects were reached, three were copied, each once.
    assert_eq!(receiver.mailbox_allocator.len(), 3);
    assert_eq!(received, ObjectPointer::tagged(Generation::Mailbox, 0));

    let list_copy = receiver.mailbox_allocator.get(received).unwrap();
    let items = match &list_copy.value {
        ObjectValue::Array(items) => items.clone(),
        _ => panic!("expected an array"),
    };

    assert_eq!(items.len(), 4);
    assert!(items[0].is_mailbox());
    assert!(items[1].is_mailbox());
    assert_eq!(items[2], permanent);
    assert_eq!(items[3], items[0]);
    assert_ne!(items[0], items[1]);
    assert_eq!(list_copy.attributes.len(), 1);
    assert_eq!(list_copy.attributes[0].name, "first");
    assert_eq!(list_copy.attributes[0].value, items[0]);

    let text_copy = receiver.mailbox_allocator.get(items[0]).unwrap();

    assert_eq!(text_copy.value.as_string().unwrap(), "leaf");

    let node_copy = receiver.mailbox_allocator.get(items[1]).unwrap();

    assert_eq!(node_copy.value.as_integer(), Some(7));
    assert_eq!(node_copy.prototype, Some(received));
    assert_eq!(node_copy.attributes.len(), 1);
    assert_eq!(node_copy.attributes[0].name, "me");
    assert_eq!(node_copy.attributes[0].value, items[1]);

    // A second message is copied anew, after the objects that are there.
    receiver.send_message(&sender, text);

    assert_eq!(
        receiver.receive_message(),
        Some(ObjectPointer::tagged(Generation::Mailbox, 3))
    );
    assert_eq!(receiver.mailbox_allocator.len(), 4);
}

#[test]
fn message_to_itself_is_copied_too() {
    let mut process = new_process();
    let message = process.allocate_without_prototype(object_value::integer(5));

    process.send_message_to_self(message);

    let received = process.receive_message().unwrap();

    assert!(received.is_mailbox());
    assert_eq!(process.mailbox_allocator.get(received).unwrap().value.as_integer(), Some(5));
}

#[test]
fn contexts_are_pushed_and_popped() {
    let mut process = new_process();

    assert!(process.at_top_level());

    process.set_instruction_index(4);

    let context = ExecutionContext::with_object(
        &mut process.local_data.bindings,
        ObjectPointer::new(0x8),
        new_code(),
        Some(3),
    );

    process.push_context(context);

    assert!(!process.at_top_level());
    assert_eq!(process.instruction_index(), 0);
    assert_eq!(process.self_object().raw, 0x8);
    assert_eq!(process.context().return_register, Some(3));
    assert_eq!(process.context().find_parent(1).unwrap().instruction_index, 4);

    process.context_mut().instruction_index = 9;

    assert_eq!(process.instruction_index(), 9);

    process.pop_context();

    assert!(process.at_top_level());
    assert_eq!(process.instruction_index(), 4);
    assert_eq!(process.self_object().raw, 0);

    // The last context stays.
    process.pop_context();

    assert_eq!(process.instruction_index(), 4);
}

#[test]
fn call_frames_are_pushed_and_popped() {
    let mut process = new_process();

    assert_eq!(process.call_frame().line, 1);
    assert!(process.call_frame().parent.is_none());

    process.advance_line(12);

    assert_eq!(process.call_frame().line, 12);
    assert_eq!(process.call_frame().parent.as_ref().unwrap().line, 1);
    assert_eq!(process.call_frame().code.name, process.compiled_code().name);

    process.advance_line(13);
    process.pop_call_frame();

    assert_eq!(process.call_frame().line, 12);

    process.pop_call_frame();
    process.pop_call_frame();

    assert_eq!(process.call_frame().line, 1);
    assert!(process.call_frame().parent.is_none());
}

#[test]
fn registers_and_locals_report_what_is_not_there() {
    let mut process = new_process();

    assert_eq!(
        process.get_register(3).unwrap_err(),
        "Undefined object in register 3".to_string()
    );
    assert_eq!(
        process.get_local(17).unwrap_err(),
        "Undefined local variable index 17".to_string()
    );
    assert!(process.get_register_option(3).is_none());
    assert!(!process.local_exists(0));

    process.set_register(3, ObjectPointer::new(0x8));
    process.set_local(2, ObjectPointer::new(0xc));

    assert_eq!(process.get_register(3).unwrap().raw, 0x8);
    assert_eq!(process.get_register_option(3).unwrap().raw, 0x8);
    // Registers below a written one stay unset.
    assert!(process.get_register(2).is_err());
    assert!(process.get_register(4).is_err());
    // Locals are dense: the ones below a written one hold the null pointer.
    assert!(process.local_exists(0));
    assert!(process.local_exists(2));
    assert!(!process.local_exists(3));
    assert!(process.get_local(1).unwrap().is_null());
    assert_eq!(process.get_local(2).unwrap().raw, 0xc);
}

#[test]
fn collection_falls_due_when_the_young_generation_has_grown() {
    let mut process = new_process();

    assert!(!process.should_schedule_gc());
    assert!(!process.should_collect_young_generation());
    assert!(!process.should_collect_mature_generation());

    // 31 blocks of 1024 objects, and one object of the 32nd block less.
    for _ in 0..(31 * 1024) {
        process.allocate_empty();
    }

    assert!(process.can_allocate());
    assert!(!process.should_collect_young_generation());

    process.allocate(ObjectValue::Integer(1), ObjectPointer::null());

    assert!(process.should_collect_young_generation());
    assert!(process.should_schedule_gc());

    process.gc_scheduled();

    assert_eq!(*process.gc_state(), GcState::Scheduled);
    assert!(!process.should_schedule_gc());
    assert!(process.should_collect_young_generation());

    process.set_gc_state(GcState::Idle);

    assert!(process.should_schedule_gc());
    assert!(!process.should_collect_mature_generation());
}

#[test]
fn young_ages_and_the_mature_generation() {
    let mut process = new_process();

    assert_eq!(process.mature_generation_mut().len(), 0);

    process.increment_young_ages();
    process.increment_young_ages();

    process.mature_generation_mut().allocate(Object::new(ObjectValue::Integer(3)));

    assert_eq!(process.local_data().allocator.mature_len(), 1);
    assert_eq!(process.local_data_mut().allocator.young_len(), 0);

    let promoted = ObjectPointer::tagged(Generation::Mature, 0);

    assert_eq!(
        process.local_data().allocator.get(promoted).unwrap().value.as_integer(),
        Some(3)
    );
    assert!(process.local_data().allocator.get(ObjectPointer::tagged(Generation::Young, 0)).is_none());
}

#[test]
fn processes_are_equal_by_identifier() {
    let first = Process::from_code(1, new_code(), ObjectPointer::null());
    let mut second = Process::from_code(1, new_code(), ObjectPointer::new(0x8));
    let third = Process::from_code(2, new_code(), ObjectPointer::null());

    second.running();

    assert!(first == second);
    assert!(first != third);
}

#[test]
fn attributes_are_kept_in_order() {
    let mut object = Object::with_prototype(ObjectValue::Empty, ObjectPointer::new(0x8));

    object.add_attribute("a".to_string(), ObjectPointer::new(0x10));
    object.add_attribute("b".to_string(), ObjectPointer::new(0x14));

    assert_eq!(
        object.pointers(),
        vec![ObjectPointer::new(0x8), ObjectPointer::new(0x10), ObjectPointer::new(0x14)]
    );

    let copy = object.with_pointers(&vec![
        ObjectPointer::new(0x20),
        ObjectPointer::new(0x24),
        ObjectPointer::new(0x28),
    ]);

    assert_eq!(copy.prototype, Some(ObjectPointer::new(0x20)));
    assert_eq!(copy.attributes.len(), 2);
    assert_eq!(copy.attributes[0].name, "a");
    assert_eq!(copy.attributes[0].value, ObjectPointer::new(0x24));
    assert_eq!(copy.attributes[1].name, "b");
    assert_eq!(copy.attributes[1].value, ObjectPointer::new(0x28));
    assert!(copy.value.is_none());

    let built = Object {
        prototype: None,
        attributes: vec![Attribute { name: "c".to_string(), value: ObjectPointer::null() }],
        value: ObjectValue::Empty,
    };

    assert_eq!(built.pointers(), vec![ObjectPointer::null()]);
}
