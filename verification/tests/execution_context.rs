use libaeon::binding::BindingTable;
use libaeon::compiled_code::{CompiledCode, RcCompiledCode};
use libaeon::execution_context::ExecutionContext;
use libaeon::object_pointer::{ObjectPointer, RawObjectPointer, RcBinding};

fn new_binding(bindings: &mut BindingTable) -> RcBinding {
    bindings.add(ObjectPointer::null())
}

fn new_compiled_code() -> RcCompiledCode {
    CompiledCode::with_rc("a".to_string(), "a.aeon".to_string(), 1, Vec::new())
}

fn new_context(bindings: &mut BindingTable) -> ExecutionContext {
    let binding = new_binding(bindings);

    ExecutionContext::new(binding, new_compiled_code(), None)
}

#[test]
fn test_new() {
    let mut bindings = BindingTable::new();
    let binding = new_binding(&mut bindings);
    let code = new_compiled_code();
    let context = ExecutionContext::new(binding, code, Some(4));

    assert!(context.parent.is_none());
    assert_eq!(context.instruction_index, 0);

    assert!(context.return_register.is_some());
    assert_eq!(context.return_register.unwrap(), 4);
}

#[test]
fn test_with_object() {
    let mut bindings = BindingTable::new();
    let code = new_compiled_code();
    let context =
        ExecutionContext::with_object(&mut bindings, ObjectPointer::null(), code, Some(4));

    assert!(context.parent.is_none());
    assert_eq!(context.instruction_index, 0);

    assert!(context.return_register.is_some());
    assert_eq!(context.return_register.unwrap(), 4);
}

#[test]
fn test_with_binding() {
    let mut bindings = BindingTable::new();
    let binding = new_binding(&mut bindings);
    let code = new_compiled_code();
    let context = ExecutionContext::with_binding(&mut bindings, binding, code, None);

    assert!(bindings.parent(context.binding).is_some());
}

#[test]
fn test_set_parent() {
    let mut bindings = BindingTable::new();
    let binding = new_binding(&mut bindings);
    let code = new_compiled_code();
    let context1 = ExecutionContext::new(binding, code.clone(), None);
    let mut context2 = ExecutionContext::new(binding, code, None);

    context2.set_parent(Box::new(context1));

    assert!(context2.parent.is_some());
}

#[test]
fn test_parent_without_parent() {
    let mut bindings = BindingTable::new();
    let binding = new_binding(&mut bindings);
    let code = new_compiled_code();
    let mut context = ExecutionContext::new(binding, code.clone(), None);

    assert!(context.parent().is_none());
    assert!(context.parent_mut().is_none());
}

#[test]
fn test_parent_with_parent() {
    let mut bindings = BindingTable::new();
    let binding = new_binding(&mut bindings);
    let code = new_compiled_code();
    let context1 = ExecutionContext::new(binding, code.clone(), None);
    let mut context2 = ExecutionContext::new(binding, code, None);

    context2.set_parent(Box::new(context1));

    assert!(context2.parent().is_some());
    assert!(context2.parent_mut().is_some());
}

#[test]
fn test_self_object() {
    let mut bindings = BindingTable::new();
    let binding = new_binding(&mut bindings);
    let code = new_compiled_code();
    let context = ExecutionContext::new(binding, code.clone(), None);

    assert_eq!(context.self_object(&bindings).raw, bindings.self_object(binding).raw);
}

#[test]
fn test_get_register_invalid() {
    let mut bindings = BindingTable::new();
    let context = new_context(&mut bindings);

    assert!(context.get_register(0).is_none());
}

#[test]
fn test_get_set_register_valid() {
    let mut bindings = BindingTable::new();
    let mut context = new_context(&mut bindings);
    let pointer = ObjectPointer::new(0x4 as RawObjectPointer);

    context.set_register(0, pointer);

    assert!(context.get_register(0).is_some());
}

#[test]
fn test_get_local_invalid() {
    let mut bindings = BindingTable::new();
    let context = new_context(&mut bindings);

    assert!(context.get_local(&bindings, 0).is_err());
}

#[test]
fn test_get_set_local_valid() {
    let mut bindings = BindingTable::new();
    let context = new_context(&mut bindings);
    let pointer = ObjectPointer::null();

    context.set_local(&mut bindings, 0, pointer);

    assert!(context.get_local(&bindings, 0).is_ok());
}

#[test]
fn test_find_parent() {
    let mut bindings = BindingTable::new();
    let context1 = new_context(&mut bindings);
    let mut context2 = new_context(&mut bindings);
    let mut context3 = new_context(&mut bindings);

    context2.set_parent(Box::new(context1));
    context3.set_parent(Box::new(context2));

    let found = context3.find_parent(1);

    assert!(found.is_some());
    assert!(found.unwrap().parent().is_some());
    assert!(found.unwrap().parent().unwrap().parent().is_none());
}

#[test]
fn test_contexts() {
    let mut bindings = BindingTable::new();
    let context1 = new_context(&mut bindings);
    let mut context2 = new_context(&mut bindings);
    let mut context3 = new_context(&mut bindings);

    context2.set_parent(Box::new(context1));
    context3.set_parent(Box::new(context2));

    let mut contexts = context3.contexts();

    assert!(contexts.next().is_some());
    assert!(contexts.next().is_some());
    assert!(contexts.next().is_some());
    assert!(contexts.next().is_none());
}

fn chain_of_three(bindings: &mut BindingTable) -> ExecutionContext {
    let mut context1 = new_context(bindings);
    let mut context2 = new_context(bindings);
    let mut context3 = new_context(bindings);

    context1.instruction_index = 1;
    context2.instruction_index = 2;
    context3.instruction_index = 3;
    context2.set_parent(Box::new(context1));
    context3.set_parent(Box::new(context2));
    context3
}

#[test]
fn find_parent_counts_hops() {
    let mut bindings = BindingTable::new();
    let context = chain_of_three(&mut bindings);

    assert_eq!(context.find_parent(1).unwrap().instruction_index, 2);
    assert_eq!(context.find_parent(2).unwrap().instruction_index, 1);
    assert!(context.find_parent(3).is_none());
    assert!(context.find_parent(usize::MAX).is_none());
}

#[test]
fn find_parent_of_depth_zero_is_the_parent() {
    let mut bindings = BindingTable::new();
    let context = chain_of_three(&mut bindings);

    assert_eq!(context.find_parent(0).unwrap().instruction_index, 2);
    assert!(new_context(&mut bindings).find_parent(0).is_none());
    assert!(new_context(&mut bindings).find_parent(1).is_none());
}

#[test]
fn find_parent_is_parent_applied_again_and_again() {
    let mut bindings = BindingTable::new();
    let context = chain_of_three(&mut bindings);
    let parent = context.parent().unwrap();

    assert_eq!(
        context.find_parent(2).unwrap().instruction_index,
        parent.parent().unwrap().instruction_index
    );
    assert_eq!(context.find_parent(1).unwrap().instruction_index, parent.instruction_index);
}

#[test]
fn ancestor_at_starts_at_the_context_itself() {
    let mut bindings = BindingTable::new();
    let context = chain_of_three(&mut bindings);

    assert_eq!(context.ancestor_at(0).unwrap().instruction_index, 3);
    assert_eq!(context.ancestor_at(1).unwrap().instruction_index, 2);
    assert_eq!(context.ancestor_at(2).unwrap().instruction_index, 1);
    assert!(context.ancestor_at(3).is_none());
}

#[test]
fn contexts_walks_from_the_innermost_context_up() {
    let mut bindings = BindingTable::new();
    let context = chain_of_three(&mut bindings);
    let mut contexts = context.contexts();

    assert_eq!(contexts.next().unwrap().instruction_index, 3);
    assert_eq!(contexts.next().unwrap().instruction_index, 2);
    assert_eq!(contexts.next().unwrap().instruction_index, 1);
    assert!(contexts.next().is_none());
    assert!(contexts.next().is_none());
}

#[test]
fn parent_mut_changes_the_parent_in_place() {
    let mut bindings = BindingTable::new();
    let mut context = chain_of_three(&mut bindings);

    context.parent_mut().unwrap().instruction_index = 20;

    assert_eq!(context.find_parent(1).unwrap().instruction_index, 20);
    assert_eq!(context.find_parent(2).unwrap().instruction_index, 1);
}

#[test]
fn with_binding_shares_the_scope_around_it() {
    let mut bindings = BindingTable::new();
    let outer = bindings.add(ObjectPointer::new(0x8));
    let code = new_compiled_code();
    let first = ExecutionContext::with_binding(&mut bindings, outer, code.clone(), None);
    let second = ExecutionContext::with_binding(&mut bindings, outer, code, Some(2));

    assert_eq!(first.self_object(&bindings).raw, 0x8);
    assert_eq!(bindings.parent(first.binding), Some(outer));
    assert_eq!(bindings.parent(second.binding), Some(outer));
    assert_ne!(first.binding, second.binding);

    // A write to the shared scope is seen from both.
    bindings.set_local(outer, 0, ObjectPointer::new(0x10));

    assert_eq!(bindings.get_local(bindings.parent(first.binding).unwrap(), 0).unwrap().raw, 0x10);
    assert_eq!(bindings.get_local(bindings.parent(second.binding).unwrap(), 0).unwrap().raw, 0x10);
    assert!(first.get_local(&bindings, 0).is_err());
    assert_eq!(second.return_register, Some(2));
}

#[test]
fn rewrite_register_at_writes_set_registers_only() {
    let mut bindings = BindingTable::new();
    let mut context = chain_of_three(&mut bindings);

    context.parent_mut().unwrap().set_register(2, ObjectPointer::new(0x8));

    assert!(context.rewrite_register_at(1, 2, ObjectPointer::new(0xc)));
    assert_eq!(context.find_parent(1).unwrap().get_register(2).unwrap().raw, 0xc);
    assert!(!context.rewrite_register_at(1, 1, ObjectPointer::new(0xc)));
    assert!(!context.rewrite_register_at(0, 2, ObjectPointer::new(0xc)));
    assert!(!context.rewrite_register_at(3, 2, ObjectPointer::new(0xc)));
    assert!(context.find_parent(1).unwrap().get_register(1).is_none());
    assert!(context.get_register(2).is_none());
}
