//! Bindings: the local variables and `self` of a scope, with the scope
//! around it.
//!
//! A binding can be shared: by the contexts that run in it and by the
//! bindings of the scopes that it encloses. The bindings of a process
//! therefore live in one table, and are referred to by handle.

use crate::message::{decimal_digits, message_with_index};
use crate::object_pointer::{ObjectPointer, ObjectPointerPointer, RcBinding};
use vstd::prelude::*;

verus! {

/// One scope: its `self`, its local variables by position, and the scope
/// around it.
#[derive(Debug)]
pub struct Binding {
    pub self_object: ObjectPointer,
    pub locals: Vec<ObjectPointer>,
    pub parent: Option<RcBinding>,
}

/// The mathematical value of a [`Binding`].
pub ghost struct BindingView {
    pub self_object: ObjectPointer,
    pub locals: Seq<ObjectPointer>,
    pub parent: Option<RcBinding>,
}

impl View for Binding {
    type V = BindingView;

    open spec fn view(&self) -> BindingView {
        BindingView { self_object: self.self_object, locals: self.locals@, parent: self.parent }
    }
}

/// The bindings of one process. A binding is never removed, so a handle
/// stays good for as long as the table lives.
#[derive(Debug)]
pub struct BindingTable {
    bindings: Vec<Binding>,
}

impl View for BindingTable {
    type V = Seq<BindingView>;

    closed spec fn view(&self) -> Seq<BindingView> {
        Seq::new(self.bindings@.len(), |i: int| self.bindings@[i]@)
    }
}

/// Whether `binding` is a handle to a binding of `table`.
pub open spec fn table_contains(table: Seq<BindingView>, binding: RcBinding) -> bool {
    binding.index < table.len()
}

/// The scope around `binding`. A binding is always made after the scope
/// around it, so the parent has the lower handle: this is what keeps the
/// chain of scopes free of cycles.
pub open spec fn parent_of(table: Seq<BindingView>, binding: RcBinding) -> Option<RcBinding> {
    if table_contains(table, binding) {
        match table[binding.index as int].parent {
            Some(parent) => if parent.index < binding.index {
                Some(parent)
            } else {
                None
            },
            None => None,
        }
    } else {
        None
    }
}

/// The local variable `index` of `binding`, where it exists.
pub open spec fn local_of(table: Seq<BindingView>, binding: RcBinding, index: int) -> Option<
    ObjectPointer,
> {
    if table_contains(table, binding) && 0 <= index < table[binding.index as int].locals.len() {
        Some(table[binding.index as int].locals[index])
    } else {
        None
    }
}

/// Whether `result` reports `local`, the local variable at position `index`
/// where there is one: the pointer, or else the error that names `index`.
pub open spec fn local_result(
    local: Option<ObjectPointer>,
    index: usize,
    result: Result<ObjectPointer, String>,
) -> bool {
    match local {
        Some(pointer) => result == Ok::<ObjectPointer, String>(pointer),
        None => result is Err && result->Err_0@ == "Undefined local variable index "@
            + decimal_digits(index),
    }
}

/// The locals after a write of `value` to position `index`: positions
/// between the old end and `index` come into being as null pointers.
pub open spec fn locals_after_set(locals: Seq<ObjectPointer>, index: int, value: ObjectPointer) -> Seq<
    ObjectPointer,
>
    recommends
        0 <= index,
{
    if index < locals.len() {
        locals.update(index, value)
    } else {
        (locals + Seq::new((index - locals.len()) as nat, |i: int| ObjectPointer { raw: 0 })).push(
            value,
        )
    }
}

/// Handles to the first `count` local variables of `binding`.
pub open spec fn local_pointers(binding: RcBinding, count: nat) -> Seq<ObjectPointerPointer> {
    Seq::new(count, |i: int| ObjectPointerPointer::Local { binding, index: i as usize })
}

/// Handles to every slot that can be reached from `binding`: its local
/// variables, its `self`, and then the same of the scopes around it, each
/// scope once.
pub open spec fn binding_pointers(table: Seq<BindingView>, binding: RcBinding) -> Seq<
    ObjectPointerPointer,
>
    decreases binding.index,
{
    if table_contains(table, binding) {
        let own = local_pointers(binding, table[binding.index as int].locals.len()).push(
            ObjectPointerPointer::SelfObject { binding },
        );
        match parent_of(table, binding) {
            Some(parent) => own + binding_pointers(table, parent),
            None => own,
        }
    } else {
        Seq::empty()
    }
}

/// Whether `ancestor` is `binding` or one of the scopes around it.
pub open spec fn in_scope_chain(table: Seq<BindingView>, binding: RcBinding, ancestor: RcBinding) -> bool
    decreases binding.index,
{
    table_contains(table, binding) && (binding == ancestor || match parent_of(table, binding) {
        Some(parent) => in_scope_chain(table, parent, ancestor),
        None => false,
    })
}

/// The pointers of a binding hold a handle to `self` and to each local
/// variable of every scope of its chain.
pub proof fn lemma_binding_pointers_complete(
    table: Seq<BindingView>,
    binding: RcBinding,
    ancestor: RcBinding,
)
    requires
        in_scope_chain(table, binding, ancestor),
    ensures
        binding_pointers(table, binding).contains(
            ObjectPointerPointer::SelfObject { binding: ancestor },
        ),
        forall|index: usize|
            index < table[ancestor.index as int].locals.len() ==> #[trigger] binding_pointers(
                table,
                binding,
            ).contains(ObjectPointerPointer::Local { binding: ancestor, index }),
    decreases binding.index,
{
    let count = table[binding.index as int].locals.len();
    let own = local_pointers(binding, count).push(ObjectPointerPointer::SelfObject { binding });
    let all = binding_pointers(table, binding);
    if binding == ancestor {
        assert(all[count as int] == ObjectPointerPointer::SelfObject { binding });
        assert forall|index: usize| index < count implies #[trigger] all.contains(
            ObjectPointerPointer::Local { binding: ancestor, index },
        ) by {
            assert(all[index as int] == ObjectPointerPointer::Local { binding, index });
        }
    } else {
        let parent = parent_of(table, binding)->0;
        lemma_binding_pointers_complete(table, parent, ancestor);
        let above = binding_pointers(table, parent);
        assert forall|handle: ObjectPointerPointer| above.contains(handle) implies all.contains(
            handle,
        ) by {
            let i = choose|i: int| 0 <= i < above.len() && above[i] == handle;
            assert(all[own.len() + i] == handle);
        }
        assert forall|index: usize|
            index < table[ancestor.index as int].locals.len() implies #[trigger] all.contains(
            ObjectPointerPointer::Local { binding: ancestor, index },
        ) by {
            assert(above.contains(ObjectPointerPointer::Local { binding: ancestor, index }));
        }
    }
}

/// Whether two tables have the same bindings with the same scopes around
/// them and the same number of local variables each: then they have the
/// same slots, whatever the slots hold.
pub open spec fn same_shape(before: Seq<BindingView>, after: Seq<BindingView>) -> bool {
    &&& after.len() == before.len()
    &&& forall|i: int|
        0 <= i < before.len() ==> (#[trigger] after[i]).parent == before[i].parent
            && after[i].locals.len() == before[i].locals.len()
}

/// Tables of the same shape give the same handles.
pub proof fn lemma_binding_pointers_keep(
    before: Seq<BindingView>,
    after: Seq<BindingView>,
    binding: RcBinding,
)
    requires
        same_shape(before, after),
    ensures
        binding_pointers(after, binding) == binding_pointers(before, binding),
    decreases binding.index,
{
    if table_contains(before, binding) {
        assert(after[binding.index as int].parent == before[binding.index as int].parent);
        match parent_of(before, binding) {
            Some(parent) => {
                lemma_binding_pointers_keep(before, after, parent);
            },
            None => {},
        }
    }
}

impl BindingTable {
    /// A table without bindings.
    pub fn new() -> (table: BindingTable)
        ensures
            table@ == Seq::<BindingView>::empty(),
    {
        let table = BindingTable { bindings: Vec::new() };
        assert(table@ =~= Seq::empty());
        table
    }

    /// The number of bindings in the table.
    pub fn len(&self) -> (count: usize)
        ensures
            count == self@.len(),
    {
        self.bindings.len()
    }

    /// Whether `binding` is a handle to a binding of this table.
    pub fn contains(&self, binding: RcBinding) -> (answer: bool)
        ensures
            answer == table_contains(self@, binding),
    {
        binding.index < self.bindings.len()
    }

    /// Adds a binding with the given `self`, without local variables and
    /// without a scope around it.
    pub fn add(&mut self, self_object: ObjectPointer) -> (binding: RcBinding)
        ensures
            binding.index == old(self)@.len(),
            final(self)@ == old(self)@.push(
                BindingView { self_object, locals: Seq::empty(), parent: None },
            ),
    {
        let binding = RcBinding { index: self.bindings.len() };
        self.bindings.push(Binding { self_object, locals: Vec::new(), parent: None });
        assert(self@ =~= old(self)@.push(
            BindingView { self_object, locals: Seq::empty(), parent: None },
        ));
        binding
    }

    /// Adds a binding with the given `self`, without local variables, in the
    /// scope `parent`.
    pub fn add_with_parent(&mut self, self_object: ObjectPointer, parent: RcBinding) -> (binding:
        RcBinding)
        ensures
            binding.index == old(self)@.len(),
            final(self)@ == old(self)@.push(
                BindingView { self_object, locals: Seq::empty(), parent: Some(parent) },
            ),
    {
        let binding = RcBinding { index: self.bindings.len() };
        self.bindings.push(Binding { self_object, locals: Vec::new(), parent: Some(parent) });
        assert(self@ =~= old(self)@.push(
            BindingView { self_object, locals: Seq::empty(), parent: Some(parent) },
        ));
        binding
    }

    /// The `self` of `binding`.
    pub fn self_object(&self, binding: RcBinding) -> (pointer: ObjectPointer)
        requires
            table_contains(self@, binding),
        ensures
            pointer == self@[binding.index as int].self_object,
    {
        self.bindings[binding.index].self_object
    }

    /// The scope around `binding`, if there is one.
    pub fn parent(&self, binding: RcBinding) -> (parent: Option<RcBinding>)
        ensures
            parent == parent_of(self@, binding),
    {
        if binding.index < self.bindings.len() {
            match self.bindings[binding.index].parent {
                Some(parent) => if parent.index < binding.index {
                    Some(parent)
                } else {
                    None
                },
                None => None,
            }
        } else {
            None
        }
    }

    /// Whether `binding` has a local variable at position `index`.
    pub fn local_exists(&self, binding: RcBinding, index: usize) -> (answer: bool)
        ensures
            answer == local_of(self@, binding, index as int).is_some(),
    {
        binding.index < self.bindings.len() && index < self.bindings[binding.index].locals.len()
    }

    /// The local variable at position `index` of `binding`, or an error
    /// that names the position where the variable does not exist.
    pub fn get_local(&self, binding: RcBinding, index: usize) -> (value: Result<
        ObjectPointer,
        String,
    >)
        ensures
            local_result(local_of(self@, binding, index as int), index, value),
    {
        if binding.index < self.bindings.len() && index < self.bindings[binding.index].locals.len() {
            Ok(self.bindings[binding.index].locals[index])
        } else {
            Err(message_with_index("Undefined local variable index ", index))
        }
    }

    /// Writes `value` to the local variable at position `index` of
    /// `binding`, growing the locals where needed. No other slot changes.
    pub fn set_local(&mut self, binding: RcBinding, index: usize, value: ObjectPointer)
        requires
            table_contains(old(self)@, binding),
        ensures
            final(self)@ == old(self)@.update(
                binding.index as int,
                BindingView {
                    locals: locals_after_set(
                        old(self)@[binding.index as int].locals,
                        index as int,
                        value,
                    ),
                    ..old(self)@[binding.index as int]
                },
            ),
    {
        let ghost start = self.bindings@[binding.index as int].locals@;
        if index < self.bindings[binding.index].locals.len() {
            self.bindings[binding.index].locals[index] = value;
        } else {
            while self.bindings[binding.index].locals.len() < index
                invariant
                    binding.index < self.bindings@.len(),
                    self.bindings@.len() == old(self).bindings@.len(),
                    forall|i: int|
                        0 <= i < self.bindings@.len() && i != binding.index ==> self.bindings@[i]
                            == old(self).bindings@[i],
                    self.bindings@[binding.index as int].self_object == old(self).bindings@[binding.index as int].self_object,
                    self.bindings@[binding.index as int].parent == old(self).bindings@[binding.index as int].parent,
                    start == old(self).bindings@[binding.index as int].locals@,
                    start.len() <= self.bindings@[binding.index as int].locals@.len() <= index,
                    self.bindings@[binding.index as int].locals@ == start + Seq::new(
                        (self.bindings@[binding.index as int].locals@.len() - start.len()) as nat,
                        |i: int| ObjectPointer { raw: 0 },
                    ),
                decreases index - self.bindings@[binding.index as int].locals@.len(),
            {
                self.bindings[binding.index].locals.push(ObjectPointer::null());
                assert(self.bindings@[binding.index as int].locals@ =~= start + Seq::new(
                    (self.bindings@[binding.index as int].locals@.len() - start.len()) as nat,
                    |i: int| ObjectPointer { raw: 0 },
                ));
            }
            self.bindings[binding.index].locals.push(value);
        }
        assert(self@ =~= old(self)@.update(
            binding.index as int,
            BindingView {
                locals: locals_after_set(
                    old(self)@[binding.index as int].locals,
                    index as int,
                    value,
                ),
                ..old(self)@[binding.index as int]
            },
        ));
    }

    /// Writes `value` to the `self` slot of `binding`. No other slot changes.
    pub fn set_self_object(&mut self, binding: RcBinding, value: ObjectPointer)
        requires
            table_contains(old(self)@, binding),
        ensures
            final(self)@ == old(self)@.update(
                binding.index as int,
                BindingView { self_object: value, ..old(self)@[binding.index as int] },
            ),
    {
        self.bindings[binding.index].self_object = value;
        assert(self@ =~= old(self)@.update(
            binding.index as int,
            BindingView { self_object: value, ..old(self)@[binding.index as int] },
        ));
    }

    /// Appends to `pointers` a handle to every slot that can be reached from
    /// `binding`: its local variables, its `self`, and those of the scopes
    /// around it, each scope once.
    pub fn push_pointers(&self, binding: RcBinding, pointers: &mut Vec<ObjectPointerPointer>)
        ensures
            final(pointers)@ == old(pointers)@ + binding_pointers(self@, binding),
    {
        let mut current: Option<RcBinding> = if self.contains(binding) {
            Some(binding)
        } else {
            None
        };
        assert(old(pointers)@ + Seq::<ObjectPointerPointer>::empty() =~= old(pointers)@);
        while current.is_some()
            invariant
                current is Some ==> table_contains(self@, current->0),
                old(pointers)@ + binding_pointers(self@, binding) == pointers@ + (match current {
                    Some(scope) => binding_pointers(self@, scope),
                    None => Seq::empty(),
                }),
            decreases
                    (match current {
                        Some(scope) => scope.index + 1,
                        None => 0,
                    }),
        {
            let scope = current.unwrap();
            let ghost before = pointers@;
            let count = self.bindings[scope.index].locals.len();
            let mut index: usize = 0;
            while index < count
                invariant
                    index <= count,
                    pointers@ == before + local_pointers(scope, index as nat),
                decreases count - index,
            {
                pointers.push(ObjectPointerPointer::Local { binding: scope, index });
                index = index + 1;
                assert(pointers@ =~= before + local_pointers(scope, index as nat));
            }
            pointers.push(ObjectPointerPointer::SelfObject { binding: scope });
            current = self.parent(scope);
            proof {
                let own = local_pointers(scope, count as nat).push(
                    ObjectPointerPointer::SelfObject { binding: scope },
                );
                assert(pointers@ =~= before + own);
                match current {
                    Some(parent) => {
                        assert(before + (own + binding_pointers(self@, parent)) =~= (before + own)
                            + binding_pointers(self@, parent));
                    },
                    None => {
                        assert((before + own) + Seq::<ObjectPointerPointer>::empty() =~= before
                            + own);
                    },
                }
            }
        }
        assert(pointers@ + Seq::<ObjectPointerPointer>::empty() =~= pointers@);
    }
}

} // verus!
