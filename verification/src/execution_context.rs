//! Execution contexts: the activation records of a process.
//!
//! A context holds its registers, a handle to the binding it runs in, its
//! code, and the context that called it. The contexts of a process form a
//! stack: a chain of owned parents that ends at the first call.

use crate::binding::{local_of, local_result, table_contains, BindingTable, BindingView};
use crate::compiled_code::RcCompiledCode;
use crate::object_pointer::{ObjectPointer, RcBinding};
use crate::register::{slot_at, slots_after_set, Register};
use vstd::prelude::*;

verus! {

pub struct ExecutionContext {
    /// The registers for this context.
    pub register: Register,
    /// The binding to evaluate this context in.
    pub binding: RcBinding,
    /// The code that this context runs.
    pub code: RcCompiledCode,
    /// The context that called this one.
    pub parent: Option<Box<ExecutionContext>>,
    /// The index of the instruction to run next when the process resumes.
    pub instruction_index: usize,
    /// The register of the caller that takes this context's return value.
    pub return_register: Option<usize>,
}

/// A walk over a context and the contexts that called it, innermost first.
pub struct ExecutionContextIterator<'a> {
    current: Option<&'a ExecutionContext>,
}

/// The context that `hops` applications of `parent` lead to, starting from
/// `start`; nothing where the chain ends before that.
pub open spec fn nth_parent(start: Option<ExecutionContext>, hops: nat) -> Option<ExecutionContext>
    decreases hops,
{
    if hops == 0 {
        start
    } else {
        match nth_parent(start, (hops - 1) as nat) {
            Some(context) => context.spec_parent(),
            None => None,
        }
    }
}

impl ExecutionContext {
    /// The context that called this one.
    pub open spec fn spec_parent(self) -> Option<ExecutionContext> {
        match self.parent {
            Some(parent) => Some(*parent),
            None => None,
        }
    }

    /// The number of contexts above this one.
    pub open spec fn depth(self) -> nat
        decreases self,
    {
        match self.parent {
            Some(parent) => 1 + parent.depth(),
            None => 0,
        }
    }

    /// The context `hops` steps up the chain: this one for 0, its parent
    /// for 1, and so on; nothing where the chain is shorter.
    pub open spec fn ancestor(self, hops: nat) -> Option<ExecutionContext>
        decreases hops,
    {
        if hops == 0 {
            Some(self)
        } else {
            match self.parent {
                Some(parent) => parent.ancestor((hops - 1) as nat),
                None => None,
            }
        }
    }

    /// What [`ExecutionContext::find_parent`] finds: the ancestor `depth`
    /// steps up, a depth of 0 standing for the parent as a depth of 1 does.
    pub open spec fn spec_find_parent(self, depth: usize) -> Option<ExecutionContext> {
        if depth == 0 {
            self.ancestor(1)
        } else {
            self.ancestor(depth as nat)
        }
    }

    /// A context without a parent, at its first instruction, with no
    /// register set.
    pub fn new(binding: RcBinding, code: RcCompiledCode, return_register: Option<usize>) -> (context:
        ExecutionContext)
        ensures
            context.register@ == Seq::<Option<ObjectPointer>>::empty(),
            context.binding == binding,
            context.code == code,
            context.parent is None,
            context.instruction_index == 0,
            context.return_register == return_register,
    {
        ExecutionContext {
            register: Register::new(),
            binding,
            code,
            parent: None,
            instruction_index: 0,
            return_register,
        }
    }

    /// A context that runs in a fresh binding whose `self` is `object`.
    pub fn with_object(
        bindings: &mut BindingTable,
        object: ObjectPointer,
        code: RcCompiledCode,
        return_register: Option<usize>,
    ) -> (context: ExecutionContext)
        ensures
            final(bindings)@ == old(bindings)@.push(
                BindingView { self_object: object, locals: Seq::empty(), parent: None },
            ),
            context.binding.index == old(bindings)@.len(),
            context.register@ == Seq::<Option<ObjectPointer>>::empty(),
            context.code == code,
            context.parent is None,
            context.instruction_index == 0,
            context.return_register == return_register,
    {
        let binding = bindings.add(object);
        ExecutionContext::new(binding, code, return_register)
    }

    /// A context that runs in a fresh binding inside the scope
    /// `parent_binding`, with the `self` of that scope.
    pub fn with_binding(
        bindings: &mut BindingTable,
        parent_binding: RcBinding,
        code: RcCompiledCode,
        return_register: Option<usize>,
    ) -> (context: ExecutionContext)
        requires
            table_contains(old(bindings)@, parent_binding),
        ensures
            final(bindings)@ == old(bindings)@.push(
                BindingView {
                    self_object: old(bindings)@[parent_binding.index as int].self_object,
                    locals: Seq::empty(),
                    parent: Some(parent_binding),
                },
            ),
            context.binding.index == old(bindings)@.len(),
            context.register@ == Seq::<Option<ObjectPointer>>::empty(),
            context.code == code,
            context.parent is None,
            context.instruction_index == 0,
            context.return_register == return_register,
    {
        let object = bindings.self_object(parent_binding);
        let binding = bindings.add_with_parent(object, parent_binding);
        ExecutionContext::new(binding, code, return_register)
    }

    /// Makes `parent` the context that called this one.
    pub fn set_parent(&mut self, parent: Box<ExecutionContext>)
        ensures
            *final(self) == (ExecutionContext { parent: Some(parent), ..*old(self) }),
    {
        self.parent = Some(parent);
    }

    /// The context that called this one.
    pub fn parent(&self) -> (parent: Option<&Box<ExecutionContext>>)
        ensures
            match parent {
                Some(context) => self.spec_parent() == Some(**context),
                None => self.spec_parent() is None,
            },
    {
        self.parent.as_ref()
    }

    /// The parent, for changing it in place.
    pub fn parent_mut(&mut self) -> (parent: Option<&mut Box<ExecutionContext>>)
        ensures
            match parent {
                Some(context) => old(self).parent == Some(*context) && *final(self) == (
                ExecutionContext { parent: Some(*final(context)), ..*old(self) }),
                None => old(self).parent is None && *final(self) == *old(self),
            },
    {
        match &mut self.parent {
            Some(parent) => Some(parent),
            None => None,
        }
    }

    /// The `self` of the binding that this context runs in.
    pub fn self_object(&self, bindings: &BindingTable) -> (pointer: ObjectPointer)
        requires
            table_contains(bindings@, self.binding),
        ensures
            pointer == bindings@[self.binding.index as int].self_object,
    {
        bindings.self_object(self.binding)
    }

    /// The pointer in a register, or nothing where the register is unset.
    pub fn get_register(&self, register: usize) -> (value: Option<ObjectPointer>)
        ensures
            value == slot_at(self.register@, register as int),
    {
        self.register.get(register)
    }

    /// Writes to a register. Nothing else changes.
    pub fn set_register(&mut self, register: usize, value: ObjectPointer)
        ensures
            final(self).register@ == slots_after_set(old(self).register@, register as int, value),
            final(self).binding == old(self).binding,
            final(self).code == old(self).code,
            final(self).parent == old(self).parent,
            final(self).instruction_index == old(self).instruction_index,
            final(self).return_register == old(self).return_register,
    {
        self.register.set(register, value);
    }

    /// The local variable at position `index` of the binding that this
    /// context runs in, or an error that names the position.
    pub fn get_local(&self, bindings: &BindingTable, index: usize) -> (value: Result<
        ObjectPointer,
        String,
    >)
        ensures
            local_result(local_of(bindings@, self.binding, index as int), index, value),
    {
        bindings.get_local(self.binding, index)
    }

    /// Writes to a local variable of the binding that this context runs in.
    pub fn set_local(&self, bindings: &mut BindingTable, index: usize, value: ObjectPointer)
        requires
            table_contains(old(bindings)@, self.binding),
        ensures
            final(bindings)@ == old(bindings)@.update(
                self.binding.index as int,
                BindingView {
                    locals: crate::binding::locals_after_set(
                        old(bindings)@[self.binding.index as int].locals,
                        index as int,
                        value,
                    ),
                    ..old(bindings)@[self.binding.index as int]
                },
            ),
    {
        bindings.set_local(self.binding, index, value);
    }

    /// The handle of the binding that this context runs in.
    pub fn binding(&self) -> (binding: RcBinding)
        ensures
            binding == self.binding,
    {
        self.binding
    }

    /// Finds the context `depth` steps up the chain of parents: the parent
    /// for 1, the parent of the parent for 2. A depth of 0 stands for the
    /// parent too. Returns nothing where the chain is shorter.
    pub fn find_parent(&self, depth: usize) -> (found: Option<&Box<ExecutionContext>>)
        ensures
            match found {
                Some(context) => self.spec_find_parent(depth) == Some(**context),
                None => self.spec_find_parent(depth) is None,
            },
    {
        let hops: usize = if depth == 0 {
            1
        } else {
            depth
        };
        let mut found = self.parent();
        let mut done: usize = 1;
        proof {
            lemma_ancestor_step(*self, 0);
        }
        while done < hops
            invariant
                1 <= done <= hops,
                hops == if depth == 0 {
                    1
                } else {
                    depth
                },
                match found {
                    Some(context) => self.ancestor(done as nat) == Some(**context),
                    None => self.ancestor(done as nat) is None,
                },
            decreases hops - done,
        {
            proof {
                lemma_ancestor_step(*self, done as nat);
            }
            match found {
                Some(context) => {
                    found = context.parent();
                },
                None => {
                    proof {
                        lemma_ancestor_none_stays(*self, done as nat, hops as nat);
                    }
                    return None;
                },
            }
            done = done + 1;
        }
        found
    }

    /// The context `level` steps up the chain: this one for 0, its parent
    /// for 1. Returns nothing where the chain is shorter.
    pub fn ancestor_at(&self, level: usize) -> (found: Option<&ExecutionContext>)
        ensures
            match found {
                Some(context) => self.ancestor(level as nat) == Some(*context),
                None => self.ancestor(level as nat) is None,
            },
        decreases level,
    {
        if level == 0 {
            Some(self)
        } else {
            match &self.parent {
                Some(parent) => parent.ancestor_at(level - 1),
                None => None,
            }
        }
    }

    /// Writes `value` to register `index` of the context `level` steps up
    /// the chain, where that context exists and has the register set, and
    /// returns whether it did. Nothing else changes.
    pub fn rewrite_register_at(&mut self, level: usize, index: usize, value: ObjectPointer) -> (written:
        bool)
        ensures
            written == register_slot(*old(self), level as nat, index as int).is_some(),
            written ==> register_rewritten(
                *old(self),
                *final(self),
                level as nat,
                index as int,
                value,
            ),
            !written ==> *final(self) == *old(self),
        decreases level,
    {
        if level == 0 {
            if self.register.get(index).is_some() {
                self.register.set(index, value);
                true
            } else {
                false
            }
        } else {
            match &mut self.parent {
                Some(parent) => parent.rewrite_register_at(level - 1, index, value),
                None => false,
            }
        }
    }

    /// A walk over this context and the contexts above it.
    pub fn contexts(&self) -> (iterator: ExecutionContextIterator<'_>)
        ensures
            iterator.current() == Some(*self),
    {
        ExecutionContextIterator { current: Some(self) }
    }
}

impl<'a> ExecutionContextIterator<'a> {
    /// The context that the next call of `next` returns.
    pub closed spec fn current(&self) -> Option<ExecutionContext> {
        match self.current {
            Some(context) => Some(*context),
            None => None,
        }
    }

    /// Returns the context that the walk stands at and moves on to its
    /// parent; returns nothing once the walk has passed the last context.
    pub fn next(&mut self) -> (context: Option<&'a ExecutionContext>)
        ensures
            match context {
                Some(context) => old(self).current() == Some(*context),
                None => old(self).current() is None,
            },
            final(self).current() == match old(self).current() {
                Some(context) => context.spec_parent(),
                None => None,
            },
    {
        match self.current {
            Some(context) => {
                match context.parent() {
                    Some(parent) => {
                        self.current = Some(&**parent);
                    },
                    None => {
                        self.current = None;
                    },
                }
                Some(context)
            },
            None => None,
        }
    }
}

/// What register `index` of the context `level` steps above `context`
/// holds, if there is such a context and the register is set.
pub open spec fn register_slot(context: ExecutionContext, level: nat, index: int) -> Option<
    ObjectPointer,
> {
    match context.ancestor(level) {
        Some(found) => slot_at(found.register@, index),
        None => None,
    }
}

/// Whether `after` is `before` with `value` written to register `index` of
/// the context `level` steps up: that register holds `value`, and every
/// other part of every context of the chain is as it was.
pub open spec fn register_rewritten(
    before: ExecutionContext,
    after: ExecutionContext,
    level: nat,
    index: int,
    value: ObjectPointer,
) -> bool
    decreases level,
{
    &&& after.binding == before.binding
    &&& after.code == before.code
    &&& after.instruction_index == before.instruction_index
    &&& after.return_register == before.return_register
    &&& if level == 0 {
        &&& 0 <= index < before.register@.len()
        &&& after.register@ == before.register@.update(index, Some(value))
        &&& after.parent == before.parent
    } else {
        &&& after.register == before.register
        &&& before.parent is Some
        &&& after.parent is Some
        &&& register_rewritten(
            *before.parent->0,
            *after.parent->0,
            (level - 1) as nat,
            index,
            value,
        )
    }
}

/// After a register was rewritten, the chain has the contexts it had,
/// each in the binding it was in and with the registers it had, but for
/// the rewritten register, which holds the new value.
pub proof fn lemma_register_rewritten(
    before: ExecutionContext,
    after: ExecutionContext,
    level: nat,
    index: int,
    value: ObjectPointer,
    other: nat,
)
    requires
        register_rewritten(before, after, level, index, value),
    ensures
        after.depth() == before.depth(),
        before.ancestor(other) is Some <==> after.ancestor(other) is Some,
        before.ancestor(other) is Some ==> {
            &&& after.ancestor(other)->0.binding == before.ancestor(other)->0.binding
            &&& after.ancestor(other)->0.register@ == if other == level {
                before.ancestor(other)->0.register@.update(index, Some(value))
            } else {
                before.ancestor(other)->0.register@
            }
        },
        before.ancestor(level) is Some,
        0 <= index < before.ancestor(level)->0.register@.len(),
    decreases level, other,
{
    if level == 0 {
        if other > 0 {
            assert(after.parent == before.parent);
        }
    } else {
        let below = *before.parent->0;
        let below_after = *after.parent->0;
        if other > 0 {
            lemma_register_rewritten(
                below,
                below_after,
                (level - 1) as nat,
                index,
                value,
                (other - 1) as nat,
            );
        } else {
            lemma_register_rewritten(below, below_after, (level - 1) as nat, index, value, 0);
        }
        lemma_register_rewritten(
            below,
            below_after,
            (level - 1) as nat,
            index,
            value,
            (level - 1) as nat,
        );
    }
}

/// One more step up the chain is the parent of where the steps so far led.
pub proof fn lemma_ancestor_step(context: ExecutionContext, hops: nat)
    ensures
        context.ancestor(hops + 1) == match context.ancestor(hops) {
            Some(found) => found.spec_parent(),
            None => None,
        },
    decreases hops,
{
    match context.parent {
        Some(parent) => {
            if hops > 0 {
                lemma_ancestor_step(*parent, (hops - 1) as nat);
            } else {
                assert(parent.ancestor(0) == Some(*parent));
            }
        },
        None => {},
    }
}

/// Where the chain has ended, it has ended for every greater number of
/// steps.
pub proof fn lemma_ancestor_none_stays(context: ExecutionContext, hops: nat, more: nat)
    requires
        context.ancestor(hops) is None,
        hops <= more,
    ensures
        context.ancestor(more) is None,
    decreases more - hops,
{
    if hops < more {
        lemma_ancestor_step(context, hops);
        lemma_ancestor_none_stays(context, hops + 1, more);
    }
}

/// The chain reaches `hops` steps up exactly where the context has at
/// least `hops` contexts above it.
pub proof fn lemma_ancestor_depth(context: ExecutionContext, hops: nat)
    ensures
        context.ancestor(hops) is Some <==> hops <= context.depth(),
    decreases hops,
{
    if hops > 0 {
        match context.parent {
            Some(parent) => {
                lemma_ancestor_depth(*parent, (hops - 1) as nat);
            },
            None => {},
        }
    }
}

/// Steps up the chain are applications of `parent`.
pub proof fn lemma_ancestor_is_nth_parent(context: ExecutionContext, hops: nat)
    ensures
        context.ancestor(hops) == nth_parent(Some(context), hops),
        context.ancestor(hops + 1) == nth_parent(context.spec_parent(), hops),
    decreases hops,
{
    lemma_ancestor_step(context, hops);
    if hops > 0 {
        lemma_ancestor_is_nth_parent(context, (hops - 1) as nat);
        lemma_ancestor_step(context, (hops - 1) as nat);
    }
}

/// What `find_parent` finds for a depth of at least 1 is what `depth`
/// applications of `parent` lead to, starting from the context itself, which
/// is what `depth - 1` applications lead to, starting from the parent of the
/// context; for a depth of 0 it is the parent. It finds nothing exactly
/// where the context has fewer contexts above it than that.
pub proof fn lemma_find_parent_bounds(context: ExecutionContext, depth: usize)
    ensures
        depth >= 1 ==> context.spec_find_parent(depth) == nth_parent(Some(context), depth as nat),
        depth >= 1 ==> context.spec_find_parent(depth) == nth_parent(
            context.spec_parent(),
            (depth - 1) as nat,
        ),
        depth == 0 ==> context.spec_find_parent(depth) == context.spec_parent(),
        depth >= 1 ==> (context.spec_find_parent(depth) is None <==> context.depth() < depth),
        depth == 0 ==> (context.spec_find_parent(depth) is None <==> context.depth() < 1),
{
    if depth >= 1 {
        lemma_ancestor_is_nth_parent(context, (depth - 1) as nat);
        lemma_ancestor_is_nth_parent(context, depth as nat);
        lemma_ancestor_depth(context, depth as nat);
    } else {
        lemma_ancestor_is_nth_parent(context, 0);
        lemma_ancestor_depth(context, 1);
    }
}

} // verus!
