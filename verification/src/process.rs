//! Processes: lightweight actors with a private heap, a mailbox and a stack
//! of execution contexts.
//!
//! A process as it stands here is the state that one thread at a time works
//! on. Whoever shares a process between threads keeps it behind a lock, and
//! wakes the threads that wait for its status after every call that may
//! change the status.

use crate::binding::{
    binding_pointers, in_scope_chain, lemma_binding_pointers_complete,
    lemma_binding_pointers_keep, local_of, local_result, locals_after_set, parent_of, same_shape,
    table_contains, BindingTable, BindingView,
};
use crate::call_frame::CallFrame;
use crate::compiled_code::RcCompiledCode;
use crate::execution_context::{
    lemma_ancestor_depth, lemma_ancestor_step, lemma_register_rewritten, register_rewritten,
    register_slot, ExecutionContext,
};
use crate::immix::bucket::{blocks_for, Bucket};
use crate::immix::copy_object::is_copy;
use crate::immix::local_allocator::{
    LocalAllocator, MATURE_BLOCK_THRESHOLD, YOUNG_BLOCK_THRESHOLD,
};
use crate::immix::mailbox_allocator::MailboxAllocator;
use crate::message::{decimal_digits, message_with_index};
use crate::object::ObjectView;
use crate::object_pointer::{ObjectPointer, ObjectPointerPointer, RcBinding, MAX_OBJECTS};
use crate::object_value::{ObjectValue, ObjectValueView};
use crate::queue::Queue;
use crate::register::{
    lemma_register_pointers_complete, lemma_register_pointers_keep, register_pointers, slot_at,
    slots_after_set,
};
use crate::work_deque::{new_worker, worker_items, worker_push, worker_try_pop};
use std::collections::HashSet;
use vstd::prelude::*;
use vstd::std_specs::cmp::PartialEqSpecImpl;

verus! {

broadcast use vstd::std_specs::hash::group_hash_axioms;

#[derive(Debug, Clone, Copy, PartialEq, Eq, Structural)]
pub enum ProcessStatus {
    /// The process has been scheduled for execution.
    Scheduled,
    /// The process is running.
    Running,
    /// The process has been suspended.
    Suspended,
    /// The process has been suspended by the garbage collector.
    SuspendedByGc,
    /// The process ran into some kind of error during execution.
    Failed,
    /// The process has finished execution.
    Finished,
}

impl ProcessStatus {
    /// Whether this is the status of a process that runs.
    pub fn is_running(&self) -> (answer: bool)
        ensures
            answer == (*self == ProcessStatus::Running),
    {
        match *self {
            ProcessStatus::Running => true,
            _ => false,
        }
    }
}

#[derive(Debug, Clone, Copy, PartialEq, Eq, Structural)]
pub enum GcState {
    /// No collector activity is taking place.
    Idle,
    /// A collection has been scheduled.
    Scheduled,
}

/// The part of a process that only the thread that runs it, or the
/// collector while the process is suspended, may touch.
pub struct LocalData {
    /// The process-local memory allocator.
    pub allocator: LocalAllocator,
    /// The current call frame of this process.
    pub call_frame: CallFrame,
    /// The current execution context of this process.
    pub context: Box<ExecutionContext>,
    /// The bindings that the contexts of this process run in.
    pub bindings: BindingTable,
    /// The state of the garbage collector for this process.
    pub gc_state: GcState,
    /// When set, the process is to suspend itself at its next safe point so
    /// that it can be garbage collected.
    pub suspend_for_gc: bool,
    /// The words of the mature pointers that were written a young pointer
    /// to. The collector looks at it only while the process is suspended.
    pub remembered_set: HashSet<usize>,
}

pub struct Process {
    /// The process identifier of this process.
    pub pid: usize,
    /// The status of this process.
    pub status: ProcessStatus,
    /// A queue containing received messages.
    pub mailbox: Queue<ObjectPointer>,
    /// The allocator to use for storing objects in the mailbox heap.
    pub mailbox_allocator: MailboxAllocator,
    /// Data that only a single thread at a time may modify.
    pub local_data: LocalData,
}

/// Two processes are equal where they have the same identifier.
impl PartialEq for Process {
    fn eq(&self, other: &Process) -> (equal: bool) {
        self.pid == other.pid
    }
}

impl PartialEqSpecImpl for Process {
    open spec fn obeys_eq_spec() -> bool {
        true
    }

    open spec fn eq_spec(&self, other: &Process) -> bool {
        self.pid == other.pid
    }
}

/// Whether `context` and every context above it runs in a binding of
/// `table`.
pub open spec fn contexts_bound(table: Seq<BindingView>, context: ExecutionContext) -> bool
    decreases context,
{
    table_contains(table, context.binding) && match context.parent {
        Some(parent) => contexts_bound(table, *parent),
        None => true,
    }
}

/// What a status becomes when a worker asks for `new_status` while
/// `suspend_for_gc` stands as given: a suspension by the collector is never
/// overwritten, and a request of the collector takes the place of the
/// status asked for.
pub open spec fn status_after_request(
    status: ProcessStatus,
    suspend_for_gc: bool,
    new_status: ProcessStatus,
) -> ProcessStatus {
    if status == ProcessStatus::SuspendedByGc {
        ProcessStatus::SuspendedByGc
    } else if suspend_for_gc {
        ProcessStatus::SuspendedByGc
    } else {
        new_status
    }
}

/// A status is one value: no process is running and suspended by the
/// collector at once, whoever looks.
pub proof fn lemma_status_exclusive(status: ProcessStatus)
    ensures
        !(status == ProcessStatus::Running && status == ProcessStatus::SuspendedByGc),
{
}

/// A worker cannot take a process out of a suspension by the collector, and
/// cannot miss a request of the collector: whatever status it asks for,
/// the process is suspended by the collector afterwards in both cases.
pub proof fn lemma_worker_cannot_overwrite_collector(
    status: ProcessStatus,
    suspend_for_gc: bool,
    new_status: ProcessStatus,
)
    requires
        status == ProcessStatus::SuspendedByGc || suspend_for_gc,
    ensures
        status_after_request(status, suspend_for_gc, new_status) == ProcessStatus::SuspendedByGc,
{
}

impl Process {
    /// Whether every context of the process runs in a binding of the
    /// process.
    pub open spec fn wf(&self) -> bool {
        contexts_bound(self.local_data.bindings@, *self.local_data.context)
    }

    /// The handles that [`Process::roots`] returns.
    pub open spec fn spec_roots(&self) -> Seq<ObjectPointerPointer> {
        roots_from(self.local_data.bindings@, *self.local_data.context, 0)
    }

    /// The pointer in the slot that `handle` names, where the process has
    /// such a slot.
    pub open spec fn spec_slot(&self, handle: ObjectPointerPointer) -> Option<ObjectPointer> {
        slot_value(self.local_data.bindings@, *self.local_data.context, handle)
    }

    /// The pointers in the remembered set.
    pub open spec fn remembered(&self) -> Set<ObjectPointer> {
        Set::new(|pointer: ObjectPointer| self.local_data.remembered_set@.contains(pointer.raw))
    }

    /// A process that is scheduled, with an empty heap and an empty
    /// mailbox, and no collection under way.
    pub fn new(pid: usize, call_frame: CallFrame, context: ExecutionContext, bindings: BindingTable) -> (process:
        Process)
        requires
            contexts_bound(bindings@, context),
        ensures
            process.wf(),
            process.pid == pid,
            process.status == ProcessStatus::Scheduled,
            process.mailbox@ == Seq::<ObjectPointer>::empty(),
            process.mailbox_allocator@ == Seq::<ObjectView>::empty(),
            process.local_data.allocator.young() == Seq::<ObjectView>::empty(),
            process.local_data.allocator.mature() == Seq::<ObjectView>::empty(),
            process.local_data.call_frame == call_frame,
            *process.local_data.context == context,
            process.local_data.bindings == bindings,
            process.local_data.gc_state == GcState::Idle,
            !process.local_data.suspend_for_gc,
            process.local_data.remembered_set@ == Set::<usize>::empty(),
    {
        let local_data = LocalData {
            allocator: LocalAllocator::new(),
            call_frame,
            context: Box::new(context),
            bindings,
            gc_state: GcState::Idle,
            suspend_for_gc: false,
            remembered_set: HashSet::new(),
        };
        Process {
            pid,
            status: ProcessStatus::Scheduled,
            mailbox: Queue::new(),
            mailbox_allocator: MailboxAllocator::new(),
            local_data,
        }
    }

    /// A process that is about to run `code` with `self_obj` as `self`.
    pub fn from_code(pid: usize, code: RcCompiledCode, self_obj: ObjectPointer) -> (process: Process)
        ensures
            process.wf(),
            process.pid == pid,
            process.status == ProcessStatus::Scheduled,
            process.mailbox@ == Seq::<ObjectPointer>::empty(),
            process.mailbox_allocator@ == Seq::<ObjectView>::empty(),
            process.local_data.allocator.young() == Seq::<ObjectView>::empty(),
            process.local_data.allocator.mature() == Seq::<ObjectView>::empty(),
            process.local_data.gc_state == GcState::Idle,
            !process.local_data.suspend_for_gc,
            process.local_data.remembered_set@ == Set::<usize>::empty(),
            process.local_data.bindings@ == seq![
                BindingView { self_object: self_obj, locals: Seq::empty(), parent: None },
            ],
            process.local_data.context.binding.index == 0,
            process.local_data.context.parent is None,
            process.local_data.context.register@ == Seq::<Option<ObjectPointer>>::empty(),
            process.local_data.context.code == code,
            process.local_data.context.instruction_index == 0,
            process.local_data.context.return_register is None,
            process.local_data.call_frame.code == code,
            process.local_data.call_frame.line == code.line,
            process.local_data.call_frame.parent is None,
    {
        let frame = CallFrame::from_code(code.clone());
        let mut bindings = BindingTable::new();
        let context = ExecutionContext::with_object(&mut bindings, self_obj, code, None);
        assert(bindings@ =~= seq![
            BindingView { self_object: self_obj, locals: Seq::empty(), parent: None },
        ]);
        Process::new(pid, frame, context, bindings)
    }

    /// Whether every context of the process runs in a binding of the
    /// process, as the functions that read or write `self` and the local
    /// variables ask for.
    pub fn is_bound(&self) -> (answer: bool)
        ensures
            answer == self.wf(),
    {
        let ghost table = self.local_data.bindings@;
        let ghost top = *self.local_data.context;
        let mut walk = self.local_data.context.contexts();
        let ghost mut level: nat = 0;
        loop
            invariant
                table == self.local_data.bindings@,
                top == *self.local_data.context,
                walk.current() == top.ancestor(level),
                forall|l: nat|
                    l < level ==> (#[trigger] top.ancestor(l) is Some ==> table_contains(
                        table,
                        top.ancestor(l)->0.binding,
                    )),
            decreases top.depth() + 1 - level,
        {
            proof {
                lemma_ancestor_depth(top, level);
                lemma_ancestor_step(top, level);
                lemma_bound_from_top(table, top, 0);
            }
            match walk.next() {
                Some(context) => {
                    if !self.local_data.bindings.contains(context.binding) {
                        return false;
                    }
                },
                None => {
                    proof {
                        assert forall|l: nat| #[trigger] top.ancestor(l) is Some implies table_contains(
                            table,
                            top.ancestor(l)->0.binding,
                        ) by {
                            if l >= level {
                                crate::execution_context::lemma_ancestor_none_stays(top, level, l);
                            }
                        }
                    }
                    return true;
                },
            }
            proof {
                level = level + 1;
            }
        }
    }

    /// The data that only one thread at a time may touch.
    pub fn local_data(&self) -> (data: &LocalData)
        ensures
            *data == self.local_data,
    {
        &self.local_data
    }

    /// The data that only one thread at a time may touch, for changing it.
    pub fn local_data_mut(&mut self) -> (data: &mut LocalData)
        ensures
            *data == old(self).local_data,
            *final(self) == (Process { local_data: *final(data), ..*old(self) }),
    {
        &mut self.local_data
    }

    /// Whether the process is suspended, and so is to be scheduled again.
    pub fn should_be_rescheduled(&self) -> (answer: bool)
        ensures
            answer == (self.status == ProcessStatus::Suspended),
    {
        match self.status {
            ProcessStatus::Suspended => true,
            _ => false,
        }
    }

    /// Whether the process has neither failed nor finished.
    pub fn is_alive(&self) -> (answer: bool)
        ensures
            answer == (self.status != ProcessStatus::Failed && self.status
                != ProcessStatus::Finished),
    {
        match self.status {
            ProcessStatus::Failed => false,
            ProcessStatus::Finished => false,
            _ => true,
        }
    }

    /// Whether a worker can pick the process up: it is scheduled or
    /// suspended.
    pub fn available_for_execution(&self) -> (answer: bool)
        ensures
            answer == (self.status == ProcessStatus::Scheduled || self.status
                == ProcessStatus::Suspended),
    {
        match self.status {
            ProcessStatus::Scheduled => true,
            ProcessStatus::Suspended => true,
            _ => false,
        }
    }

    /// Marks the process as running.
    pub fn running(&mut self)
        ensures
            *final(self) == (Process { status: ProcessStatus::Running, ..*old(self) }),
    {
        self.set_status(ProcessStatus::Running);
    }

    /// Gives the process the status `new_status`, whatever its status was.
    pub fn set_status(&mut self, new_status: ProcessStatus)
        ensures
            *final(self) == (Process { status: new_status, ..*old(self) }),
    {
        self.status = new_status;
    }

    /// Gives the process the status that a worker asks for, unless the
    /// collector has a say: a process that the collector has suspended stays
    /// as it is, and a process that the collector has asked to suspend
    /// becomes suspended by the collector instead, which clears the request.
    /// Returns whether the process was written to, that is, whether those
    /// who wait for a change of status are to be woken.
    pub fn set_status_without_overwriting_gc_status(&mut self, new_status: ProcessStatus) -> (changed:
        bool)
        ensures
            changed == (old(self).status != ProcessStatus::SuspendedByGc),
            final(self).status == status_after_request(
                old(self).status,
                old(self).local_data.suspend_for_gc,
                new_status,
            ),
            final(self).local_data.suspend_for_gc == (old(self).status
                == ProcessStatus::SuspendedByGc && old(self).local_data.suspend_for_gc),
            *final(self) == (Process {
                status: final(self).status,
                local_data: LocalData {
                    suspend_for_gc: final(self).local_data.suspend_for_gc,
                    ..old(self).local_data
                },
                ..*old(self)
            }),
    {
        let overwrite = match self.status {
            ProcessStatus::SuspendedByGc => false,
            _ => true,
        };
        if overwrite {
            if self.local_data.suspend_for_gc {
                self.local_data.suspend_for_gc = false;
                self.status = ProcessStatus::SuspendedByGc;
            } else {
                self.status = new_status;
            }
        }
        overwrite
    }

    /// Marks the process as finished, unless the collector has a say.
    /// Returns whether the process was written to.
    pub fn finished(&mut self) -> (changed: bool)
        ensures
            changed == (old(self).status != ProcessStatus::SuspendedByGc),
            final(self).status == status_after_request(
                old(self).status,
                old(self).local_data.suspend_for_gc,
                ProcessStatus::Finished,
            ),
            final(self).local_data.suspend_for_gc == (old(self).status
                == ProcessStatus::SuspendedByGc && old(self).local_data.suspend_for_gc),
            *final(self) == (Process {
                status: final(self).status,
                local_data: LocalData {
                    suspend_for_gc: final(self).local_data.suspend_for_gc,
                    ..old(self).local_data
                },
                ..*old(self)
            }),
    {
        self.set_status_without_overwriting_gc_status(ProcessStatus::Finished)
    }

    /// Marks the process as suspended, unless the collector has a say.
    /// Returns whether the process was written to.
    pub fn suspend(&mut self) -> (changed: bool)
        ensures
            changed == (old(self).status != ProcessStatus::SuspendedByGc),
            final(self).status == status_after_request(
                old(self).status,
                old(self).local_data.suspend_for_gc,
                ProcessStatus::Suspended,
            ),
            final(self).local_data.suspend_for_gc == (old(self).status
                == ProcessStatus::SuspendedByGc && old(self).local_data.suspend_for_gc),
            *final(self) == (Process {
                status: final(self).status,
                local_data: LocalData {
                    suspend_for_gc: final(self).local_data.suspend_for_gc,
                    ..old(self).local_data
                },
                ..*old(self)
            }),
    {
        self.set_status_without_overwriting_gc_status(ProcessStatus::Suspended)
    }

    /// Suspends the process for the collector: the request of the collector
    /// is honoured, so it is cleared.
    pub fn suspend_for_gc(&mut self)
        ensures
            *final(self) == (Process {
                status: ProcessStatus::SuspendedByGc,
                local_data: LocalData { suspend_for_gc: false, ..old(self).local_data },
                ..*old(self)
            }),
    {
        self.local_data.suspend_for_gc = false;
        self.set_status(ProcessStatus::SuspendedByGc);
    }

    /// Whether the collector has suspended the process.
    pub fn suspended_by_gc(&self) -> (answer: bool)
        ensures
            answer == (self.status == ProcessStatus::SuspendedByGc),
    {
        match self.status {
            ProcessStatus::SuspendedByGc => true,
            _ => false,
        }
    }

    /// Asks the process to suspend itself for the collector, unless the
    /// collector has suspended it already. Returns whether the caller has
    /// to wait: the process is still running.
    pub fn request_gc_suspension(&mut self) -> (wait: bool)
        ensures
            wait == (old(self).status == ProcessStatus::Running),
            *final(self) == (Process {
                local_data: LocalData {
                    suspend_for_gc: old(self).local_data.suspend_for_gc || old(self).status
                        != ProcessStatus::SuspendedByGc,
                    ..old(self).local_data
                },
                ..*old(self)
            }),
    {
        if !self.suspended_by_gc() {
            self.local_data.suspend_for_gc = true;
        }
        self.wait_while_running()
    }

    /// Whether one who waits for the process to stop running has to go on
    /// waiting.
    pub fn wait_while_running(&self) -> (wait: bool)
        ensures
            wait == (self.status == ProcessStatus::Running),
    {
        self.status.is_running()
    }

    /// Whether the process is to suspend itself for the collector at this
    /// safe point.
    pub fn should_suspend_for_gc(&self) -> (answer: bool)
        ensures
            answer == (self.status == ProcessStatus::SuspendedByGc
                || self.local_data.suspend_for_gc),
    {
        self.suspended_by_gc() || self.local_data.suspend_for_gc
    }

    /// The state of the collector for this process.
    pub fn gc_state(&self) -> (state: &GcState)
        ensures
            *state == self.local_data.gc_state,
    {
        &self.local_data.gc_state
    }

    /// Sets the state of the collector for this process.
    pub fn set_gc_state(&mut self, new_state: GcState)
        ensures
            *final(self) == (Process {
                local_data: LocalData { gc_state: new_state, ..old(self).local_data },
                ..*old(self)
            }),
    {
        self.local_data.gc_state = new_state;
    }

    /// Records that a collection has been scheduled.
    pub fn gc_scheduled(&mut self)
        ensures
            *final(self) == (Process {
                local_data: LocalData { gc_state: GcState::Scheduled, ..old(self).local_data },
                ..*old(self)
            }),
    {
        self.set_gc_state(GcState::Scheduled);
    }

    /// Whether a collection is to be scheduled: none is under way and the
    /// young generation has grown past its threshold.
    pub fn should_schedule_gc(&self) -> (answer: bool)
        ensures
            answer == (self.local_data.gc_state == GcState::Idle && blocks_for(
                self.local_data.allocator.young().len(),
            ) >= YOUNG_BLOCK_THRESHOLD),
    {
        match self.local_data.gc_state {
            GcState::Idle => self.should_collect_young_generation(),
            _ => false,
        }
    }

    /// Whether the young generation has grown past its threshold.
    pub fn should_collect_young_generation(&self) -> (answer: bool)
        ensures
            answer == (blocks_for(self.local_data.allocator.young().len())
                >= YOUNG_BLOCK_THRESHOLD),
    {
        self.local_data.allocator.young_block_allocation_threshold_exceeded()
    }

    /// Whether the mature generation has grown past its threshold.
    pub fn should_collect_mature_generation(&self) -> (answer: bool)
        ensures
            answer == (blocks_for(self.local_data.allocator.mature().len())
                >= MATURE_BLOCK_THRESHOLD),
    {
        self.local_data.allocator.mature_block_allocation_threshold_exceeded()
    }

    /// Puts the process back among the scheduled ones once a collection is
    /// over.
    pub fn reset_status(&mut self)
        ensures
            *final(self) == (Process {
                status: ProcessStatus::Scheduled,
                local_data: LocalData { gc_state: GcState::Idle, ..old(self).local_data },
                ..*old(self)
            }),
    {
        self.set_status(ProcessStatus::Scheduled);
        self.set_gc_state(GcState::Idle);
    }

    /// Makes `frame` the current call frame, on top of the one that was
    /// current.
    pub fn push_call_frame(&mut self, frame: CallFrame)
        ensures
            *final(self) == (Process {
                local_data: LocalData {
                    call_frame: CallFrame {
                        parent: Some(Box::new(old(self).local_data.call_frame)),
                        ..frame
                    },
                    ..old(self).local_data
                },
                ..*old(self)
            }),
    {
        let mut frame = frame;
        std::mem::swap(&mut self.local_data.call_frame, &mut frame);
        self.local_data.call_frame.set_parent(frame);
    }

    /// Goes back to the call frame below the current one. The last call
    /// frame stays.
    pub fn pop_call_frame(&mut self)
        ensures
            *final(self) == (Process {
                local_data: LocalData {
                    call_frame: match old(self).local_data.call_frame.parent {
                        Some(parent) => *parent,
                        None => old(self).local_data.call_frame,
                    },
                    ..old(self).local_data
                },
                ..*old(self)
            }),
    {
        match self.local_data.call_frame.parent.take() {
            Some(parent) => {
                self.local_data.call_frame = *parent;
            },
            None => {},
        }
    }

    /// Makes `context` the current context, on top of the one that was
    /// current.
    pub fn push_context(&mut self, context: ExecutionContext)
        requires
            old(self).wf(),
            table_contains(old(self).local_data.bindings@, context.binding),
        ensures
            final(self).wf(),
            *final(self) == (Process {
                local_data: LocalData {
                    context: Box::new(
                        ExecutionContext { parent: Some(old(self).local_data.context), ..context },
                    ),
                    ..old(self).local_data
                },
                ..*old(self)
            }),
    {
        let mut boxed = Box::new(context);
        std::mem::swap(&mut self.local_data.context, &mut boxed);
        self.local_data.context.set_parent(boxed);
    }

    /// Goes back to the context below the current one. The last context
    /// stays.
    pub fn pop_context(&mut self)
        requires
            old(self).wf(),
        ensures
            final(self).wf(),
            *final(self) == (Process {
                local_data: LocalData {
                    context: match old(self).local_data.context.parent {
                        Some(parent) => parent,
                        None => old(self).local_data.context,
                    },
                    ..old(self).local_data
                },
                ..*old(self)
            }),
    {
        match self.local_data.context.parent.take() {
            Some(parent) => {
                self.local_data.context = parent;
            },
            None => {},
        }
    }

    /// The pointer in a register of the current context, or an error that
    /// names the register where it is unset.
    pub fn get_register(&self, register: usize) -> (value: Result<ObjectPointer, String>)
        ensures
            match slot_at(self.local_data.context.register@, register as int) {
                Some(pointer) => value == Ok::<ObjectPointer, String>(pointer),
                None => value is Err && value->Err_0@ == "Undefined object in register "@
                    + decimal_digits(register),
            },
    {
        match self.local_data.context.get_register(register) {
            Some(pointer) => Ok(pointer),
            None => Err(message_with_index("Undefined object in register ", register)),
        }
    }

    /// The pointer in a register of the current context, or nothing where
    /// it is unset.
    pub fn get_register_option(&self, register: usize) -> (value: Option<ObjectPointer>)
        ensures
            value == slot_at(self.local_data.context.register@, register as int),
    {
        self.local_data.context.get_register(register)
    }

    /// Writes to a register of the current context. Nothing else changes.
    pub fn set_register(&mut self, register: usize, value: ObjectPointer)
        ensures
            final(self).local_data.context.register@ == slots_after_set(
                old(self).local_data.context.register@,
                register as int,
                value,
            ),
            *final(self) == (Process {
                local_data: LocalData {
                    context: Box::new(
                        ExecutionContext {
                            register: final(self).local_data.context.register,
                            ..*old(self).local_data.context
                        },
                    ),
                    ..old(self).local_data
                },
                ..*old(self)
            }),
    {
        self.local_data.context.set_register(register, value);
    }

    /// Writes to a local variable of the binding of the current context.
    /// Nothing else changes.
    pub fn set_local(&mut self, index: usize, value: ObjectPointer)
        requires
            old(self).wf(),
        ensures
            final(self).wf(),
            final(self).local_data.bindings@ == old(self).local_data.bindings@.update(
                old(self).local_data.context.binding.index as int,
                BindingView {
                    locals: locals_after_set(
                        old(self).local_data.bindings@[old(self).local_data.context.binding.index as int].locals,
                        index as int,
                        value,
                    ),
                    ..old(self).local_data.bindings@[old(self).local_data.context.binding.index as int]
                },
            ),
            *final(self) == (Process {
                local_data: LocalData {
                    bindings: final(self).local_data.bindings,
                    ..old(self).local_data
                },
                ..*old(self)
            }),
    {
        let binding = self.local_data.context.binding;
        self.local_data.bindings.set_local(binding, index, value);
        proof {
            lemma_contexts_stay_bound(
                old(self).local_data.bindings@,
                self.local_data.bindings@,
                *self.local_data.context,
            );
        }
    }

    /// The local variable at position `index` of the binding of the current
    /// context, or an error that names the position.
    pub fn get_local(&self, index: usize) -> (value: Result<ObjectPointer, String>)
        ensures
            local_result(
                local_of(self.local_data.bindings@, self.local_data.context.binding, index as int),
                index,
                value,
            ),
    {
        self.local_data.context.get_local(&self.local_data.bindings, index)
    }

    /// Whether the binding of the current context has a local variable at
    /// position `index`.
    pub fn local_exists(&self, index: usize) -> (answer: bool)
        ensures
            answer == local_of(
                self.local_data.bindings@,
                self.local_data.context.binding,
                index as int,
            ).is_some(),
    {
        self.local_data.bindings.local_exists(self.local_data.context.binding, index)
    }

    /// Whether the young generation can take one more object.
    pub fn can_allocate(&self) -> (answer: bool)
        ensures
            answer == (self.local_data.allocator.young().len() < MAX_OBJECTS),
    {
        self.local_data.allocator.has_room()
    }

    /// Allocates an object without prototype, attributes and payload in the
    /// young generation.
    pub fn allocate_empty(&mut self) -> (pointer: ObjectPointer)
        requires
            old(self).local_data.allocator.young().len() < MAX_OBJECTS,
        ensures
            pointer.spec_is_young(),
            pointer.spec_index() == old(self).local_data.allocator.young().len(),
            final(self).local_data.allocator.young() == old(self).local_data.allocator.young().push(
                ObjectView {
                    prototype: None,
                    attributes: Seq::empty(),
                    value: ObjectValueView::Empty,
                },
            ),
            final(self).local_data.allocator.mature() == old(self).local_data.allocator.mature(),
            *final(self) == (Process {
                local_data: LocalData {
                    allocator: final(self).local_data.allocator,
                    ..old(self).local_data
                },
                ..*old(self)
            }),
    {
        self.local_data.allocator.allocate_empty()
    }

    /// Allocates an object with the given payload and prototype in the
    /// young generation.
    pub fn allocate(&mut self, value: ObjectValue, proto: ObjectPointer) -> (pointer: ObjectPointer)
        requires
            old(self).local_data.allocator.young().len() < MAX_OBJECTS,
        ensures
            pointer.spec_is_young(),
            pointer.spec_index() == old(self).local_data.allocator.young().len(),
            final(self).local_data.allocator.young() == old(self).local_data.allocator.young().push(
                ObjectView { prototype: Some(proto), attributes: Seq::empty(), value: value@ },
            ),
            final(self).local_data.allocator.mature() == old(self).local_data.allocator.mature(),
            *final(self) == (Process {
                local_data: LocalData {
                    allocator: final(self).local_data.allocator,
                    ..old(self).local_data
                },
                ..*old(self)
            }),
    {
        self.local_data.allocator.allocate_with_prototype(value, proto)
    }

    /// Allocates an object with the given payload and without a prototype
    /// in the young generation.
    pub fn allocate_without_prototype(&mut self, value: ObjectValue) -> (pointer: ObjectPointer)
        requires
            old(self).local_data.allocator.young().len() < MAX_OBJECTS,
        ensures
            pointer.spec_is_young(),
            pointer.spec_index() == old(self).local_data.allocator.young().len(),
            final(self).local_data.allocator.young() == old(self).local_data.allocator.young().push(
                ObjectView { prototype: None, attributes: Seq::empty(), value: value@ },
            ),
            final(self).local_data.allocator.mature() == old(self).local_data.allocator.mature(),
            *final(self) == (Process {
                local_data: LocalData {
                    allocator: final(self).local_data.allocator,
                    ..old(self).local_data
                },
                ..*old(self)
            }),
    {
        self.local_data.allocator.allocate_without_prototype(value)
    }

    /// Sends a message to this process. `sender` is the heap of the process
    /// that sends it.
    ///
    /// A message that is local to the sender is copied into the mailbox
    /// heap of this process, with all that it reaches in the heap of the
    /// sender, and the pointer to the copy is put at the end of the mailbox.
    /// Any other message is put at the end of the mailbox as it is.
    pub fn send_message(&mut self, sender: &LocalAllocator, message: ObjectPointer)
        requires
            old(self).mailbox_allocator@.len() + sender.young().len() + sender.mature().len()
                <= MAX_OBJECTS,
        ensures
            final(self).mailbox@.len() == old(self).mailbox@.len() + 1,
            final(self).mailbox@.drop_last() == old(self).mailbox@,
            forall|depth: nat|
                is_copy(
                    *sender,
                    final(self).mailbox_allocator@,
                    message,
                    final(self).mailbox@.last(),
                    depth,
                ),
            old(self).mailbox_allocator@.is_prefix_of(final(self).mailbox_allocator@),
            sender.object_at(message) is None ==> final(self).mailbox_allocator@ == old(self).mailbox_allocator@,
            sender.object_at(message) is Some ==> final(self).mailbox@.last().spec_index() == old(self).mailbox_allocator@.len(),
            *final(self) == (Process {
                mailbox: final(self).mailbox,
                mailbox_allocator: final(self).mailbox_allocator,
                ..*old(self)
            }),
    {
        let mut to_send = message;
        if to_send.is_local() {
            to_send = self.mailbox_allocator.copy_object(sender, to_send);
        } else {
            assert forall|depth: nat|
                is_copy(*sender, self.mailbox_allocator@, message, to_send, depth) by {}
        }
        self.mailbox.push(to_send);
        assert(self.mailbox@.drop_last() =~= old(self).mailbox@);
    }

    /// Sends a message from this process to itself: as
    /// [`Process::send_message`], with the heap of this process as the heap
    /// of the sender.
    pub fn send_message_to_self(&mut self, message: ObjectPointer)
        requires
            old(self).mailbox_allocator@.len() + old(self).local_data.allocator.young().len() + old(self).local_data.allocator.mature().len() <= MAX_OBJECTS,
        ensures
            final(self).mailbox@.len() == old(self).mailbox@.len() + 1,
            final(self).mailbox@.drop_last() == old(self).mailbox@,
            forall|depth: nat|
                is_copy(
                    old(self).local_data.allocator,
                    final(self).mailbox_allocator@,
                    message,
                    final(self).mailbox@.last(),
                    depth,
                ),
            old(self).mailbox_allocator@.is_prefix_of(final(self).mailbox_allocator@),
            *final(self) == (Process {
                mailbox: final(self).mailbox,
                mailbox_allocator: final(self).mailbox_allocator,
                ..*old(self)
            }),
    {
        let mut to_send = message;
        if to_send.is_local() {
            to_send = self.mailbox_allocator.copy_object(&self.local_data.allocator, to_send);
        } else {
            assert forall|depth: nat|
                is_copy(
                    self.local_data.allocator,
                    self.mailbox_allocator@,
                    message,
                    to_send,
                    depth,
                ) by {}
        }
        self.mailbox.push(to_send);
        assert(self.mailbox@.drop_last() =~= old(self).mailbox@);
    }

    /// Whether this process can take a message from `sender`, however much
    /// of the heap of `sender` the message reaches.
    pub fn can_receive_from(&self, sender: &LocalAllocator) -> (answer: bool)
        ensures
            answer == (self.mailbox_allocator@.len() + sender.young().len()
                + sender.mature().len() <= MAX_OBJECTS),
    {
        let held = self.mailbox_allocator.len();
        let young = sender.young_len();
        let mature = sender.mature_len();
        held <= MAX_OBJECTS && young <= MAX_OBJECTS - held && mature <= MAX_OBJECTS - held - young
    }

    /// Pops a message from the message queue of this process, without
    /// waiting for one.
    pub fn receive_message(&mut self) -> (message: Option<ObjectPointer>)
        ensures
            old(self).mailbox@.len() == 0 ==> message is None && final(self).mailbox@ == old(self).mailbox@,
            old(self).mailbox@.len() > 0 ==> message == Some(old(self).mailbox@[0]) && final(self).mailbox@ == old(self).mailbox@.skip(1),
            *final(self) == (Process { mailbox: final(self).mailbox, ..*old(self) }),
    {
        self.mailbox.pop_nonblock()
    }

    /// Adds a new call frame pointing to the given line number.
    pub fn advance_line(&mut self, line: u32)
        ensures
            *final(self) == (Process {
                local_data: LocalData {
                    call_frame: CallFrame {
                        code: old(self).local_data.context.code,
                        line,
                        parent: Some(Box::new(old(self).local_data.call_frame)),
                    },
                    ..old(self).local_data
                },
                ..*old(self)
            }),
    {
        let frame = CallFrame::new(self.compiled_code(), line);
        self.push_call_frame(frame);
    }

    /// The binding that the current context runs in.
    pub fn binding(&self) -> (binding: RcBinding)
        ensures
            binding == self.local_data.context.binding,
    {
        self.local_data.context.binding()
    }

    /// The `self` of the current context.
    pub fn self_object(&self) -> (pointer: ObjectPointer)
        requires
            self.wf(),
        ensures
            pointer == self.local_data.bindings@[self.local_data.context.binding.index as int].self_object,
    {
        self.local_data.context.self_object(&self.local_data.bindings)
    }

    /// The current context.
    pub fn context(&self) -> (context: &Box<ExecutionContext>)
        ensures
            *context == self.local_data.context,
    {
        &self.local_data.context
    }

    /// The current context, for changing it.
    pub fn context_mut(&mut self) -> (context: &mut Box<ExecutionContext>)
        ensures
            *context == old(self).local_data.context,
            *final(self) == (Process {
                local_data: LocalData { context: *final(context), ..old(self).local_data },
                ..*old(self)
            }),
    {
        &mut self.local_data.context
    }

    /// Whether the current context is the only one.
    pub fn at_top_level(&self) -> (answer: bool)
        ensures
            answer == (self.local_data.context.parent is None),
    {
        self.local_data.context.parent.is_none()
    }

    /// The current call frame.
    pub fn call_frame(&self) -> (frame: &CallFrame)
        ensures
            *frame == self.local_data.call_frame,
    {
        &self.local_data.call_frame
    }

    /// The code that the current context runs.
    pub fn compiled_code(&self) -> (code: RcCompiledCode)
        ensures
            code == self.local_data.context.code,
    {
        self.local_data.context.code.clone()
    }

    /// The index of the instruction that the current context runs next.
    pub fn instruction_index(&self) -> (index: usize)
        ensures
            index == self.local_data.context.instruction_index,
    {
        self.local_data.context.instruction_index
    }

    /// Sets the index of the instruction that the current context runs
    /// next.
    pub fn set_instruction_index(&mut self, index: usize)
        ensures
            *final(self) == (Process {
                local_data: LocalData {
                    context: Box::new(
                        ExecutionContext {
                            instruction_index: index,
                            ..*old(self).local_data.context
                        },
                    ),
                    ..old(self).local_data
                },
                ..*old(self)
            }),
    {
        self.local_data.context.instruction_index = index;
    }

    /// Appends to `pointers` the handles to the slots of the context that
    /// is `level` steps above the current one: those that its binding
    /// reaches, then its set registers. Appends nothing where the stack is
    /// not that deep.
    pub fn push_context_pointers(&self, level: usize, pointers: &mut Vec<ObjectPointerPointer>)
        ensures
            final(pointers)@ == old(pointers)@ + match self.local_data.context.ancestor(
                level as nat,
            ) {
                Some(context) => context_pointers(self.local_data.bindings@, context, level),
                None => Seq::empty(),
            },
    {
        match self.local_data.context.ancestor_at(level) {
            Some(context) => {
                let ghost before = pointers@;
                self.local_data.bindings.push_pointers(context.binding, pointers);
                context.register.push_pointers(level, pointers);
                assert(pointers@ =~= before + context_pointers(
                    self.local_data.bindings@,
                    *context,
                    level,
                ));
            },
            None => {
                assert(pointers@ + Seq::<ObjectPointerPointer>::empty() =~= pointers@);
            },
        }
    }

    /// Scans the roots of the process: returns a handle to every slot that
    /// holds a pointer of its own, for the collector to follow and to
    /// rewrite. The slots are those of every context of the stack, the
    /// oldest context first: the local variables and `self` of its binding
    /// and of the scopes around it, and then its set registers.
    ///
    /// The handles name slots and do not hold the pointers, so they are
    /// good for as long as the contexts and their bindings stay as they are.
    pub fn roots(&self) -> (pointers: Vec<ObjectPointerPointer>)
        ensures
            pointers@ == self.spec_roots(),
    {
        let ghost table = self.local_data.bindings@;
        let ghost top = *self.local_data.context;
        let mut contexts: Vec<&ExecutionContext> = Vec::new();
        let mut worker = new_worker();
        let mut walk = self.local_data.context.contexts();
        loop
            invariant
                walk.current() == top.ancestor(contexts@.len()),
                forall|i: int| 0 <= i < contexts@.len() ==> top.ancestor(i as nat) == Some(*contexts@[i]),
                worker_items(worker) == Seq::new(contexts@.len(), |i: int| i as usize),
            ensures
                top.ancestor(contexts@.len()) is None,
            decreases top.depth() + 1 - contexts@.len(),
        {
            proof {
                lemma_ancestor_depth(top, contexts@.len());
                lemma_ancestor_step(top, contexts@.len());
            }
            match walk.next() {
                Some(context) => {
                    worker_push(&mut worker, contexts.len());
                    contexts.push(context);
                    assert(worker_items(worker) =~= Seq::new(contexts@.len(), |i: int| i as usize));
                },
                None => {
                    break ;
                },
            }
        }
        let mut pointers: Vec<ObjectPointerPointer> = Vec::new();
        assert(pointers@ =~= roots_from(table, top, contexts@.len()));
        loop
            invariant
                table == self.local_data.bindings@,
                worker_items(worker).len() <= contexts@.len(),
                worker_items(worker) == Seq::new(worker_items(worker).len(), |i: int| i as usize),
                forall|i: int| 0 <= i < contexts@.len() ==> top.ancestor(i as nat) == Some(*contexts@[i]),
                pointers@ == roots_from(table, top, worker_items(worker).len()),
            ensures
                worker_items(worker).len() == 0,
            decreases worker_items(worker).len(),
        {
            let ghost before = pointers@;
            let ghost left = worker_items(worker).len();
            let ghost queued = worker_items(worker);
            match worker_try_pop(&mut worker) {
                Some(level) => {
                    let context = contexts[level];
                    self.local_data.bindings.push_pointers(context.binding, &mut pointers);
                    context.register.push_pointers(level, &mut pointers);
                    proof {
                        assert(queued.last() == queued[left - 1]);
                        assert(queued[left - 1] == (left - 1) as usize);
                        assert(level == left - 1);
                        assert(worker_items(worker) =~= Seq::new(
                            worker_items(worker).len(),
                            |i: int| i as usize,
                        ));
                        assert(pointers@ =~= before + context_pointers(table, *context, level));
                    }
                },
                None => {
                    break ;
                },
            }
        }
        pointers
    }

    /// The pointer in the slot that `handle` names, or nothing where the
    /// process has no such slot.
    pub fn read_slot(&self, handle: ObjectPointerPointer) -> (value: Option<ObjectPointer>)
        ensures
            value == self.spec_slot(handle),
    {
        match handle {
            ObjectPointerPointer::SelfObject { binding } => {
                if self.local_data.bindings.contains(binding) {
                    Some(self.local_data.bindings.self_object(binding))
                } else {
                    None
                }
            },
            ObjectPointerPointer::Local { binding, index } => {
                match self.local_data.bindings.get_local(binding, index) {
                    Ok(pointer) => Some(pointer),
                    Err(_) => None,
                }
            },
            ObjectPointerPointer::Register { context, index } => {
                match self.local_data.context.ancestor_at(context) {
                    Some(found) => found.get_register(index),
                    None => None,
                }
            },
        }
    }

    /// Writes `value` to the slot that `handle` names, and returns whether
    /// the process has such a slot. The write is to the slot itself: whoever
    /// reads the local variable, the register or the `self` that the
    /// handle names reads `value` afterwards. No other slot changes, and the
    /// handles that [`Process::roots`] returned stay the handles of the
    /// process.
    pub fn write_slot(&mut self, handle: ObjectPointerPointer, value: ObjectPointer) -> (written:
        bool)
        requires
            old(self).wf(),
        ensures
            final(self).wf(),
            written == old(self).spec_slot(handle).is_some(),
            written ==> final(self).spec_slot(handle) == Some(value),
            forall|other: ObjectPointerPointer|
                other != handle ==> #[trigger] final(self).spec_slot(other) == old(self).spec_slot(
                    other,
                ),
            final(self).spec_roots() == old(self).spec_roots(),
            same_shape(old(self).local_data.bindings@, final(self).local_data.bindings@),
            final(self).local_data.context.depth() == old(self).local_data.context.depth(),
            *final(self) == (Process {
                local_data: LocalData {
                    context: final(self).local_data.context,
                    bindings: final(self).local_data.bindings,
                    ..old(self).local_data
                },
                ..*old(self)
            }),
    {
        let ghost table = self.local_data.bindings@;
        let ghost top = *self.local_data.context;
        match handle {
            ObjectPointerPointer::SelfObject { binding } => {
                if self.local_data.bindings.contains(binding) {
                    self.local_data.bindings.set_self_object(binding, value);
                    proof {
                        lemma_contexts_stay_bound(table, self.local_data.bindings@, top);
                        lemma_roots_keep(table, top, self.local_data.bindings@, top, 0);
                    }
                    true
                } else {
                    false
                }
            },
            ObjectPointerPointer::Local { binding, index } => {
                if self.local_data.bindings.local_exists(binding, index) {
                    self.local_data.bindings.set_local(binding, index, value);
                    proof {
                        lemma_contexts_stay_bound(table, self.local_data.bindings@, top);
                        lemma_roots_keep(table, top, self.local_data.bindings@, top, 0);
                    }
                    true
                } else {
                    false
                }
            },
            ObjectPointerPointer::Register { context, index } => {
                let written = self.local_data.context.rewrite_register_at(context, index, value);
                proof {
                    if written {
                        let after = *self.local_data.context;
                        assert forall|level: nat| same_slots_at(top, after, level) by {
                            lemma_register_rewritten(
                                top,
                                after,
                                context as nat,
                                index as int,
                                value,
                                level,
                            );
                            if level == context {
                                lemma_register_pointers_keep(
                                    top.ancestor(level)->0.register@,
                                    level as usize,
                                    index as int,
                                    value,
                                );
                            }
                        }
                        lemma_register_rewritten(
                            top,
                            after,
                            context as nat,
                            index as int,
                            value,
                            context as nat,
                        );
                        lemma_contexts_bound_keep(table, top, after, 0);
                        lemma_bound_from_top(table, after, 0);
                        lemma_roots_keep(table, top, table, after, 0);
                        assert forall|other: ObjectPointerPointer| other != handle implies slot_value(
                            table,
                            after,
                            other,
                        ) == slot_value(table, top, other) by {
                            if other is Register {
                                lemma_register_rewritten(
                                    top,
                                    after,
                                    context as nat,
                                    index as int,
                                    value,
                                    other->Register_context as nat,
                                );
                            }
                        }
                    }
                }
                written
            },
        }
    }

    /// The remembered set, for the collector to work on.
    pub fn remembered_set_mut(&mut self) -> (set: &mut HashSet<usize>)
        ensures
            *set == old(self).local_data.remembered_set,
            *final(self) == (Process {
                local_data: LocalData { remembered_set: *final(set), ..old(self).local_data },
                ..*old(self)
            }),
    {
        &mut self.local_data.remembered_set
    }

    /// Write barrier for tracking cross generation writes: to be called
    /// whenever `written` is stored in a field or slot of `written_to`.
    ///
    /// It remembers the object that is written to, where that object is
    /// mature and the pointer written is young. Nothing else changes.
    pub fn write_barrier(&mut self, written_to: ObjectPointer, written: ObjectPointer)
        ensures
            final(self).remembered() == barrier_effect(old(self).remembered(), written_to, written),
            *final(self) == (Process {
                local_data: LocalData {
                    remembered_set: final(self).local_data.remembered_set,
                    ..old(self).local_data
                },
                ..*old(self)
            }),
    {
        if written_to.is_mature() && written.is_young() {
            self.local_data.remembered_set.insert(written_to.raw);
            assert(self.remembered() =~= old(self).remembered().insert(written_to));
        }
    }

    /// Makes the young generation one collection older.
    pub fn increment_young_ages(&mut self)
        ensures
            final(self).local_data.allocator.young() == old(self).local_data.allocator.young(),
            final(self).local_data.allocator.mature() == old(self).local_data.allocator.mature(),
            final(self).local_data.allocator.mature_age() == old(self).local_data.allocator.mature_age(),
            final(self).local_data.allocator.young_age() == if old(self).local_data.allocator.young_age() == usize::MAX {
                usize::MAX
            } else {
                (old(self).local_data.allocator.young_age() + 1) as usize
            },
            *final(self) == (Process {
                local_data: LocalData {
                    allocator: final(self).local_data.allocator,
                    ..old(self).local_data
                },
                ..*old(self)
            }),
    {
        self.local_data.allocator.increment_young_ages()
    }

    /// The mature generation, for the collector to work on.
    pub fn mature_generation_mut(&mut self) -> (bucket: &mut Bucket)
        ensures
            bucket@ == old(self).local_data.allocator.mature(),
            final(self).local_data.allocator.mature() == final(bucket)@,
            final(self).local_data.allocator.young() == old(self).local_data.allocator.young(),
            *final(self) == (Process {
                local_data: LocalData {
                    allocator: final(self).local_data.allocator,
                    ..old(self).local_data
                },
                ..*old(self)
            }),
    {
        self.local_data.allocator.mature_generation_mut()
    }
}

/// Handles to the slots of one context, which is `level` steps above the
/// current one: those that its binding reaches, then its set registers.
pub open spec fn context_pointers(
    table: Seq<BindingView>,
    context: ExecutionContext,
    level: usize,
) -> Seq<ObjectPointerPointer> {
    binding_pointers(table, context.binding) + register_pointers(context.register@, level)
}

/// Handles to the slots of the contexts that are `level` steps or more
/// above `top`, the oldest context first.
pub open spec fn roots_from(table: Seq<BindingView>, top: ExecutionContext, level: nat) -> Seq<
    ObjectPointerPointer,
>
    decreases top.depth() + 1 - level,
{
    match top.ancestor(level) {
        Some(context) => {
            proof {
                lemma_ancestor_depth(top, level);
            }
            roots_from(table, top, level + 1) + context_pointers(table, context, level as usize)
        },
        None => Seq::empty(),
    }
}

/// The pointer in the slot that `handle` names: the `self` or a local
/// variable of a binding of `table`, or a set register of a context of the
/// chain that starts at `top`.
pub open spec fn slot_value(
    table: Seq<BindingView>,
    top: ExecutionContext,
    handle: ObjectPointerPointer,
) -> Option<ObjectPointer> {
    match handle {
        ObjectPointerPointer::SelfObject { binding } => if table_contains(table, binding) {
            Some(table[binding.index as int].self_object)
        } else {
            None
        },
        ObjectPointerPointer::Local { binding, index } => local_of(table, binding, index as int),
        ObjectPointerPointer::Register { context, index } => register_slot(
            top,
            context as nat,
            index as int,
        ),
    }
}

/// The roots from `from` steps up hold every handle of the context `level`
/// steps up, where that context is not below `from`.
pub proof fn lemma_roots_hold_level(
    table: Seq<BindingView>,
    top: ExecutionContext,
    from: nat,
    level: nat,
    handle: ObjectPointerPointer,
)
    requires
        from <= level,
        top.ancestor(level) is Some,
        context_pointers(table, top.ancestor(level)->0, level as usize).contains(handle),
    ensures
        roots_from(table, top, from).contains(handle),
    decreases level - from,
{
    lemma_ancestor_depth(top, level);
    lemma_ancestor_depth(top, from);
    let above = roots_from(table, top, from + 1);
    let own = context_pointers(table, top.ancestor(from)->0, from as usize);
    if from == level {
        let i = choose|i: int| 0 <= i < own.len() && own[i] == handle;
        assert((above + own)[above.len() + i] == handle);
    } else {
        lemma_roots_hold_level(table, top, from + 1, level, handle);
        let i = choose|i: int| 0 <= i < above.len() && above[i] == handle;
        assert((above + own)[i] == handle);
    }
}

/// The roots are complete. For every context of the stack, the roots hold
/// a handle to the `self` and to each local variable of the binding that
/// the context runs in and of every scope around that binding, and to
/// each set register of the context; and the slot that such a handle names
/// holds that very pointer.
pub proof fn lemma_roots_complete(
    table: Seq<BindingView>,
    top: ExecutionContext,
    level: usize,
    scope: RcBinding,
)
    requires
        top.ancestor(level as nat) is Some,
    ensures
        in_scope_chain(table, top.ancestor(level as nat)->0.binding, scope) ==> {
            &&& roots_from(table, top, 0).contains(ObjectPointerPointer::SelfObject { binding: scope })
            &&& slot_value(table, top, ObjectPointerPointer::SelfObject { binding: scope }) == Some(
                table[scope.index as int].self_object,
            )
            &&& forall|index: usize|
                index < table[scope.index as int].locals.len() ==> {
                    &&& #[trigger] roots_from(table, top, 0).contains(
                        ObjectPointerPointer::Local { binding: scope, index },
                    )
                    &&& slot_value(table, top, ObjectPointerPointer::Local { binding: scope, index })
                        == Some(table[scope.index as int].locals[index as int])
                }
        },
        forall|index: usize|
            slot_at(top.ancestor(level as nat)->0.register@, index as int) is Some ==> {
                &&& #[trigger] roots_from(table, top, 0).contains(
                    ObjectPointerPointer::Register { context: level, index },
                )
                &&& slot_value(table, top, ObjectPointerPointer::Register { context: level, index })
                    == slot_at(top.ancestor(level as nat)->0.register@, index as int)
            },
{
    let context = top.ancestor(level as nat)->0;
    let in_binding = binding_pointers(table, context.binding);
    let in_register = register_pointers(context.register@, level);
    let own = context_pointers(table, context, level);
    if in_scope_chain(table, context.binding, scope) {
        lemma_binding_pointers_complete(table, context.binding, scope);
        lemma_scope_in_table(table, context.binding, scope);
        let handle = ObjectPointerPointer::SelfObject { binding: scope };
        let i = choose|i: int| 0 <= i < in_binding.len() && in_binding[i] == handle;
        assert(own[i] == handle);
        lemma_roots_hold_level(table, top, 0, level as nat, handle);
        assert forall|index: usize| index < table[scope.index as int].locals.len() implies {
            &&& #[trigger] roots_from(table, top, 0).contains(
                ObjectPointerPointer::Local { binding: scope, index },
            )
            &&& slot_value(table, top, ObjectPointerPointer::Local { binding: scope, index })
                == Some(table[scope.index as int].locals[index as int])
        } by {
            let handle = ObjectPointerPointer::Local { binding: scope, index };
            assert(in_binding.contains(handle));
            let i = choose|i: int| 0 <= i < in_binding.len() && in_binding[i] == handle;
            assert(own[i] == handle);
            lemma_roots_hold_level(table, top, 0, level as nat, handle);
        }
    }
    assert forall|index: usize|
        slot_at(context.register@, index as int) is Some implies {
        &&& #[trigger] roots_from(table, top, 0).contains(
            ObjectPointerPointer::Register { context: level, index },
        )
        &&& slot_value(table, top, ObjectPointerPointer::Register { context: level, index })
            == slot_at(context.register@, index as int)
    } by {
        let handle = ObjectPointerPointer::Register { context: level, index };
        context.register.lemma_slots_bounded();
        lemma_register_pointers_complete(context.register@, level, index);
        let i = choose|i: int| 0 <= i < in_register.len() && in_register[i] == handle;
        assert(own[in_binding.len() + i] == handle);
        lemma_roots_hold_level(table, top, 0, level as nat, handle);
    }
}

/// A scope of the chain of a binding is a binding of the table.
pub proof fn lemma_scope_in_table(table: Seq<BindingView>, binding: RcBinding, scope: RcBinding)
    requires
        in_scope_chain(table, binding, scope),
    ensures
        table_contains(table, scope),
    decreases binding.index,
{
    if binding != scope {
        lemma_scope_in_table(table, parent_of(table, binding)->0, scope);
    }
}

/// Whether the contexts `level` steps above `before` and above `after`
/// have the same slots: both exist or neither does, they run in the same
/// binding, and the same registers are set in them.
pub open spec fn same_slots_at(before: ExecutionContext, after: ExecutionContext, level: nat) -> bool {
    &&& before.ancestor(level) is Some <==> after.ancestor(level) is Some
    &&& before.ancestor(level) is Some ==> {
        &&& after.ancestor(level)->0.binding == before.ancestor(level)->0.binding
        &&& register_pointers(after.ancestor(level)->0.register@, level as usize)
            == register_pointers(before.ancestor(level)->0.register@, level as usize)
    }
}

/// Where the bindings keep their shape and the contexts their slots, the
/// roots stay the same handles.
pub proof fn lemma_roots_keep(
    table: Seq<BindingView>,
    top: ExecutionContext,
    table_after: Seq<BindingView>,
    top_after: ExecutionContext,
    level: nat,
)
    requires
        same_shape(table, table_after),
        forall|l: nat| same_slots_at(top, top_after, l),
    ensures
        roots_from(table_after, top_after, level) == roots_from(table, top, level),
    decreases top.depth() + 1 - level,
{
    assert(same_slots_at(top, top_after, level));
    match top.ancestor(level) {
        Some(context) => {
            lemma_ancestor_depth(top, level);
            lemma_roots_keep(table, top, table_after, top_after, level + 1);
            lemma_binding_pointers_keep(table, table_after, context.binding);
        },
        None => {},
    }
}

/// Whether the context `level` steps above `top`, and every context above
/// that one, runs in a binding of `table`.
pub open spec fn bound_from(table: Seq<BindingView>, top: ExecutionContext, level: nat) -> bool {
    forall|l: nat|
        l >= level ==> (#[trigger] top.ancestor(l) is Some ==> table_contains(
            table,
            top.ancestor(l)->0.binding,
        ))
}

/// The contexts of a chain run in bindings of a table exactly where each
/// context that some number of steps leads to does.
pub proof fn lemma_bound_from_top(table: Seq<BindingView>, top: ExecutionContext, level: nat)
    ensures
        contexts_bound(table, top) <==> bound_from(table, top, 0),
    decreases top,
{
    match top.parent {
        Some(parent) => {
            lemma_bound_from_top(table, *parent, 0);
            if contexts_bound(table, top) {
                assert forall|l: nat| #[trigger] top.ancestor(l) is Some implies table_contains(
                    table,
                    top.ancestor(l)->0.binding,
                ) by {
                    if l > 0 {
                        assert(top.ancestor(l) == parent.ancestor((l - 1) as nat));
                    }
                }
            }
            if bound_from(table, top, 0) {
                assert(top.ancestor(0) is Some);
                assert forall|l: nat| #[trigger] parent.ancestor(l) is Some implies table_contains(
                    table,
                    parent.ancestor(l)->0.binding,
                ) by {
                    assert(top.ancestor(l + 1) == parent.ancestor(l));
                }
            }
        },
        None => {
            if contexts_bound(table, top) {
                assert forall|l: nat| #[trigger] top.ancestor(l) is Some implies table_contains(
                    table,
                    top.ancestor(l)->0.binding,
                ) by {
                    if l > 0 {
                        assert(top.ancestor(l) is None);
                    }
                }
            }
            if bound_from(table, top, 0) {
                assert(top.ancestor(0) is Some);
            }
        },
    }
}

/// Contexts with the same slots run in bindings of the same tables.
pub proof fn lemma_contexts_bound_keep(
    table: Seq<BindingView>,
    before: ExecutionContext,
    after: ExecutionContext,
    level: nat,
)
    requires
        contexts_bound(table, before),
        forall|l: nat| same_slots_at(before, after, l),
    ensures
        bound_from(table, after, 0),
{
    lemma_bound_from_top(table, before, 0);
    assert forall|l: nat| #[trigger] after.ancestor(l) is Some implies table_contains(
        table,
        after.ancestor(l)->0.binding,
    ) by {
        assert(same_slots_at(before, after, l));
        assert(before.ancestor(l) is Some);
    }
}

/// What the write barrier makes of a remembered set when `written` is
/// stored in `written_to`.
pub open spec fn barrier_effect(
    remembered: Set<ObjectPointer>,
    written_to: ObjectPointer,
    written: ObjectPointer,
) -> Set<ObjectPointer> {
    if written_to.spec_is_mature() && written.spec_is_young() {
        remembered.insert(written_to)
    } else {
        remembered
    }
}

/// The remembered set after the write barrier has seen the writes of
/// `writes`, each a pair of the object written to and the pointer written,
/// in their order.
pub open spec fn remembered_after(
    remembered: Set<ObjectPointer>,
    writes: Seq<(ObjectPointer, ObjectPointer)>,
) -> Set<ObjectPointer>
    decreases writes.len(),
{
    if writes.len() == 0 {
        remembered
    } else {
        barrier_effect(
            remembered_after(remembered, writes.drop_last()),
            writes.last().0,
            writes.last().1,
        )
    }
}

/// After any sequence of writes that the barrier has seen, the remembered
/// set holds what it held before and, besides, exactly the objects that one
/// of the writes wrote a young pointer to while they were mature.
pub proof fn lemma_write_barrier_sound(
    remembered: Set<ObjectPointer>,
    writes: Seq<(ObjectPointer, ObjectPointer)>,
    pointer: ObjectPointer,
)
    ensures
        remembered_after(remembered, writes).contains(pointer) <==> (remembered.contains(pointer)
            || exists|i: int|
            0 <= i < writes.len() && (#[trigger] writes[i]).0 == pointer
                && pointer.spec_is_mature() && writes[i].1.spec_is_young()),
    decreases writes.len(),
{
    if writes.len() > 0 {
        let earlier = writes.drop_last();
        lemma_write_barrier_sound(remembered, earlier, pointer);
        let recorded = |w: Seq<(ObjectPointer, ObjectPointer)>|
            exists|i: int|
                0 <= i < w.len() && (#[trigger] w[i]).0 == pointer && pointer.spec_is_mature()
                    && w[i].1.spec_is_young();
        if recorded(earlier) {
            let i = choose|i: int|
                0 <= i < earlier.len() && (#[trigger] earlier[i]).0 == pointer
                    && pointer.spec_is_mature() && earlier[i].1.spec_is_young();
            assert(writes[i] == earlier[i]);
        }
        if recorded(writes) {
            let i = choose|i: int|
                0 <= i < writes.len() && (#[trigger] writes[i]).0 == pointer
                    && pointer.spec_is_mature() && writes[i].1.spec_is_young();
            if i < earlier.len() {
                assert(earlier[i] == writes[i]);
            }
        }
        if writes.last().0 == pointer && pointer.spec_is_mature() && writes.last().1.spec_is_young() {
            assert(writes[writes.len() - 1] == writes.last());
        }
    }
}

/// Contexts that run in bindings of a table still do so after the table
/// has changed, as long as it has not shrunk.
pub proof fn lemma_contexts_stay_bound(
    before: Seq<BindingView>,
    after: Seq<BindingView>,
    context: ExecutionContext,
)
    requires
        contexts_bound(before, context),
        before.len() <= after.len(),
    ensures
        contexts_bound(after, context),
    decreases context,
{
    match context.parent {
        Some(parent) => {
            lemma_contexts_stay_bound(before, after, *parent);
        },
        None => {},
    }
}

} // verus!
