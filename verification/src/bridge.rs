//! The task-dispatch bridge: submission, outcome decisions, and
//! exactly-once delivery onto the host's queue.
//!
//! The bridge keeps one record per submitted task and an append-only
//! delivery log standing for the host's single ordered callback queue,
//! which the host drains cooperatively.  A task is completed at most
//! once — completion demands a pending task — and completing it appends
//! exactly one entry to the log, so no task is ever delivered twice.

use vstd::prelude::*;

use crate::failure::{internal_failure, opt_chars_view, Failure, TaskOutcome};
use crate::operation::Operation;
use crate::text::copy_chars;

verus! {

/// Where one task stands between submission and delivery.
pub enum TaskState {
    /// Submitted; its outcome has not been delivered.
    Pending,
    /// Its outcome has been delivered, exactly once.
    Delivered,
}

/// One submitted task: the captured handle and operation, and where the
/// task stands.
pub struct TaskRecord {
    /// The handle the operation was bound to, captured by value.
    pub handle: Vec<char>,
    /// The submitted operation, captured by value.
    pub operation: Operation,
    /// Where the task stands.
    pub state: TaskState,
}

/// The dispatch bridge's bookkeeping: every submitted task, and the
/// host's inbound delivery log.
pub struct Bridge {
    tasks: Vec<TaskRecord>,
    deliveries: Vec<(usize, TaskOutcome)>,
}

impl Bridge {
    /// The submitted tasks, in submission order; a task's identifier is
    /// its index here.
    pub closed spec fn task_seq(&self) -> Seq<TaskRecord> {
        self.tasks@
    }

    /// The delivery log, in delivery order: task identifier and outcome.
    pub closed spec fn delivery_seq(&self) -> Seq<(usize, TaskOutcome)> {
        self.deliveries@
    }

    /// Well-formed: every delivery names a submitted task, no two
    /// deliveries name the same task, and a task is marked delivered
    /// exactly when the log holds a delivery for it.
    pub open spec fn wf(&self) -> bool {
        &&& forall|d: int|
            0 <= d < self.delivery_seq().len() ==> (#[trigger] self.delivery_seq()[d]).0
                < self.task_seq().len()
        &&& forall|d1: int, d2: int|
            0 <= d1 < d2 < self.delivery_seq().len() ==> (#[trigger] self.delivery_seq()[d1]).0 != (
            #[trigger] self.delivery_seq()[d2]).0
        &&& forall|i: int|
            0 <= i < self.task_seq().len() ==> ((#[trigger] self.task_seq()[i]).state is Delivered
                <==> exists|d: int|
                0 <= d < self.delivery_seq().len() && (#[trigger] self.delivery_seq()[d]).0 == i)
    }

    /// A bridge with no task submitted and nothing delivered.
    pub fn new() -> (r: Bridge)
        ensures
            r.wf(),
            r.task_seq().len() == 0,
            r.delivery_seq().len() == 0,
    {
        Bridge { tasks: Vec::new(), deliveries: Vec::new() }
    }

    /// How many tasks have been submitted.
    pub fn task_count(&self) -> (n: usize)
        ensures
            n == self.task_seq().len(),
    {
        self.tasks.len()
    }

    /// How many outcomes have been delivered.
    pub fn delivery_count(&self) -> (n: usize)
        ensures
            n == self.delivery_seq().len(),
    {
        self.deliveries.len()
    }

    /// Accepts an operation bound to a handle, both captured by value,
    /// and returns the new task's identifier.  The task starts pending;
    /// no earlier task and no delivery is touched.
    pub fn submit(&mut self, handle: Vec<char>, operation: Operation) -> (id: usize)
        requires
            old(self).wf(),
        ensures
            final(self).wf(),
            id == old(self).task_seq().len(),
            final(self).task_seq().len() == old(self).task_seq().len() + 1,
            final(self).task_seq()[id as int].handle == handle,
            final(self).task_seq()[id as int].operation == operation,
            final(self).task_seq()[id as int].state is Pending,
            forall|i: int|
                0 <= i < old(self).task_seq().len() ==> final(self).task_seq()[i] == old(
                    self,
                ).task_seq()[i],
            final(self).delivery_seq() == old(self).delivery_seq(),
    {
        let id = self.tasks.len();
        self.tasks.push(TaskRecord { handle, operation, state: TaskState::Pending });
        proof {
            assert(self.delivery_seq() == old(self).delivery_seq());
            assert forall|i: int|
                0 <= i < self.task_seq().len() implies ((#[trigger] self.task_seq()[i]).state
                is Delivered <==> exists|d: int|
                0 <= d < self.delivery_seq().len() && (#[trigger] self.delivery_seq()[d]).0
                    == i) by {
                if i < id as int {
                    assert(self.task_seq()[i] == old(self).task_seq()[i]);
                    assert((old(self).task_seq()[i]).state is Delivered <==> exists|d: int|
                        0 <= d < old(self).delivery_seq().len() && (#[trigger] old(
                            self,
                        ).delivery_seq()[d]).0 == i);
                } else {
                    assert(!(self.task_seq()[i].state is Delivered));
                    if exists|d: int|
                        0 <= d < self.delivery_seq().len() && (#[trigger] self.delivery_seq()[
                        d]).0 == i {
                        let d = choose|d: int|
                            0 <= d < self.delivery_seq().len() && (#[trigger] self.delivery_seq()[
                            d]).0 == i;
                        assert(old(self).delivery_seq()[d].0 < old(self).task_seq().len());
                        assert(false);
                    }
                }
            }
        }
        id
    }

    /// Whether task `id` is still pending.
    pub fn is_pending(&self, id: usize) -> (r: bool)
        requires
            id < self.task_seq().len(),
        ensures
            r == (self.task_seq()[id as int].state is Pending),
    {
        match self.tasks[id].state {
            TaskState::Pending => true,
            TaskState::Delivered => false,
        }
    }

    /// Delivers `outcome` for the pending task `id`: appends exactly one
    /// entry to the host's log and marks the task delivered.  Completion
    /// demands a pending task, so a second delivery for the same task is
    /// impossible.
    pub fn complete(&mut self, id: usize, outcome: TaskOutcome)
        requires
            old(self).wf(),
            id < old(self).task_seq().len(),
            old(self).task_seq()[id as int].state is Pending,
        ensures
            final(self).wf(),
            final(self).task_seq().len() == old(self).task_seq().len(),
            final(self).task_seq()[id as int].state is Delivered,
            final(self).task_seq()[id as int].handle == old(self).task_seq()[id as int].handle,
            final(self).task_seq()[id as int].operation == old(self).task_seq()[
                id as int
            ].operation,
            forall|i: int|
                0 <= i < old(self).task_seq().len() && i != id ==> final(self).task_seq()[i] == old(
                    self,
                ).task_seq()[i],
            final(self).delivery_seq() == old(self).delivery_seq().push((id, outcome)),
    {
        let record = self.tasks.remove(id);
        self.tasks.insert(id, TaskRecord {
            handle: record.handle,
            operation: record.operation,
            state: TaskState::Delivered,
        });
        self.deliveries.push((id, outcome));
        proof {
            assert(self.task_seq() =~= old(self).task_seq().update(
                id as int,
                TaskRecord {
                    handle: old(self).task_seq()[id as int].handle,
                    operation: old(self).task_seq()[id as int].operation,
                    state: TaskState::Delivered,
                },
            ));
            let n = self.delivery_seq().len() as int;
            assert(self.delivery_seq() == old(self).delivery_seq().push((id, outcome)));
            assert(self.delivery_seq()[n - 1].0 == id);
            assert forall|d1: int, d2: int|
                0 <= d1 < d2 < self.delivery_seq().len() implies (#[trigger] self.delivery_seq()[
                d1]).0 != (#[trigger] self.delivery_seq()[d2]).0 by {
                if d2 == n - 1 {
                    if self.delivery_seq()[d1].0 == id {
                        assert(self.delivery_seq()[d1] == old(self).delivery_seq()[d1]);
                        assert(exists|d: int|
                            0 <= d < old(self).delivery_seq().len() && (#[trigger] old(
                                self,
                            ).delivery_seq()[d]).0 == id as int);
                        assert(old(self).task_seq()[id as int].state is Delivered);
                        assert(false);
                    }
                } else {
                    assert(self.delivery_seq()[d1] == old(self).delivery_seq()[d1]);
                    assert(self.delivery_seq()[d2] == old(self).delivery_seq()[d2]);
                    assert(old(self).delivery_seq()[d1].0 != old(self).delivery_seq()[d2].0);
                }
            }
            assert forall|i: int|
                0 <= i < self.task_seq().len() implies ((#[trigger] self.task_seq()[i]).state
                is Delivered <==> exists|d: int|
                0 <= d < self.delivery_seq().len() && (#[trigger] self.delivery_seq()[d]).0
                    == i) by {
                if i == id as int {
                    assert(self.delivery_seq()[n - 1].0 == i);
                } else {
                    if self.task_seq()[i].state is Delivered {
                        let d = choose|d: int|
                            0 <= d < old(self).delivery_seq().len() && (#[trigger] old(
                                self,
                            ).delivery_seq()[d]).0 == i;
                        assert(self.delivery_seq()[d].0 == i);
                    } else {
                        if exists|d: int|
                            0 <= d < self.delivery_seq().len() && (#[trigger] self.delivery_seq()[
                            d]).0 == i {
                            let d = choose|d: int|
                                0 <= d < self.delivery_seq().len() && (
                                #[trigger] self.delivery_seq()[d]).0 == i;
                            assert(d < n - 1);
                            assert(old(self).delivery_seq()[d].0 == i);
                        }
                    }
                }
            }
        }
    }

    /// The delivery log entry at position `d`: the task it answers and
    /// the outcome, as the host reads them off its queue.
    pub fn delivery(&self, d: usize) -> (r: &(usize, TaskOutcome))
        requires
            d < self.delivery_seq().len(),
        ensures
            *r == self.delivery_seq()[d as int],
    {
        &self.deliveries[d]
    }

    /// Exactly-once delivery: a task marked delivered has one and only
    /// one entry in the host's log, and a pending task has none.
    pub proof fn lemma_exactly_once(&self, id: int)
        requires
            self.wf(),
            0 <= id < self.task_seq().len(),
        ensures
            self.task_seq()[id].state is Delivered ==> exists|d: int|
                0 <= d < self.delivery_seq().len() && (#[trigger] self.delivery_seq()[d]).0 == id,
            forall|d1: int, d2: int|
                (0 <= d1 < self.delivery_seq().len() && 0 <= d2 < self.delivery_seq().len() && (
                #[trigger] self.delivery_seq()[d1]).0 == id && (#[trigger] self.delivery_seq()[
                d2]).0 == id) ==> d1 == d2,
            self.task_seq()[id].state is Pending ==> forall|d: int|
                0 <= d < self.delivery_seq().len() ==> (#[trigger] self.delivery_seq()[d]).0 != id,
    {
        assert forall|d1: int, d2: int|
            (0 <= d1 < self.delivery_seq().len() && 0 <= d2 < self.delivery_seq().len() && (
            #[trigger] self.delivery_seq()[d1]).0 == id && (#[trigger] self.delivery_seq()[d2]).0
                == id) implies d1 == d2 by {
            if d1 < d2 {
                assert(self.delivery_seq()[d1].0 != self.delivery_seq()[d2].0);
            }
            if d2 < d1 {
                assert(self.delivery_seq()[d2].0 != self.delivery_seq()[d1].0);
            }
        }
    }
}

/// The outcome of a task whose handle named no live resource: the
/// structured unknown-handle failure, carrying the handle itself.
pub fn unknown_handle_outcome(handle: &Vec<char>) -> (r: TaskOutcome)
    ensures
        r matches TaskOutcome::Failed(f) && f matches Failure::UnknownHandle(h) && h@ == handle@,
{
    TaskOutcome::Failed(Failure::UnknownHandle(copy_chars(handle)))
}

/// The outcome of a task that hit an abrupt internal fault: the
/// structured internal failure, never a crash.  `msg` is the fault's
/// description when one could be read off the fault value.
pub fn fault_outcome(msg: Option<Vec<char>>) -> (r: TaskOutcome)
    ensures
        r matches TaskOutcome::Failed(f) && f matches Failure::Internal(t) && (exists|
            trace: Seq<char>,
        |
            t@ == crate::failure::internal_text(opt_chars_view(msg), trace)),
{
    TaskOutcome::Failed(internal_failure(msg))
}

/// Handles from consecutive opens are pairwise distinct: when each
/// handle was fresh against the live set it was drawn into, and every
/// earlier handle was still live, no two can be equal.
pub proof fn lemma_fresh_handles_distinct(handles: Seq<Seq<char>>, live: Seq<Set<Seq<char>>>)
    requires
        live.len() == handles.len(),
        forall|i: int| 0 <= i < handles.len() ==> !(#[trigger] live[i]).contains(handles[i]),
        forall|i: int, j: int| 0 <= j < i < handles.len() ==> (#[trigger] live[i]).contains(
            #[trigger] handles[j],
        ),
    ensures
        forall|i: int, j: int| 0 <= j < i < handles.len() ==> handles[i] != handles[j],
{
    assert forall|i: int, j: int|
        0 <= j < i < handles.len() implies handles[i] != handles[j] by {
        assert(live[i].contains(handles[j]));
        assert(!live[i].contains(handles[i]));
    }
}

} // verus!
