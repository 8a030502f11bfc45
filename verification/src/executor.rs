//! The cooperative executor's bookkeeping: a table of registered tasks in
//! spawn order, each ready or waiting, and the single in-flight slot that
//! makes the scheduling cooperative. The host loop performs the actual
//! polling and hands the outcome back: a completed task leaves the table, a
//! suspended task re-enters it and waits for its waker.

use vstd::prelude::*;

verus! {

/// A task's unique identity within one executor.
#[derive(Debug, Clone, Copy, PartialEq, Eq, Structural)]
pub struct TaskId(pub u64);

impl TaskId {
    pub fn as_u64(self) -> (r: u64)
        ensures
            r == self.0,
    {
        self.0
    }
}

/// A suspended computation as the executor owns it. The computation itself
/// is opaque: the executor moves it, never inspects it.
pub struct Task<T> {
    pub future: T,
}

impl<T> Task<T> {
    pub fn new(future: T) -> (r: Task<T>)
        ensures
            r == (Task { future }),
    {
        Task { future }
    }
}

/// Spawning onto a pending-task queue shared between cores; that queue is
/// not available, so this way of spawning always reports failure, exactly
/// as callers observe it.
pub fn spawn_task<T>(_task: Task<T>) -> (r: bool)
    ensures
        !r,
{
    false
}

/// One table row: the task, its identity, and whether its waker has fired
/// since it last suspended.
pub struct TaskEntry<T> {
    pub id: u64,
    pub ready: bool,
    pub task: Task<T>,
}

/// The position of the first ready entry, if any.
pub open spec fn first_ready_index<T>(s: Seq<TaskEntry<T>>) -> Option<int>
    decreases s.len(),
{
    if s.len() == 0 {
        None
    } else if s[0].ready {
        Some(0int)
    } else {
        match first_ready_index(s.skip(1)) {
            Some(i) => Some(i + 1),
            None => None,
        }
    }
}

pub proof fn lemma_first_ready_index<T>(s: Seq<TaskEntry<T>>)
    ensures
        match first_ready_index(s) {
            Some(k) => 0 <= k < s.len() && s[k].ready && forall|j: int|
                0 <= j < k ==> !(#[trigger] s[j]).ready,
            None => forall|j: int| 0 <= j < s.len() ==> !(#[trigger] s[j]).ready,
        },
    decreases s.len(),
{
    if s.len() != 0 && !s[0].ready {
        lemma_first_ready_index(s.skip(1));
        let t = s.skip(1);
        assert(forall|j: int| 1 <= j < s.len() ==> #[trigger] s[j] == t[j - 1]);
    }
}

/// The single-threaded, non-preemptive task scheduler. Tasks are polled in
/// table order; only one task can be out for polling at a time, so a task
/// that never returns from its poll starves every other — the cooperative
/// contract.
pub struct Executor<T> {
    entries: Vec<TaskEntry<T>>,
    next_id: u64,
    running: Option<u64>,
}

impl<T> Executor<T> {
    pub closed spec fn entries_spec(&self) -> Seq<TaskEntry<T>> {
        self.entries@
    }

    /// The registered task identities, in spawn order.
    pub open spec fn ids(&self) -> Seq<u64> {
        Seq::new(self.entries_spec().len(), |i: int| self.entries_spec()[i].id)
    }

    pub closed spec fn next_id_spec(&self) -> u64 {
        self.next_id
    }

    /// The task currently out for polling, if any.
    pub closed spec fn running_spec(&self) -> Option<u64> {
        self.running
    }

    /// Identities never repeat: every id in the table is below the id
    /// counter and occurs once, and an in-flight id is not in the table.
    pub open spec fn wf(&self) -> bool {
        &&& forall|i: int|
            0 <= i < self.ids().len() ==> #[trigger] self.ids()[i] < self.next_id_spec()
        &&& forall|i: int, j: int|
            #![trigger self.ids()[i], self.ids()[j]]
            0 <= i < j < self.ids().len() ==> self.ids()[i] != self.ids()[j]
        &&& match self.running_spec() {
            Some(id) => id < self.next_id_spec() && !self.ids().contains(id),
            None => true,
        }
    }

    /// An empty executor.
    pub fn new() -> (r: Self)
        ensures
            r.wf(),
            r.entries_spec().len() == 0,
            r.running_spec() is None,
            r.next_id_spec() == 0,
    {
        Executor { entries: Vec::new(), next_id: 0, running: None }
    }

    pub fn task_count(&self) -> (r: usize)
        ensures
            r == self.entries_spec().len(),
    {
        self.entries.len()
    }

    pub fn is_empty(&self) -> (r: bool)
        ensures
            r == (self.entries_spec().len() == 0),
    {
        self.entries.len() == 0
    }

    /// Registers a task. It enters the table ready, at the back, under a
    /// fresh identity.
    pub fn spawn(&mut self, task: Task<T>) -> (id: TaskId)
        requires
            old(self).wf(),
            old(self).next_id_spec() < u64::MAX,
        ensures
            final(self).wf(),
            id.0 == old(self).next_id_spec(),
            final(self).next_id_spec() == old(self).next_id_spec() + 1,
            final(self).running_spec() == old(self).running_spec(),
            final(self).entries_spec().len() == old(self).entries_spec().len() + 1,
            final(self).ids() =~= old(self).ids().push(id.0),
            final(self).entries_spec().last().ready,
            final(self).entries_spec().last().task == task,
            forall|i: int|
                0 <= i < old(self).entries_spec().len() ==> final(self).entries_spec()[i] == old(
                    self,
                ).entries_spec()[i],
    {
        let id = self.next_id;
        self.entries.push(TaskEntry { id, ready: true, task });
        self.next_id = self.next_id + 1;
        proof {
            assert(self.ids() =~= old(self).ids().push(id));
            match old(self).running_spec() {
                Some(rid) => {
                    assert forall|t: int|
                        0 <= t < self.ids().len() implies #[trigger] self.ids()[t] != rid by {
                        if t < old(self).ids().len() {
                            assert(old(self).ids()[t] != rid);
                        }
                    }
                    assert(!self.ids().contains(rid));
                },
                None => {},
            }
        }
        TaskId(id)
    }

    /// Hands out the first ready task in table order for polling, removing
    /// it from the table. Nothing else can be handed out until the poll's
    /// outcome comes back through `complete` or `suspend`: cooperative
    /// scheduling, enforced by the in-flight slot.
    pub fn next_ready(&mut self) -> (r: Option<(TaskId, Task<T>)>)
        requires
            old(self).wf(),
            old(self).running_spec() is None,
        ensures
            final(self).wf(),
            final(self).next_id_spec() == old(self).next_id_spec(),
            match first_ready_index(old(self).entries_spec()) {
                Some(k) => {
                    &&& r matches Some((id, task)) && id.0 == old(self).entries_spec()[k].id
                        && task == old(self).entries_spec()[k].task
                    &&& final(self).entries_spec() == old(self).entries_spec().remove(k)
                    &&& final(self).running_spec() == Some(old(self).entries_spec()[k].id)
                },
                None => r is None && final(self).entries_spec() == old(self).entries_spec()
                    && final(self).running_spec() == old(self).running_spec(),
            },
    {
        proof {
            lemma_first_ready_index(old(self).entries_spec());
        }

        let mut i: usize = 0;
        while i < self.entries.len()
            invariant
                old(self).wf(),
                old(self).running_spec() is None,
                self == old(self),
                0 <= i <= self.entries_spec().len(),
                forall|j: int| 0 <= j < i ==> !(#[trigger] self.entries_spec()[j]).ready,
            decreases self.entries_spec().len() - i,
        {
            if self.entries[i].ready {
                proof {
                    lemma_first_ready_index(self.entries_spec());
                    assert(first_ready_index(self.entries_spec()) == Some(i as int)) by {
                        match first_ready_index(self.entries_spec()) {
                            Some(k) => {
                                if k < i as int {
                                    assert(!self.entries_spec()[k].ready);
                                } else if k > i as int {
                                    assert(!self.entries_spec()[i as int].ready);
                                }
                            },
                            None => {
                                assert(!self.entries_spec()[i as int].ready);
                            },
                        }
                    }
                }
                let entry = self.entries.remove(i);
                self.running = Some(entry.id);
                proof {
                    assert(self.ids() =~= old(self).ids().remove(i as int));
                    assert(old(self).ids()[i as int] == entry.id);
                    assert forall|t: int|
                        0 <= t < self.ids().len() implies #[trigger] self.ids()[t]
                        != entry.id by {
                        if t < i as int {
                            assert(old(self).ids()[t] != old(self).ids()[i as int]);
                        } else {
                            assert(old(self).ids()[t + 1] != old(self).ids()[i as int]);
                        }
                    }
                    assert(!self.ids().contains(entry.id));
                }
                return Some((TaskId(entry.id), entry.task));
            }
            i = i + 1;
        }

        proof {
            lemma_first_ready_index(self.entries_spec());
        }
        None
    }

    /// The polled task finished: it never re-enters the table.
    pub fn complete(&mut self, id: TaskId)
        requires
            old(self).wf(),
            old(self).running_spec() == Some(id.0),
        ensures
            final(self).wf(),
            final(self).entries_spec() == old(self).entries_spec(),
            final(self).next_id_spec() == old(self).next_id_spec(),
            final(self).running_spec() is None,
    {
        self.running = None;
    }

    /// The polled task suspended: it re-enters the table at the back,
    /// waiting for its waker before it is polled again.
    pub fn suspend(&mut self, id: TaskId, task: Task<T>)
        requires
            old(self).wf(),
            old(self).running_spec() == Some(id.0),
        ensures
            final(self).wf(),
            final(self).next_id_spec() == old(self).next_id_spec(),
            final(self).running_spec() is None,
            final(self).entries_spec().len() == old(self).entries_spec().len() + 1,
            final(self).ids() =~= old(self).ids().push(id.0),
            !final(self).entries_spec().last().ready,
            final(self).entries_spec().last().task == task,
            final(self).entries_spec().last().id == id.0,
            forall|i: int|
                0 <= i < old(self).entries_spec().len() ==> final(self).entries_spec()[i] == old(
                    self,
                ).entries_spec()[i],
    {
        self.entries.push(TaskEntry { id: id.0, ready: false, task });
        self.running = None;
        proof {
            assert(self.ids() =~= old(self).ids().push(id.0));
            assert forall|t: int|
                0 <= t < old(self).ids().len() implies #[trigger] old(self).ids()[t] != id.0 by {
                assert(!old(self).ids().contains(id.0));
            }
        }
    }

    /// A waker fired: the task with this identity becomes ready. Waking an
    /// identity that is not in the table (completed, in flight, or never
    /// spawned) changes nothing; redundant wakes are harmless.
    pub fn wake(&mut self, id: TaskId)
        requires
            old(self).wf(),
        ensures
            final(self).wf(),
            final(self).next_id_spec() == old(self).next_id_spec(),
            final(self).running_spec() == old(self).running_spec(),
            final(self).entries_spec().len() == old(self).entries_spec().len(),
            final(self).ids() =~= old(self).ids(),
            forall|i: int|
                0 <= i < old(self).entries_spec().len() ==> final(self).entries_spec()[i] == (
                if old(self).entries_spec()[i].id == id.0 {
                    TaskEntry {
                        ready: true,
                        ..old(self).entries_spec()[i]
                    }
                } else {
                    old(self).entries_spec()[i]
                }),
    {
        let mut i: usize = 0;
        while i < self.entries.len()
            invariant
                old(self).wf(),
                self == old(self),
                0 <= i <= self.entries_spec().len(),
                forall|j: int| 0 <= j < i ==> (#[trigger] self.entries_spec()[j]).id != id.0,
            decreases self.entries_spec().len() - i,
        {
            if self.entries[i].id == id.0 {
                let mut entry = self.entries.remove(i);
                entry.ready = true;
                self.entries.insert(i, entry);
                proof {
                    assert(self.entries_spec() =~= old(self).entries_spec().update(
                        i as int,
                        TaskEntry { ready: true, ..old(self).entries_spec()[i as int] },
                    ));
                    assert(self.ids() =~= old(self).ids());
                    assert forall|j: int|
                        0 <= j < old(self).entries_spec().len() && j != i as int implies (
                    #[trigger] old(self).entries_spec()[j]).id != id.0 by {
                        if j < i as int {
                            assert(old(self).ids()[j] != old(self).ids()[i as int]);
                        } else {
                            assert(old(self).ids()[i as int] != old(self).ids()[j]);
                        }
                        assert(old(self).ids()[j] == old(self).entries_spec()[j].id);
                    }
                }
                return;
            }
            i = i + 1;
        }

        proof {
            assert(self.ids() =~= old(self).ids());
        }
    }

}

} // verus!
