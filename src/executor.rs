//! The scheduler: a table of task slots, a bounded ready queue of task
//! identifiers, and the decisions taken around each drive.
//!
//! A task is identified by its index in the table. Its slot holds the
//! computation while the task is queued or parked, is empty while the
//! computation is being driven, and is marked finished once a drive
//! reports `Done`. Whoever drives the computation asks `next_step` for
//! work and reports the outcome back through `finish_drive`.
use vstd::prelude::*;
use crate::cell::Progress;

verus! {

/// Capacity of the ready queue made by `new_executor`.
pub const MAX_QUEUED_TASKS: usize = 10_000;

/// The ready queue was at its capacity; nothing was queued.
#[derive(Clone, Copy, Debug, PartialEq, Eq, Structural)]
pub struct QueueFull;

/// The slot of one task.
pub enum Slot<F> {
    /// Queued or parked, holding its computation.
    Holding(F),
    /// Its computation has been handed out for driving.
    Driving,
    /// Its computation reported `Done`.
    Finished,
}

impl<F> Slot<F> {
    pub fn is_holding(&self) -> (r: bool)
        ensures
            r == (*self is Holding),
    {
        match self {
            Slot::Holding(_) => true,
            _ => false,
        }
    }
}

/// What the driver is to do next.
pub enum Step<F> {
    /// Drive this computation, of the task with this identifier, once.
    Drive(usize, F),
    /// A queue entry for a task that is not holding its computation was
    /// dropped; nothing to drive this time.
    Stale(usize),
    /// Nothing is queued, but work may still arrive: wait for a wakeup.
    Wait,
    /// Nothing is queued and nothing more can arrive.
    Exhausted,
}

/// Abstract state of the executor.
pub ghost struct ExecutorView<F> {
    /// The slot of each task ever spawned, by identifier.
    pub slots: Seq<Slot<F>>,
    /// The ready queue, front first.
    pub ready: Seq<usize>,
    /// Most entries the ready queue may hold.
    pub capacity: nat,
    /// Whether new tasks may still be spawned.
    pub open: bool,
}

impl<F> ExecutorView<F> {
    pub open spec fn wf(self) -> bool {
        &&& self.ready.len() <= self.capacity
        &&& forall|i: int| 0 <= i < self.ready.len() ==> self.ready[i] < self.slots.len()
    }
}

pub open spec fn all_finished<F>(slots: Seq<Slot<F>>) -> bool {
    forall|i: int| 0 <= i < slots.len() ==> slots[i] is Finished
}

/// Number of tasks that have not finished.
pub open spec fn live_count<F>(slots: Seq<Slot<F>>) -> nat
    decreases slots.len(),
{
    if slots.len() == 0 {
        0
    } else {
        live_count(slots.drop_last()) + if slots.last() is Finished {
            0nat
        } else {
            1nat
        }
    }
}

/// Spawning `f`: a new task holding `f` is queued, unless the queue is full.
pub open spec fn spawned<F>(v: ExecutorView<F>, f: F) -> (ExecutorView<F>, Result<usize, QueueFull>) {
    if v.ready.len() < v.capacity {
        let id = v.slots.len() as usize;
        (
            ExecutorView {
                slots: v.slots.push(Slot::Holding(f)),
                ready: v.ready.push(id),
                capacity: v.capacity,
                open: v.open,
            },
            Ok(id),
        )
    } else {
        (v, Err(QueueFull))
    }
}

/// Invoking a resumption handle of task `id`: the task is queued again,
/// unless the queue is full.
pub open spec fn woken<F>(v: ExecutorView<F>, id: usize) -> (ExecutorView<F>, Result<(), QueueFull>) {
    if v.ready.len() < v.capacity {
        (
            ExecutorView { slots: v.slots, ready: v.ready.push(id), capacity: v.capacity, open: v.open },
            Ok(()),
        )
    } else {
        (v, Err(QueueFull))
    }
}

/// One turn of the executor: the front entry leaves the queue and its
/// task's computation is handed out if the slot holds it; with an empty
/// queue the executor waits, or stops once the spawner is closed and
/// every task has finished.
pub open spec fn stepped<F>(v: ExecutorView<F>) -> (ExecutorView<F>, Step<F>) {
    if v.ready.len() > 0 {
        let id = v.ready[0];
        let rest = v.ready.drop_first();
        match v.slots[id as int] {
            Slot::Holding(f) => (
                ExecutorView {
                    slots: v.slots.update(id as int, Slot::Driving),
                    ready: rest,
                    capacity: v.capacity,
                    open: v.open,
                },
                Step::Drive(id, f),
            ),
            _ => (
                ExecutorView { slots: v.slots, ready: rest, capacity: v.capacity, open: v.open },
                Step::Stale(id),
            ),
        }
    } else if !v.open && all_finished(v.slots) {
        (v, Step::Exhausted)
    } else {
        (v, Step::Wait)
    }
}

/// The drive of task `id` reported `outcome`: the task finishes on `Done`,
/// and otherwise parks holding `f` again.
pub open spec fn driven<F>(v: ExecutorView<F>, id: usize, f: F, outcome: Progress) -> ExecutorView<F> {
    let slot = match outcome {
        Progress::Done => Slot::Finished,
        Progress::NotReadyYet => Slot::Holding(f),
    };
    ExecutorView {
        slots: v.slots.update(id as int, slot),
        ready: v.ready,
        capacity: v.capacity,
        open: v.open,
    }
}

/// The spawner is gone: no task will be spawned any more.
pub open spec fn closed<F>(v: ExecutorView<F>) -> ExecutorView<F> {
    ExecutorView { slots: v.slots, ready: v.ready, capacity: v.capacity, open: false }
}

proof fn lemma_live_count_push<F>(s: Seq<Slot<F>>, x: Slot<F>)
    ensures
        live_count(s.push(x)) == live_count(s) + if x is Finished {
            0nat
        } else {
            1nat
        },
{
    assert(s.push(x).drop_last() =~= s);
}

proof fn lemma_live_count_update<F>(s: Seq<Slot<F>>, i: int, x: Slot<F>)
    requires
        0 <= i < s.len(),
    ensures
        live_count(s.update(i, x)) + (if s[i] is Finished {
            0nat
        } else {
            1nat
        }) == live_count(s) + (if x is Finished {
            0nat
        } else {
            1nat
        }),
    decreases s.len(),
{
    let t = s.update(i, x);
    if i == s.len() - 1 {
        assert(t.drop_last() =~= s.drop_last());
    } else {
        assert(t.drop_last() =~= s.drop_last().update(i, x));
        lemma_live_count_update(s.drop_last(), i, x);
    }
}

proof fn lemma_live_count_bounds<F>(s: Seq<Slot<F>>)
    ensures
        live_count(s) <= s.len(),
        live_count(s) == 0 <==> all_finished(s),
    decreases s.len(),
{
    if s.len() > 0 {
        lemma_live_count_bounds(s.drop_last());
        if live_count(s) == 0 {
            assert forall|i: int| 0 <= i < s.len() implies s[i] is Finished by {
                if i < s.len() - 1 {
                    assert(s[i] == s.drop_last()[i]);
                }
            }
        }
        if all_finished(s) {
            assert(all_finished(s.drop_last()));
        }
    }
}

/// The state after `n` turns of the executor with no other event between.
pub open spec fn run_steps<F>(v: ExecutorView<F>, n: nat) -> ExecutorView<F>
    decreases n,
{
    if n == 0 {
        v
    } else {
        run_steps(stepped(v).0, (n - 1) as nat)
    }
}

/// Every transition keeps the abstract state well formed.
pub proof fn lemma_transitions_keep_wf<F>(v: ExecutorView<F>, f: F, id: usize, outcome: Progress)
    requires
        v.wf(),
    ensures
        spawned(v, f).0.wf(),
        stepped(v).0.wf(),
        closed(v).wf(),
        id < v.slots.len() ==> woken(v, id).0.wf(),
        id < v.slots.len() ==> driven(v, id, f, outcome).wf(),
{
    lemma_step_keeps_wf(v);
}

proof fn lemma_step_keeps_wf<F>(v: ExecutorView<F>)
    requires
        v.wf(),
    ensures
        stepped(v).0.wf(),
{
    let s = stepped(v).0;
    if v.ready.len() > 0 {
        assert forall|i: int| 0 <= i < s.ready.len() implies s.ready[i] < s.slots.len() by {
            assert(s.ready[i] == v.ready[i + 1]);
        }
    }
}

/// The executor stops exactly when the spawner is closed, nothing is
/// queued and every task spawned has finished: while some computation has
/// not reached `Done`, an empty queue means waiting, never stopping.
pub proof fn lemma_exhausted_iff_all_finished<F>(v: ExecutorView<F>)
    ensures
        (stepped(v).1 is Exhausted) <==> (!v.open && v.ready.len() == 0 && all_finished(v.slots)),
        (stepped(v).1 is Wait) <==> (v.ready.len() == 0 && !(!v.open && all_finished(v.slots))),
{
}

/// Once the spawner is closed and every task has finished, the executor
/// stops after exactly as many turns as there are queued entries, each of
/// them a stale one.
pub proof fn lemma_drains_when_all_finished<F>(v: ExecutorView<F>)
    requires
        v.wf(),
        !v.open,
        all_finished(v.slots),
    ensures
        stepped(run_steps(v, v.ready.len())).1 is Exhausted,
    decreases v.ready.len(),
{
    if v.ready.len() > 0 {
        let s = stepped(v).0;
        assert(stepped(v).1 is Stale);
        assert(s.slots == v.slots);
        lemma_step_keeps_wf(v);
        lemma_drains_when_all_finished(s);
        assert(run_steps(v, v.ready.len()) == run_steps(s, s.ready.len()));
    }
}

/// One turn takes exactly one entry off a non-empty queue, and drives at
/// most the task of that entry, whose slot then stays empty for the drive.
pub proof fn lemma_one_drive_per_dequeue<F>(v: ExecutorView<F>)
    requires
        v.wf(),
        v.ready.len() > 0,
    ensures
        stepped(v).0.ready == v.ready.drop_first(),
        stepped(v).1 matches Step::Drive(id, f) ==> id == v.ready[0] && v.slots[id as int]
            == Slot::Holding(f) && stepped(v).0.slots == v.slots.update(id as int, Slot::Driving),
        !(stepped(v).1 is Drive) ==> stepped(v).0.slots == v.slots,
{
}

/// A task whose computation is out for driving is never handed out again,
/// and its slot stays empty, whatever spawns, wakeups (of it or others),
/// turns and finished drives of other tasks come in between, until that
/// drive is finished.
pub proof fn lemma_no_concurrent_drive<F>(
    v: ExecutorView<F>,
    id: usize,
    f: F,
    other: usize,
    outcome: Progress,
)
    requires
        v.wf(),
        id < v.slots.len(),
        v.slots[id as int] is Driving,
        other < v.slots.len(),
    ensures
        !(stepped(v).1 matches Step::Drive(j, _) && j == id),
        stepped(v).0.slots[id as int] is Driving,
        spawned(v, f).0.slots[id as int] is Driving,
        woken(v, other).0.slots[id as int] is Driving,
        closed(v).slots[id as int] is Driving,
        other != id ==> driven(v, other, f, outcome).slots[id as int] is Driving,
{
}

/// The executor's state. The spawner, the ready queue and the driving loop
/// all act on it.
pub struct Executor<F> {
    tasks: Vec<Slot<F>>,
    ready: std::collections::VecDeque<usize>,
    capacity: usize,
    open: bool,
    live: usize,
}

impl<F> View for Executor<F> {
    type V = ExecutorView<F>;

    closed spec fn view(&self) -> ExecutorView<F> {
        ExecutorView {
            slots: self.tasks@,
            ready: self.ready@,
            capacity: self.capacity as nat,
            open: self.open,
        }
    }
}

/// An executor whose ready queue holds at most `MAX_QUEUED_TASKS` entries.
pub fn new_executor<F>() -> (e: Executor<F>)
    ensures
        e.wf(),
        e@ == (ExecutorView::<F> {
            slots: Seq::empty(),
            ready: Seq::empty(),
            capacity: MAX_QUEUED_TASKS as nat,
            open: true,
        }),
{
    Executor::new(MAX_QUEUED_TASKS)
}

impl<F> Executor<F> {
    pub closed spec fn wf(&self) -> bool {
        &&& self@.wf()
        &&& self.live as nat == live_count(self.tasks@)
    }

    /// An executor with no task, an empty ready queue of the given capacity,
    /// and its spawner open.
    pub fn new(capacity: usize) -> (e: Self)
        ensures
            e.wf(),
            e@ == (ExecutorView::<F> {
                slots: Seq::empty(),
                ready: Seq::empty(),
                capacity: capacity as nat,
                open: true,
            }),
    {
        let e = Executor {
            tasks: Vec::new(),
            ready: std::collections::VecDeque::new(),
            capacity,
            open: true,
            live: 0,
        };
        e
    }

    pub fn is_open(&self) -> (r: bool)
        ensures
            r == self@.open,
    {
        self.open
    }

    /// Number of tasks ever spawned.
    pub fn task_count(&self) -> (r: usize)
        ensures
            r as nat == self@.slots.len(),
    {
        self.tasks.len()
    }

    /// Number of entries in the ready queue.
    pub fn queued(&self) -> (r: usize)
        requires
            self.wf(),
        ensures
            r as nat == self@.ready.len(),
    {
        self.ready.len()
    }

    /// Wraps `computation` in a new task and queues it; the task's
    /// identifier is returned. Fails, changing nothing, when the ready
    /// queue is full.
    pub fn spawn(&mut self, computation: F) -> (r: Result<usize, QueueFull>)
        requires
            old(self).wf(),
            old(self)@.slots.len() < usize::MAX,
        ensures
            final(self).wf(),
            (final(self)@, r) == spawned(old(self)@, computation),
    {
        if self.ready.len() < self.capacity {
            let id = self.tasks.len();
            proof {
                lemma_live_count_bounds(self.tasks@);
                lemma_live_count_push(self.tasks@, Slot::Holding(computation));
            }
            self.tasks.push(Slot::Holding(computation));
            self.ready.push_back(id);
            self.live = self.live + 1;
            Ok(id)
        } else {
            Err(QueueFull)
        }
    }

    /// Queues task `id` again, as invoking one of its resumption handles
    /// does. Fails, changing nothing, when the ready queue is full.
    pub fn wake(&mut self, id: usize) -> (r: Result<(), QueueFull>)
        requires
            old(self).wf(),
            id < old(self)@.slots.len(),
        ensures
            final(self).wf(),
            (final(self)@, r) == woken(old(self)@, id),
    {
        if self.ready.len() < self.capacity {
            self.ready.push_back(id);
            Ok(())
        } else {
            Err(QueueFull)
        }
    }

    /// Takes the next decision of the driving loop.
    pub fn next_step(&mut self) -> (r: Step<F>)
        requires
            old(self).wf(),
        ensures
            final(self).wf(),
            (final(self)@, r) == stepped(old(self)@),
    {
        match self.ready.pop_front() {
            Some(id) => {
                if self.tasks[id].is_holding() {
                    let mut slot = Slot::Driving;
                    self.tasks.set_and_swap(id, &mut slot);
                    proof {
                        lemma_live_count_update(old(self).tasks@, id as int, Slot::Driving);
                    }
                    match slot {
                        Slot::Holding(f) => Step::Drive(id, f),
                        _ => Step::Stale(id),
                    }
                } else {
                    Step::Stale(id)
                }
            },
            None => {
                proof {
                    lemma_live_count_bounds(self.tasks@);
                }
                if !self.open && self.live == 0 {
                    Step::Exhausted
                } else {
                    Step::Wait
                }
            },
        }
    }

    /// Records the outcome of driving task `id`, whose computation `next_step`
    /// handed out and which is handed back here: on `Done` the task
    /// finishes and the computation is dropped, otherwise the task parks
    /// holding it until a resumption handle queues it again.
    pub fn finish_drive(&mut self, id: usize, computation: F, outcome: Progress)
        requires
            old(self).wf(),
            id < old(self)@.slots.len(),
            old(self)@.slots[id as int] is Driving,
        ensures
            final(self).wf(),
            final(self)@ == driven(old(self)@, id, computation, outcome),
    {
        match outcome {
            Progress::Done => {
                proof {
                    lemma_live_count_update(self.tasks@, id as int, Slot::Finished);
                }
                self.tasks.set(id, Slot::Finished);
                self.live = self.live - 1;
            },
            Progress::NotReadyYet => {
                proof {
                    lemma_live_count_update(self.tasks@, id as int, Slot::Holding(computation));
                }
                self.tasks.set(id, Slot::Holding(computation));
            },
        }
    }

    /// Closes the spawner: once every task has finished and the queue is
    /// drained, the executor is exhausted.
    pub fn close(&mut self)
        requires
            old(self).wf(),
        ensures
            final(self).wf(),
            final(self)@ == closed(old(self)@),
    {
        self.open = false;
    }
}

} // verus!
