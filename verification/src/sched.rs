//! A model of the cooperative scheduler under the three bridging strategies.
//!
//! The scheduler owns a pool of worker threads, each resuming the suspended
//! tasks scheduled on it. A task makes progress at a resumption step exactly
//! when the worker it sits on is not occupied by a synchronous blocking wait —
//! or when it is itself the task such a wait is driving, since the wait polls
//! it directly. The three strategies differ only in where they put that
//! blocking wait, and the lemmas at the bottom prove which of them preserve
//! the progress of the work already scheduled.

use vstd::prelude::*;

verus! {

/// A thread of the process: worker `w` of the scheduler's pool, or a thread
/// the scheduler does not manage.
#[derive(Clone, Copy, PartialEq, Eq, Structural, Debug)]
pub enum Thread {
    Worker(usize),
    Foreign,
}

/// Where a task runs: scheduled cooperatively on a worker, or driven by a
/// synchronous blocking wait running on some thread.
#[derive(Clone, Copy, PartialEq, Eq, Structural, Debug)]
pub enum TaskLoc {
    Scheduled { worker: usize },
    Driven { thread: Thread },
}

/// One periodic task as the scheduler sees it: where it runs and how many
/// counter values it has emitted.
#[derive(Clone, Copy, Debug)]
pub struct Task {
    pub loc: TaskLoc,
    pub count: u64,
}

/// The mathematical image of a task.
#[verifier::ext_equal]
pub ghost struct TaskView {
    pub loc: TaskLoc,
    pub count: nat,
}

impl View for Task {
    type V = TaskView;

    open spec fn view(&self) -> TaskView {
        TaskView { loc: self.loc, count: self.count as nat }
    }
}

/// A handle on the scheduler. It is obtained only from a thread the scheduler
/// manages (see [`Sched::try_handle`]); once obtained it may be copied and
/// moved freely, to a foreign thread included, and every handle on the same
/// scheduler is interchangeable with every other.
#[derive(Clone, Copy, Debug)]
pub struct Handle {
    _witness: (),
}

/// The scheduler: a pool of workers and the table of live tasks.
/// `blocked[w]` says that worker `w` is occupied by a synchronous blocking
/// wait and resumes nothing scheduled on it.
pub struct Sched {
    pub blocked: Vec<bool>,
    pub tasks: Vec<Task>,
}

/// The mathematical image of the scheduler.
#[verifier::ext_equal]
pub ghost struct SchedView {
    pub blocked: Seq<bool>,
    pub tasks: Seq<TaskView>,
}

impl View for Sched {
    type V = SchedView;

    open spec fn view(&self) -> SchedView {
        SchedView {
            blocked: self.blocked@,
            tasks: self.tasks@.map_values(|t: Task| t@),
        }
    }
}

/// A task location that speaks only of existing workers, and is `Driven` on a
/// worker only if that worker is indeed held by a blocking wait.
pub open spec fn loc_wf(loc: TaskLoc, blocked: Seq<bool>) -> bool {
    match loc {
        TaskLoc::Scheduled { worker } => worker < blocked.len(),
        TaskLoc::Driven { thread } => match thread {
            Thread::Worker(w) => w < blocked.len() && blocked[w as int],
            Thread::Foreign => true,
        },
    }
}

impl SchedView {
    /// The size of the worker pool.
    pub open spec fn num_workers(self) -> nat {
        self.blocked.len()
    }

    /// A well-formed scheduler: at least one worker, and every task sits on a
    /// thread that exists.
    pub open spec fn wf(self) -> bool {
        &&& self.num_workers() >= 1
        &&& forall|i: int|
            0 <= i < self.tasks.len() ==> loc_wf(#[trigger] self.tasks[i].loc, self.blocked)
    }

    /// Whether the scheduler manages a thread: exactly the workers of its
    /// pool. Obtaining a handle is legal only from such a thread.
    pub open spec fn manages(self, t: Thread) -> bool {
        match t {
            Thread::Worker(w) => w < self.num_workers(),
            Thread::Foreign => false,
        }
    }
}

/// Whether task `i` makes progress at a resumption step: a scheduled task
/// progresses exactly when its worker is not blocked; a task driven by a
/// blocking wait always progresses, because the wait polls it directly.
pub open spec fn task_progresses(s: SchedView, i: int) -> bool {
    match s.tasks[i].loc {
        TaskLoc::Scheduled { worker } => !s.blocked[worker as int],
        TaskLoc::Driven { thread: _ } => true,
    }
}

/// One resumption step of the whole scheduler: every task that progresses
/// emits its next counter value.
pub open spec fn tick_spec(s: SchedView) -> SchedView {
    SchedView {
        blocked: s.blocked,
        tasks: Seq::new(
            s.tasks.len(),
            |i: int|
                TaskView {
                    loc: s.tasks[i].loc,
                    count: s.tasks[i].count + if task_progresses(s, i) {
                        1nat
                    } else {
                        0nat
                    },
                },
        ),
    }
}

/// `n` resumption steps in a row.
pub open spec fn ticks_spec(s: SchedView, n: nat) -> SchedView
    decreases n,
{
    if n == 0 {
        s
    } else {
        tick_spec(ticks_spec(s, (n - 1) as nat))
    }
}

/// Scheduling a fresh task on worker `w`.
pub open spec fn spawn_spec(s: SchedView, w: usize) -> SchedView {
    SchedView {
        blocked: s.blocked,
        tasks: s.tasks.push(TaskView { loc: TaskLoc::Scheduled { worker: w }, count: 0 }),
    }
}

/// Synchronously driving a fresh task from thread `t`: if `t` is a worker,
/// that worker is occupied for the whole wait; the driven task joins the
/// table with a zeroed counter.
pub open spec fn block_on_spec(s: SchedView, t: Thread) -> SchedView {
    SchedView {
        blocked: match t {
            Thread::Worker(w) => s.blocked.update(w as int, true),
            Thread::Foreign => s.blocked,
        },
        tasks: s.tasks.push(TaskView { loc: TaskLoc::Driven { thread: t }, count: 0 }),
    }
}

/// The declare-intent-to-block notice: every task scheduled on `from` is
/// migrated to worker `to` before `from` blocks.
pub open spec fn migrate_spec(s: SchedView, from: usize, to: usize) -> SchedView {
    SchedView {
        blocked: s.blocked,
        tasks: Seq::new(
            s.tasks.len(),
            |i: int|
                if s.tasks[i].loc == (TaskLoc::Scheduled { worker: from }) {
                    TaskView { loc: TaskLoc::Scheduled { worker: to }, count: s.tasks[i].count }
                } else {
                    s.tasks[i]
                },
        ),
    }
}

impl Sched {
    /// A scheduler with `num_workers` idle workers and no tasks.
    pub fn new(num_workers: usize) -> (s: Self)
        requires
            num_workers >= 1,
        ensures
            s@.wf(),
            s@.num_workers() == num_workers,
            s@.tasks.len() == 0,
            forall|w: int| 0 <= w < num_workers ==> !s@.blocked[w],
    {
        let mut blocked: Vec<bool> = Vec::new();
        let mut i: usize = 0;
        while i < num_workers
            invariant
                i <= num_workers,
                blocked.len() == i,
                forall|w: int| 0 <= w < i ==> !blocked@[w],
            decreases num_workers - i,
        {
            blocked.push(false);
            i = i + 1;
        }
        Sched { blocked, tasks: Vec::new() }
    }

    /// Handle acquisition. It succeeds exactly on the threads the scheduler
    /// manages; from a foreign thread it returns nothing, and the caller must
    /// treat that as a fatal programming error, not a runtime condition.
    pub fn try_handle(&self, from: Thread) -> (r: Option<Handle>)
        ensures
            r is Some <==> self@.manages(from),
    {
        match from {
            Thread::Worker(w) => {
                if w < self.blocked.len() {
                    Some(Handle { _witness: () })
                } else {
                    None
                }
            },
            Thread::Foreign => None,
        }
    }

    /// Schedules a fresh task on worker `w`.
    pub fn spawn(&mut self, w: usize) -> (id: usize)
        requires
            old(self)@.wf(),
            w < old(self)@.num_workers(),
        ensures
            final(self)@ == spawn_spec(old(self)@, w),
            final(self)@.wf(),
            id == old(self)@.tasks.len(),
    {
        let id = self.tasks.len();
        self.tasks.push(Task { loc: TaskLoc::Scheduled { worker: w }, count: 0 });
        proof {
            assert(self@.tasks =~= spawn_spec(old(self)@, w).tasks);
            assert(self@ =~= spawn_spec(old(self)@, w));
        }
        id
    }

    /// Strategy A: from worker `from`, synchronously drive a fresh task with
    /// the handle, on that same worker thread. The worker is lost to the pool
    /// for the whole wait; nothing else scheduled on it will progress.
    #[allow(unused_variables)]
    pub fn strategy_a(&mut self, handle: Handle, from: usize) -> (id: usize)
        requires
            old(self)@.wf(),
            from < old(self)@.num_workers(),
            !old(self)@.blocked[from as int],
        ensures
            final(self)@ == block_on_spec(old(self)@, Thread::Worker(from)),
            final(self)@.wf(),
            id == old(self)@.tasks.len(),
    {
        self.block_on_from(Thread::Worker(from))
    }

    /// Strategy B: from worker `from`, give the declare-intent-to-block
    /// notice — migrating the work scheduled on `from` to worker `to` — and
    /// then synchronously drive a fresh task on `from`.
    ///
    /// Documented limitation: on a single-worker pool there is no other
    /// worker to migrate to (`to == from` is then the only choice), and the
    /// strategy degrades to the same starvation as strategy A
    /// (see [`lemma_b_single_worker_degrades`]).
    #[allow(unused_variables)]
    pub fn strategy_b(&mut self, handle: Handle, from: usize, to: usize) -> (id: usize)
        requires
            old(self)@.wf(),
            from < old(self)@.num_workers(),
            to < old(self)@.num_workers(),
            !old(self)@.blocked[from as int],
            !old(self)@.blocked[to as int],
            old(self)@.num_workers() >= 2 ==> to != from,
        ensures
            final(self)@ == block_on_spec(
                migrate_spec(old(self)@, from, to),
                Thread::Worker(from),
            ),
            final(self)@.wf(),
            id == old(self)@.tasks.len(),
    {
        let mut i: usize = 0;
        while i < self.tasks.len()
            invariant
                i <= self.tasks.len(),
                self.blocked@ == old(self).blocked@,
                self.tasks.len() == old(self).tasks.len(),
                forall|j: int| i <= j < self.tasks.len() ==> self.tasks@[j] == old(self).tasks@[j],
                forall|j: int|
                    0 <= j < i ==> #[trigger] self.tasks@[j]@ == migrate_spec(
                        old(self)@,
                        from,
                        to,
                    ).tasks[j],
            decreases self.tasks.len() - i,
        {
            let t = self.tasks[i];
            match t.loc {
                TaskLoc::Scheduled { worker } => {
                    if worker == from {
                        self.tasks.set(i, Task { loc: TaskLoc::Scheduled { worker: to }, ..t });
                    }
                },
                TaskLoc::Driven { thread: _ } => {},
            }
            i = i + 1;
        }
        proof {
            assert(self@.tasks =~= migrate_spec(old(self)@, from, to).tasks);
            assert(self@ =~= migrate_spec(old(self)@, from, to));
        }
        self.block_on_from(Thread::Worker(from))
    }

    /// Strategy C: move the handle to a fresh thread the scheduler never
    /// managed and synchronously drive a fresh task there. No worker is
    /// occupied, whatever the size of the pool. The handle passed here is the
    /// one acquired on a managed thread before the move: acquisition happens
    /// strictly before the delegation, never on the foreign thread itself
    /// (see [`Sched::try_handle`]).
    #[allow(unused_variables)]
    pub fn strategy_c(&mut self, handle: Handle) -> (id: usize)
        requires
            old(self)@.wf(),
        ensures
            final(self)@ == block_on_spec(old(self)@, Thread::Foreign),
            final(self)@.wf(),
            id == old(self)@.tasks.len(),
    {
        self.block_on_from(Thread::Foreign)
    }

    /// Synchronously drives a fresh task from thread `t`, occupying `t` for
    /// the whole wait if it is a worker.
    fn block_on_from(&mut self, t: Thread) -> (id: usize)
        requires
            old(self)@.wf(),
            match t {
                Thread::Worker(w) => w < old(self)@.num_workers() && !old(self)@.blocked[w as int],
                Thread::Foreign => true,
            },
        ensures
            final(self)@ == block_on_spec(old(self)@, t),
            final(self)@.wf(),
            id == old(self)@.tasks.len(),
    {
        match t {
            Thread::Worker(w) => {
                self.blocked.set(w, true);
            },
            Thread::Foreign => {},
        }
        let id = self.tasks.len();
        self.tasks.push(Task { loc: TaskLoc::Driven { thread: t }, count: 0 });
        proof {
            assert(self@.tasks =~= block_on_spec(old(self)@, t).tasks);
            assert(self@ =~= block_on_spec(old(self)@, t));
        }
        id
    }

    /// One resumption step: every task that progresses emits its next
    /// counter value.
    pub fn tick(&mut self)
        requires
            old(self)@.wf(),
            forall|i: int|
                0 <= i < old(self)@.tasks.len() ==> #[trigger] old(self)@.tasks[i].count
                    < u64::MAX,
        ensures
            final(self)@ == tick_spec(old(self)@),
            final(self)@.wf(),
    {
        let mut i: usize = 0;
        while i < self.tasks.len()
            invariant
                i <= self.tasks.len(),
                old(self)@.wf(),
                self.blocked@ == old(self).blocked@,
                self.tasks.len() == old(self).tasks.len(),
                forall|j: int|
                    0 <= j < old(self)@.tasks.len() ==> #[trigger] old(self)@.tasks[j].count
                        < u64::MAX,
                forall|j: int| i <= j < self.tasks.len() ==> self.tasks@[j] == old(self).tasks@[j],
                forall|j: int|
                    0 <= j < i ==> #[trigger] self.tasks@[j]@ == tick_spec(old(self)@).tasks[j],
            decreases self.tasks.len() - i,
        {
            let t = self.tasks[i];
            proof {
                assert(t@ == old(self)@.tasks[i as int]);
                assert(loc_wf(old(self)@.tasks[i as int].loc, old(self)@.blocked));
                assert(old(self)@.tasks[i as int].count < u64::MAX);
            }
            let progresses: bool = match t.loc {
                TaskLoc::Scheduled { worker } => !self.blocked[worker],
                TaskLoc::Driven { thread: _ } => true,
            };
            if progresses {
                self.tasks.set(i, Task { count: t.count + 1, ..t });
            }
            i = i + 1;
        }
        proof {
            assert(self@.tasks =~= tick_spec(old(self)@).tasks);
            assert(self@ =~= tick_spec(old(self)@));
        }
    }
}

/// One resumption step leaves the pool and every task's location alone, and
/// raises each counter by one exactly where the task progresses.
pub proof fn lemma_tick_frame(s: SchedView)
    requires
        s.wf(),
    ensures
        tick_spec(s).wf(),
        tick_spec(s).blocked == s.blocked,
        tick_spec(s).tasks.len() == s.tasks.len(),
        forall|i: int|
            0 <= i < s.tasks.len() ==> (#[trigger] tick_spec(s).tasks[i].loc) == s.tasks[i].loc,
        forall|i: int|
            0 <= i < s.tasks.len() ==> (#[trigger] tick_spec(s).tasks[i].count) == s.tasks[i].count
                + if task_progresses(s, i) {
                1nat
            } else {
                0nat
            },
{
}

/// Any number of resumption steps leaves the pool and every task's location
/// alone.
pub proof fn lemma_ticks_frame(s: SchedView, n: nat)
    requires
        s.wf(),
    ensures
        ticks_spec(s, n).wf(),
        ticks_spec(s, n).blocked == s.blocked,
        ticks_spec(s, n).tasks.len() == s.tasks.len(),
        forall|i: int|
            0 <= i < s.tasks.len() ==> (#[trigger] ticks_spec(s, n).tasks[i].loc) == s.tasks[i].loc,
    decreases n,
{
    if n > 0 {
        lemma_ticks_frame(s, (n - 1) as nat);
        lemma_tick_frame(ticks_spec(s, (n - 1) as nat));
    }
}

/// Driving a fresh task from a legal thread keeps the scheduler well-formed,
/// and touches no task already in the table.
pub proof fn lemma_block_on_wf(s: SchedView, t: Thread)
    requires
        s.wf(),
        match t {
            Thread::Worker(w) => w < s.num_workers(),
            Thread::Foreign => true,
        },
    ensures
        block_on_spec(s, t).wf(),
        block_on_spec(s, t).num_workers() == s.num_workers(),
        block_on_spec(s, t).tasks.len() == s.tasks.len() + 1,
        forall|i: int|
            0 <= i < s.tasks.len() ==> (#[trigger] block_on_spec(s, t).tasks[i]) == s.tasks[i],
        block_on_spec(s, t).tasks[s.tasks.len() as int] == (TaskView {
            loc: TaskLoc::Driven { thread: t },
            count: 0nat,
        }),
{
    let s1 = block_on_spec(s, t);
    assert forall|i: int| 0 <= i < s1.tasks.len() implies loc_wf(
        #[trigger] s1.tasks[i].loc,
        s1.blocked,
    ) by {
        if i < s.tasks.len() {
            assert(loc_wf(s.tasks[i].loc, s.blocked));
        }
    }
}

/// Baseline starvation under strategy A: a task scheduled on the worker the
/// blocking wait occupies emits nothing more, however many resumption steps
/// follow, while the task the wait itself drives advances at every one of
/// them. The defect is silent: no state here is an error state.
pub proof fn lemma_starvation_a(s: SchedView, b: int, from: usize, n: nat)
    requires
        s.wf(),
        0 <= b < s.tasks.len(),
        s.tasks[b].loc == (TaskLoc::Scheduled { worker: from }),
    ensures
        ticks_spec(block_on_spec(s, Thread::Worker(from)), n).tasks[b].count == s.tasks[b].count,
        ticks_spec(block_on_spec(s, Thread::Worker(from)), n).tasks[s.tasks.len() as int].count
            == n,
    decreases n,
{
    let s1 = block_on_spec(s, Thread::Worker(from));
    let d = s.tasks.len() as int;
    lemma_block_on_wf(s, Thread::Worker(from));
    if n > 0 {
        lemma_starvation_a(s, b, from, (n - 1) as nat);
        let sn = ticks_spec(s1, (n - 1) as nat);
        lemma_ticks_frame(s1, (n - 1) as nat);
        assert(sn.tasks[b].loc == (TaskLoc::Scheduled { worker: from }));
        assert(sn.blocked[from as int]);
        assert(!task_progresses(sn, b));
        assert(task_progresses(sn, d));
        lemma_tick_frame(sn);
    }
}

/// Baseline liveness under strategy B: with a second idle worker to migrate
/// to, a task scheduled on the blocking worker keeps emitting — one counter
/// value per resumption step — and the driven task advances alongside it.
pub proof fn lemma_liveness_b(s: SchedView, b: int, from: usize, to: usize, n: nat)
    requires
        s.wf(),
        s.num_workers() >= 2,
        0 <= b < s.tasks.len(),
        s.tasks[b].loc == (TaskLoc::Scheduled { worker: from }),
        to < s.num_workers(),
        to != from,
        !s.blocked[to as int],
    ensures
        ticks_spec(block_on_spec(migrate_spec(s, from, to), Thread::Worker(from)), n).tasks[b].count
            == s.tasks[b].count + n,
        ticks_spec(block_on_spec(migrate_spec(s, from, to), Thread::Worker(from)), n).tasks[s.tasks.len() as int].count
            == n,
    decreases n,
{
    let sm = migrate_spec(s, from, to);
    let s1 = block_on_spec(sm, Thread::Worker(from));
    let d = s.tasks.len() as int;
    assert(loc_wf(s.tasks[b].loc, s.blocked));
    assert forall|i: int| 0 <= i < sm.tasks.len() implies loc_wf(
        #[trigger] sm.tasks[i].loc,
        sm.blocked,
    ) by {
        assert(loc_wf(s.tasks[i].loc, s.blocked));
    }
    lemma_block_on_wf(sm, Thread::Worker(from));
    assert(sm.tasks[b].loc == (TaskLoc::Scheduled { worker: to }));
    assert(sm.tasks[b].count == s.tasks[b].count);
    if n > 0 {
        lemma_liveness_b(s, b, from, to, (n - 1) as nat);
        let sn = ticks_spec(s1, (n - 1) as nat);
        lemma_ticks_frame(s1, (n - 1) as nat);
        assert(sn.tasks[b].loc == (TaskLoc::Scheduled { worker: to }));
        assert(!sn.blocked[to as int]);
        assert(task_progresses(sn, b));
        assert(task_progresses(sn, d));
        lemma_tick_frame(sn);
    }
}

/// Baseline liveness under strategy C, on any pool: the blocking wait sits on
/// a thread the scheduler never accounted for, so every task scheduled on an
/// idle worker keeps emitting, and the driven task advances alongside it.
pub proof fn lemma_liveness_c(s: SchedView, b: int, wb: usize, n: nat)
    requires
        s.wf(),
        0 <= b < s.tasks.len(),
        s.tasks[b].loc == (TaskLoc::Scheduled { worker: wb }),
        !s.blocked[wb as int],
    ensures
        ticks_spec(block_on_spec(s, Thread::Foreign), n).tasks[b].count == s.tasks[b].count + n,
        ticks_spec(block_on_spec(s, Thread::Foreign), n).tasks[s.tasks.len() as int].count == n,
    decreases n,
{
    let s1 = block_on_spec(s, Thread::Foreign);
    let d = s.tasks.len() as int;
    lemma_block_on_wf(s, Thread::Foreign);
    if n > 0 {
        lemma_liveness_c(s, b, wb, (n - 1) as nat);
        let sn = ticks_spec(s1, (n - 1) as nat);
        lemma_ticks_frame(s1, (n - 1) as nat);
        assert(sn.tasks[b].loc == (TaskLoc::Scheduled { worker: wb }));
        assert(!sn.blocked[wb as int]);
        assert(task_progresses(sn, b));
        assert(task_progresses(sn, d));
        lemma_tick_frame(sn);
    }
}

/// Documented limitation of strategy B: on a single-worker pool the
/// declare-intent-to-block notice has nowhere to migrate the pending work,
/// and the strategy leaves exactly the state strategy A leaves.
pub proof fn lemma_b_single_worker_degrades(s: SchedView, w: usize)
    requires
        s.wf(),
        s.num_workers() == 1,
        w < s.num_workers(),
    ensures
        block_on_spec(migrate_spec(s, w, w), Thread::Worker(w)) == block_on_spec(
            s,
            Thread::Worker(w),
        ),
{
    assert(migrate_spec(s, w, w).tasks =~= s.tasks);
    assert(migrate_spec(s, w, w) =~= s);
}

/// No scheduler manages a foreign thread: handle acquisition there can never
/// succeed, whatever the scheduler's state.
pub proof fn lemma_foreign_never_managed(s: SchedView)
    ensures
        !s.manages(Thread::Foreign),
{
}

} // verus!
