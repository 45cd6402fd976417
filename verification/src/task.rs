//! A deterministic model of the cooperative task system.
//!
//! The blocking engine and the DNS loop lean on a cooperatively scheduled
//! task system: a task runs until it yields, waits or exits, and a FIFO run
//! queue decides who runs next. This module models that system exactly — a
//! task is a scripted sequence of steps, the scheduler owns the run queue,
//! the wait queues and a set of shared counters, and one quantum runs the
//! front task up to its next suspension point. No task is ever preempted
//! mid-step.
//!
//! The operations are total: a step naming a queue or counter that does not
//! exist does nothing, so no global invariant is needed to run a scheduler.

use vstd::prelude::*;

verus! {

/// A task identifier: the task's index in the scheduler's task list.
pub type TaskId = usize;

/// One step of a task's script. A task executes steps in order within its
/// quantum until it yields, waits or runs out of script.
#[derive(Clone, Copy, Debug, PartialEq, Eq, Structural)]
pub enum TaskStep {
    /// Give up the scheduling quantum; the task goes to the back of the run
    /// queue.
    Yield,
    /// Add one to a shared counter, saturating.
    CounterAdd(usize),
    /// Subtract one from a shared counter, saturating.
    CounterSub(usize),
    /// Wake the first waiter of a wait queue, if any.
    NotifyOne(usize),
    /// Wake every waiter of a wait queue.
    NotifyAll(usize),
    /// Block on a wait queue until a wake moves the task back to the run
    /// queue.
    Wait(usize),
}

/// One task: its identity and its script. Where the task stands — ready,
/// waiting or exited — is given by which scheduler queue holds its
/// identifier.
pub struct TaskRecord {
    /// The task's name.
    pub name: String,
    /// The stack size the task was spawned with; the model carries it as
    /// data.
    pub stack_size: usize,
    /// The task's script.
    pub steps: Vec<TaskStep>,
    /// The next step to execute.
    pub pc: usize,
    /// The code the task exits with.
    pub exit_code: i32,
}

/// The static part of two task lists agrees: same tasks, same scripts, same
/// names, same exit codes — only the program counters may differ.
pub open spec fn same_task_statics(a: Seq<TaskRecord>, b: Seq<TaskRecord>) -> bool {
    &&& a.len() == b.len()
    &&& forall|i: int|
        0 <= i < a.len() ==> {
            &&& (#[trigger] b[i]).name@ == a[i].name@
            &&& b[i].stack_size == a[i].stack_size
            &&& b[i].steps@ == a[i].steps@
            &&& b[i].exit_code == a[i].exit_code
        }
}

/// Agreement of the static parts is transitive.
pub proof fn lemma_same_task_statics_trans(
    a: Seq<TaskRecord>,
    b: Seq<TaskRecord>,
    c: Seq<TaskRecord>,
)
    requires
        same_task_statics(a, b),
        same_task_statics(b, c),
    ensures
        same_task_statics(a, c),
{
}

/// The cooperative scheduler.
pub struct Scheduler {
    tasks: Vec<TaskRecord>,
    run_queue: Vec<TaskId>,
    wait_queues: Vec<Vec<TaskId>>,
    counters: Vec<u64>,
    finished: Vec<TaskId>,
}

impl Scheduler {
    /// The task list.
    pub closed spec fn spec_tasks(self) -> Seq<TaskRecord> {
        self.tasks@
    }

    /// The run queue, front first.
    pub closed spec fn spec_run_queue(self) -> Seq<TaskId> {
        self.run_queue@
    }

    /// The wait queues.
    pub closed spec fn spec_wait_queues(self) -> Seq<Seq<TaskId>> {
        Seq::new(self.wait_queues@.len(), |q: int| self.wait_queues@[q]@)
    }

    /// The shared counters.
    pub closed spec fn spec_counters(self) -> Seq<u64> {
        self.counters@
    }

    /// The exited tasks, in completion order.
    pub closed spec fn spec_finished(self) -> Seq<TaskId> {
        self.finished@
    }

    /// A fresh scheduler: no tasks, no queues, no counters.
    pub fn new() -> (r: Scheduler)
        ensures
            r.spec_tasks().len() == 0,
            r.spec_run_queue().len() == 0,
            r.spec_wait_queues().len() == 0,
            r.spec_counters().len() == 0,
            r.spec_finished().len() == 0,
    {
        Scheduler {
            tasks: Vec::new(),
            run_queue: Vec::new(),
            wait_queues: Vec::new(),
            counters: Vec::new(),
            finished: Vec::new(),
        }
    }

    /// Creates a wait queue and returns its identifier.
    pub fn new_wait_queue(&mut self) -> (q: usize)
        ensures
            q == old(self).spec_wait_queues().len(),
            final(self).spec_wait_queues().len() == old(self).spec_wait_queues().len() + 1,
            final(self).spec_wait_queues()[q as int].len() == 0,
            forall|qq: int|
                0 <= qq < old(self).spec_wait_queues().len() ==> #[trigger] final(self).spec_wait_queues()[qq] == old(self).spec_wait_queues()[qq],
            final(self).spec_tasks() == old(self).spec_tasks(),
            final(self).spec_run_queue() == old(self).spec_run_queue(),
            final(self).spec_counters() == old(self).spec_counters(),
            final(self).spec_finished() == old(self).spec_finished(),
    {
        let q = self.wait_queues.len();
        self.wait_queues.push(Vec::new());
        proof {
            assert forall|qq: int|
                0 <= qq < old(self).spec_wait_queues().len() implies #[trigger] self.spec_wait_queues()[qq]
                == old(self).spec_wait_queues()[qq] by {
                assert(self.wait_queues@[qq] == old(self).wait_queues@[qq]);
            }
        }
        q
    }

    /// Creates a shared counter starting at zero and returns its identifier.
    pub fn new_counter(&mut self) -> (c: usize)
        ensures
            c == old(self).spec_counters().len(),
            final(self).spec_counters() == old(self).spec_counters().push(0u64),
            final(self).spec_tasks() == old(self).spec_tasks(),
            final(self).spec_run_queue() == old(self).spec_run_queue(),
            final(self).spec_wait_queues() == old(self).spec_wait_queues(),
            final(self).spec_finished() == old(self).spec_finished(),
    {
        let c = self.counters.len();
        self.counters.push(0);
        proof {
            assert(self.spec_wait_queues() =~= old(self).spec_wait_queues());
        }
        c
    }

    /// Spawns a task with a script, a name and a stack size. The task joins
    /// the back of the run queue.
    pub fn spawn_raw(
        &mut self,
        steps: Vec<TaskStep>,
        name: String,
        stack_size: usize,
        exit_code: i32,
    ) -> (id: TaskId)
        ensures
            id == old(self).spec_tasks().len(),
            final(self).spec_tasks().len() == old(self).spec_tasks().len() + 1,
            final(self).spec_tasks()[id as int].name@ == name@,
            final(self).spec_tasks()[id as int].stack_size == stack_size,
            final(self).spec_tasks()[id as int].steps@ == steps@,
            final(self).spec_tasks()[id as int].pc == 0,
            final(self).spec_tasks()[id as int].exit_code == exit_code,
            forall|i: int|
                0 <= i < old(self).spec_tasks().len() ==> final(self).spec_tasks()[i] == (
                #[trigger] old(self).spec_tasks()[i]),
            final(self).spec_run_queue() == old(self).spec_run_queue().push(id),
            final(self).spec_wait_queues() == old(self).spec_wait_queues(),
            final(self).spec_counters() == old(self).spec_counters(),
            final(self).spec_finished() == old(self).spec_finished(),
    {
        let id = self.tasks.len();
        self.tasks.push(TaskRecord { name, stack_size, steps, pc: 0, exit_code });
        self.run_queue.push(id);
        proof {
            assert(self.spec_wait_queues() =~= old(self).spec_wait_queues());
        }
        id
    }

    /// Spawns a task with a default name and stack size.
    pub fn spawn(&mut self, steps: Vec<TaskStep>, exit_code: i32) -> (id: TaskId)
        ensures
            id == old(self).spec_tasks().len(),
            final(self).spec_tasks().len() == old(self).spec_tasks().len() + 1,
            final(self).spec_tasks()[id as int].steps@ == steps@,
            final(self).spec_tasks()[id as int].pc == 0,
            final(self).spec_tasks()[id as int].exit_code == exit_code,
            forall|i: int|
                0 <= i < old(self).spec_tasks().len() ==> final(self).spec_tasks()[i] == (
                #[trigger] old(self).spec_tasks()[i]),
            final(self).spec_run_queue() == old(self).spec_run_queue().push(id),
            final(self).spec_wait_queues() == old(self).spec_wait_queues(),
            final(self).spec_counters() == old(self).spec_counters(),
            final(self).spec_finished() == old(self).spec_finished(),
    {
        self.spawn_raw(steps, String::new(), 0x1000, exit_code)
    }

    /// Moves the first waiter of queue `q`, if any, to the back of the run
    /// queue. A queue that does not exist leaves everything unchanged.
    pub fn notify_one(&mut self, q: usize)
        ensures
            final(self).spec_tasks() == old(self).spec_tasks(),
            final(self).spec_counters() == old(self).spec_counters(),
            final(self).spec_finished() == old(self).spec_finished(),
            final(self).spec_wait_queues().len() == old(self).spec_wait_queues().len(),
            q >= old(self).spec_wait_queues().len() || old(self).spec_wait_queues()[q as int].len()
                == 0 ==> final(self).spec_run_queue() == old(self).spec_run_queue() && final(self).spec_wait_queues() == old(self).spec_wait_queues(),
            q < old(self).spec_wait_queues().len() && old(self).spec_wait_queues()[q as int].len()
                > 0 ==> {
                &&& final(self).spec_run_queue() == old(self).spec_run_queue().push(
                    old(self).spec_wait_queues()[q as int][0],
                )
                &&& final(self).spec_wait_queues()[q as int] == old(self).spec_wait_queues()[
                    q as int].drop_first()
                &&& forall|qq: int|
                    0 <= qq < old(self).spec_wait_queues().len() && qq != q
                        ==> #[trigger] final(self).spec_wait_queues()[qq] == old(
                        self,
                    ).spec_wait_queues()[qq]
            },
    {
        if q >= self.wait_queues.len() {
            return ;
        }
        let mut wq = self.wait_queues.remove(q);
        if wq.len() == 0 {
            self.wait_queues.insert(q, wq);
            proof {
                assert(self.wait_queues@ =~= old(self).wait_queues@);
                assert(self.spec_wait_queues() =~= old(self).spec_wait_queues());
            }
            return ;
        }
        let woken = wq.remove(0);
        self.wait_queues.insert(q, wq);
        self.run_queue.push(woken);
        proof {
            assert(self.spec_wait_queues()[q as int] =~= old(self).spec_wait_queues()[
                q as int].drop_first());
            assert forall|qq: int|
                0 <= qq < old(self).spec_wait_queues().len() && qq != q implies #[trigger] self.spec_wait_queues()[qq]
                == old(self).spec_wait_queues()[qq] by {
                assert(self.wait_queues@[qq] == old(self).wait_queues@[qq]);
            }
        }
    }

    /// Moves every waiter of queue `q` to the run queue, in waiting order. A
    /// queue that does not exist leaves everything unchanged.
    pub fn notify_all(&mut self, q: usize)
        ensures
            final(self).spec_tasks() == old(self).spec_tasks(),
            final(self).spec_counters() == old(self).spec_counters(),
            final(self).spec_finished() == old(self).spec_finished(),
            final(self).spec_wait_queues().len() == old(self).spec_wait_queues().len(),
            q >= old(self).spec_wait_queues().len() ==> final(self).spec_run_queue() == old(
                self,
            ).spec_run_queue() && final(self).spec_wait_queues() == old(self).spec_wait_queues(),
            q < old(self).spec_wait_queues().len() ==> {
                &&& final(self).spec_wait_queues()[q as int].len() == 0
                &&& final(self).spec_run_queue() == old(self).spec_run_queue() + old(
                    self,
                ).spec_wait_queues()[q as int]
                &&& forall|qq: int|
                    0 <= qq < old(self).spec_wait_queues().len() && qq != q
                        ==> #[trigger] final(self).spec_wait_queues()[qq] == old(
                        self,
                    ).spec_wait_queues()[qq]
            },
    {
        if q >= self.wait_queues.len() {
            return ;
        }
        let ghost orig = *self;
        let mut wq = self.wait_queues.remove(q);
        let empty: Vec<TaskId> = Vec::new();
        self.wait_queues.insert(q, empty);
        proof {
            assert(orig.spec_wait_queues()[q as int] == wq@);
            assert(self.spec_wait_queues()[q as int] =~= Seq::<TaskId>::empty());
            assert forall|qq: int|
                0 <= qq < orig.spec_wait_queues().len() && qq != q implies #[trigger] self.spec_wait_queues()[qq]
                == orig.spec_wait_queues()[qq] by {
                assert(self.wait_queues@[qq] == orig.wait_queues@[qq]);
            }
        }
        let ghost mid = *self;
        let n = wq.len();
        let mut k: usize = 0;
        while k < n
            invariant
                n == wq@.len(),
                0 <= k <= n,
                self.spec_tasks() == mid.spec_tasks(),
                self.spec_counters() == mid.spec_counters(),
                self.spec_finished() == mid.spec_finished(),
                self.spec_wait_queues() == mid.spec_wait_queues(),
                self.spec_run_queue() == mid.spec_run_queue() + wq@.take(k as int),
            decreases n - k,
        {
            let woken = wq[k];
            self.run_queue.push(woken);
            proof {
                assert(wq@.take(k + 1) =~= wq@.take(k as int).push(wq@[k as int]));
                assert(self.spec_run_queue() =~= mid.spec_run_queue() + wq@.take(k + 1));
            }
            k = k + 1;
        }
        proof {
            assert(wq@.take(n as int) =~= wq@);
            assert(self.spec_run_queue() =~= orig.spec_run_queue() + orig.spec_wait_queues()[
                q as int]);
        }
    }

    /// Runs the front task of the run queue for one quantum: its steps
    /// execute in order until it yields, waits or exits. Returns whether any
    /// task ran. A stale identifier — one that names no task — is discarded.
    ///
    /// The rest of the run queue is untouched but for appends: tasks already
    /// ready keep their order — the scheduler is FIFO.
    pub fn step(&mut self) -> (progressed: bool)
        ensures
            progressed == (old(self).spec_run_queue().len() > 0),
            !progressed ==> *final(self) == *old(self),
            same_task_statics(old(self).spec_tasks(), final(self).spec_tasks()),
            forall|i: int|
                0 <= i < old(self).spec_tasks().len() ==> (#[trigger] final(self).spec_tasks()[i]).pc
                    >= old(self).spec_tasks()[i].pc,
            final(self).spec_wait_queues().len() == old(self).spec_wait_queues().len(),
            final(self).spec_counters().len() == old(self).spec_counters().len(),
            progressed ==> final(self).spec_run_queue().len() >= old(self).spec_run_queue().len()
                - 1 && forall|j: int|
                0 <= j < old(self).spec_run_queue().len() - 1 ==> #[trigger] final(self).spec_run_queue()[j] == old(self).spec_run_queue()[j + 1],
            final(self).spec_finished().len() >= old(self).spec_finished().len(),
            forall|k: int|
                0 <= k < old(self).spec_finished().len() ==> #[trigger] final(self).spec_finished()[k] == old(self).spec_finished()[k],
    {
        if self.run_queue.len() == 0 {
            return false;
        }
        let id = self.run_queue.remove(0);
        let ghost popped = *self;
        proof {
            assert(popped.spec_run_queue() =~= old(self).spec_run_queue().skip(1));
        }
        if id >= self.tasks.len() {
            return true;
        }
        let nsteps = self.tasks[id].steps.len();
        let mut pc = self.tasks[id].pc;
        if pc > nsteps {
            // cannot arise through this interface; discard the quantum
            return true;
        }
        loop
            invariant
                id < self.spec_tasks().len(),
                self.spec_tasks().len() == popped.spec_tasks().len(),
                nsteps == self.spec_tasks()[id as int].steps@.len(),
                pc <= nsteps,
                pc >= self.spec_tasks()[id as int].pc,
                same_task_statics(popped.spec_tasks(), self.spec_tasks()),
                forall|i: int|
                    0 <= i < popped.spec_tasks().len() ==> (#[trigger] self.spec_tasks()[i]).pc
                        >= popped.spec_tasks()[i].pc,
                self.spec_finished().len() >= popped.spec_finished().len(),
                forall|k: int|
                    0 <= k < popped.spec_finished().len() ==> #[trigger] self.spec_finished()[k]
                        == popped.spec_finished()[k],
                self.spec_wait_queues().len() == popped.spec_wait_queues().len(),
                self.spec_counters().len() == popped.spec_counters().len(),
                self.spec_run_queue().len() >= popped.spec_run_queue().len(),
                forall|j: int|
                    0 <= j < popped.spec_run_queue().len() ==> #[trigger] self.spec_run_queue()[j]
                        == popped.spec_run_queue()[j],
            ensures
                same_task_statics(popped.spec_tasks(), self.spec_tasks()),
                forall|i: int|
                    0 <= i < popped.spec_tasks().len() ==> (#[trigger] self.spec_tasks()[i]).pc
                        >= popped.spec_tasks()[i].pc,
                self.spec_wait_queues().len() == popped.spec_wait_queues().len(),
                self.spec_counters().len() == popped.spec_counters().len(),
                self.spec_run_queue().len() >= popped.spec_run_queue().len(),
                forall|j: int|
                    0 <= j < popped.spec_run_queue().len() ==> #[trigger] self.spec_run_queue()[j]
                        == popped.spec_run_queue()[j],
                self.spec_finished().len() >= popped.spec_finished().len(),
                forall|k: int|
                    0 <= k < popped.spec_finished().len() ==> #[trigger] self.spec_finished()[k]
                        == popped.spec_finished()[k],
            decreases nsteps - pc,
        {
            if pc >= nsteps {
                // script exhausted: the task exits
                self.set_pc(id, pc);
                self.finished.push(id);
                break ;
            }
            let s = self.tasks[id].steps[pc];
            pc = pc + 1;
            match s {
                TaskStep::Yield => {
                    self.set_pc(id, pc);
                    self.run_queue.push(id);
                    break ;
                },
                TaskStep::Wait(q) => {
                    if q < self.wait_queues.len() {
                        self.set_pc(id, pc);
                        self.enqueue_waiter(q, id);
                        break ;
                    }
                    // a wait on a queue that does not exist is ignored
                },
                TaskStep::NotifyOne(q) => {
                    self.notify_one(q);
                },
                TaskStep::NotifyAll(q) => {
                    self.notify_all(q);
                },
                TaskStep::CounterAdd(c) => {
                    if c < self.counters.len() {
                        let v = self.counters[c];
                        if v < u64::MAX {
                            self.counters.set(c, v + 1);
                        }
                    }
                },
                TaskStep::CounterSub(c) => {
                    if c < self.counters.len() {
                        let v = self.counters[c];
                        if v > 0 {
                            self.counters.set(c, v - 1);
                        }
                    }
                },
            }
        }
        true
    }

    /// Runs quanta until the run queue drains or `max_quanta` have run.
    /// Returns how many quanta ran.
    pub fn run(&mut self, max_quanta: usize) -> (used: usize)
        ensures
            used <= max_quanta,
            same_task_statics(old(self).spec_tasks(), final(self).spec_tasks()),
            forall|i: int|
                0 <= i < old(self).spec_tasks().len() ==> (#[trigger] final(self).spec_tasks()[i]).pc
                    >= old(self).spec_tasks()[i].pc,
            used < max_quanta ==> final(self).spec_run_queue().len() == 0,
    {
        let mut used: usize = 0;
        while used < max_quanta
            invariant
                used <= max_quanta,
                same_task_statics(old(self).spec_tasks(), self.spec_tasks()),
                forall|i: int|
                    0 <= i < old(self).spec_tasks().len() ==> (#[trigger] self.spec_tasks()[i]).pc
                        >= old(self).spec_tasks()[i].pc,
            decreases max_quanta - used,
        {
            let ghost before = self.spec_tasks();
            if !self.step() {
                return used;
            }
            proof {
                lemma_same_task_statics_trans(old(self).spec_tasks(), before, self.spec_tasks());
            }
            used = used + 1;
        }
        used
    }

    /// Whether the run queue is empty.
    pub fn idle(&self) -> (r: bool)
        ensures
            r == (self.spec_run_queue().len() == 0),
    {
        self.run_queue.len() == 0
    }

    /// The number of spawned tasks.
    pub fn task_count(&self) -> (r: usize)
        ensures
            r == self.spec_tasks().len(),
    {
        self.tasks.len()
    }

    /// The name a task was spawned with.
    pub fn task_name(&self, id: TaskId) -> (r: &String)
        requires
            id < self.spec_tasks().len(),
        ensures
            r@ == self.spec_tasks()[id as int].name@,
    {
        &self.tasks[id].name
    }

    /// A shared counter's value.
    pub fn counter_value(&self, c: usize) -> (r: u64)
        requires
            c < self.spec_counters().len(),
        ensures
            r == self.spec_counters()[c as int],
    {
        self.counters[c]
    }

    /// Joins a task: its exit code once it has exited, `None` while it has
    /// not.
    pub fn join(&self, id: TaskId) -> (r: Option<i32>)
        requires
            id < self.spec_tasks().len(),
        ensures
            r is Some <==> self.spec_finished().contains(id),
            r is Some ==> r == Some(self.spec_tasks()[id as int].exit_code),
    {
        let n = self.finished.len();
        let mut k: usize = 0;
        while k < n
            invariant
                n == self.spec_finished().len(),
                0 <= k <= n,
                id < self.spec_tasks().len(),
                forall|j: int| 0 <= j < k ==> (#[trigger] self.spec_finished()[j]) != id,
            decreases n - k,
        {
            if self.finished[k] == id {
                return Some(self.tasks[id].exit_code);
            }
            k = k + 1;
        }
        proof {
            assert(!self.spec_finished().contains(id));
        }
        None
    }

    /// Where a task stands in the completion order, once it has exited.
    pub fn finish_position(&self, id: TaskId) -> (r: Option<usize>)
        ensures
            match r {
                Some(k) => k < self.spec_finished().len() && self.spec_finished()[k as int] == id
                    && forall|j: int| 0 <= j < k ==> (#[trigger] self.spec_finished()[j]) != id,
                None => !self.spec_finished().contains(id),
            },
    {
        let n = self.finished.len();
        let mut k: usize = 0;
        while k < n
            invariant
                n == self.spec_finished().len(),
                0 <= k <= n,
                forall|j: int| 0 <= j < k ==> (#[trigger] self.spec_finished()[j]) != id,
            decreases n - k,
        {
            if self.finished[k] == id {
                return Some(k);
            }
            k = k + 1;
        }
        proof {
            assert(!self.spec_finished().contains(id));
        }
        None
    }

    /// Whether a task sits in some wait queue.
    pub fn in_wait_queue(&self, id: TaskId) -> (r: bool)
        ensures
            r == exists|q: int, k: int|
                0 <= q < self.spec_wait_queues().len() && 0 <= k < self.spec_wait_queues()[q].len()
                    && (#[trigger] self.spec_wait_queues()[q][k]) == id,
    {
        let nq = self.wait_queues.len();
        let mut q: usize = 0;
        while q < nq
            invariant
                nq == self.spec_wait_queues().len(),
                0 <= q <= nq,
                forall|qq: int, k: int|
                    0 <= qq < q && 0 <= k < self.spec_wait_queues()[qq].len() ==> (
                    #[trigger] self.spec_wait_queues()[qq][k]) != id,
            decreases nq - q,
        {
            let m = self.wait_queues[q].len();
            let mut k: usize = 0;
            while k < m
                invariant
                    q < self.spec_wait_queues().len(),
                    m == self.spec_wait_queues()[q as int].len(),
                    0 <= k <= m,
                    forall|j: int|
                        0 <= j < k ==> (#[trigger] self.spec_wait_queues()[q as int][j]) != id,
                decreases m - k,
            {
                if self.wait_queues[q][k] == id {
                    proof {
                        assert(self.spec_wait_queues()[q as int][k as int] == id);
                    }
                    return true;
                }
                proof {
                    assert(self.spec_wait_queues()[q as int][k as int] == self.wait_queues@[
                        q as int]@[k as int]);
                }
                k = k + 1;
            }
            q = q + 1;
        }
        false
    }

    /// Rewrites one task's program counter.
    fn set_pc(&mut self, id: TaskId, pc: usize)
        requires
            id < old(self).spec_tasks().len(),
        ensures
            final(self).spec_tasks().len() == old(self).spec_tasks().len(),
            final(self).spec_tasks()[id as int].pc == pc,
            final(self).spec_tasks()[id as int].name@ == old(self).spec_tasks()[id as int].name@,
            final(self).spec_tasks()[id as int].stack_size == old(self).spec_tasks()[
                id as int].stack_size,
            final(self).spec_tasks()[id as int].steps@ == old(self).spec_tasks()[id as int].steps@,
            final(self).spec_tasks()[id as int].exit_code == old(self).spec_tasks()[
                id as int].exit_code,
            forall|i: int|
                0 <= i < old(self).spec_tasks().len() && i != id ==> final(self).spec_tasks()[i]
                    == (#[trigger] old(self).spec_tasks()[i]),
            same_task_statics(old(self).spec_tasks(), final(self).spec_tasks()),
            final(self).spec_run_queue() == old(self).spec_run_queue(),
            final(self).spec_wait_queues() == old(self).spec_wait_queues(),
            final(self).spec_counters() == old(self).spec_counters(),
            final(self).spec_finished() == old(self).spec_finished(),
    {
        let mut t = self.tasks.remove(id);
        t.pc = pc;
        self.tasks.insert(id, t);
        proof {
            assert(self.tasks@ =~= old(self).tasks@.update(id as int, self.tasks@[id as int]));
            assert(self.spec_wait_queues() =~= old(self).spec_wait_queues());
        }
    }

    /// Appends a task to a wait queue.
    fn enqueue_waiter(&mut self, q: usize, id: TaskId)
        requires
            q < old(self).spec_wait_queues().len(),
        ensures
            final(self).spec_tasks() == old(self).spec_tasks(),
            final(self).spec_run_queue() == old(self).spec_run_queue(),
            final(self).spec_counters() == old(self).spec_counters(),
            final(self).spec_finished() == old(self).spec_finished(),
            final(self).spec_wait_queues().len() == old(self).spec_wait_queues().len(),
            final(self).spec_wait_queues()[q as int] == old(self).spec_wait_queues()[q as int].push(
                id,
            ),
            forall|qq: int|
                0 <= qq < old(self).spec_wait_queues().len() && qq != q ==> #[trigger] final(self).spec_wait_queues()[qq] == old(self).spec_wait_queues()[qq],
    {
        let mut wq = self.wait_queues.remove(q);
        wq.push(id);
        self.wait_queues.insert(q, wq);
        proof {
            assert(self.spec_wait_queues()[q as int] =~= old(self).spec_wait_queues()[
                q as int].push(id));
            assert forall|qq: int|
                0 <= qq < old(self).spec_wait_queues().len() && qq != q implies #[trigger] self.spec_wait_queues()[qq]
                == old(self).spec_wait_queues()[qq] by {
                assert(self.wait_queues@[qq] == old(self).wait_queues@[qq]);
            }
        }
    }
}

} // verus!
