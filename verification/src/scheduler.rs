use vstd::prelude::*;
use std::collections::VecDeque;
use crate::cpu::{init_switch, resumed, Cpu};
use crate::threading::Thread;

verus! {

/// Timer ticks that a thread runs before it is preempted, unless the
/// scheduler is made with another quantum.
pub const MAX_TICKS: u64 = 5;

/// Where a transition put the thread that was running.
#[derive(Clone, Copy, Debug, PartialEq, Eq, Structural)]
pub enum Handoff {
    /// At the back of the ready queue.
    Requeued,
    /// At the end of the dead set.
    Retired,
}

/// What a scheduler holds: the running thread, the ready queue in
/// scheduling order, the dead set in order of retirement, and the tick
/// accounting.
pub struct SchedulerState {
    /// The one thread that is running.
    pub current: Box<Thread>,
    /// The threads waiting to run, next first.
    pub ready: Seq<Box<Thread>>,
    /// The threads whose closure has returned, oldest first.
    pub dead: Seq<Box<Thread>>,
    /// Whether the newest dead thread was retired by the latest switch, so
    /// that its stack may still be in use.
    pub in_doubt: bool,
    /// Ticks counted since the quantum began.
    pub ticks: u64,
    /// Ticks in a quantum.
    pub quantum: u64,
    /// Name of the startup thread, which is never retired.
    pub idle_name: Seq<char>,
}

impl SchedulerState {
    /// Whether a thread is the startup thread, by its name.
    pub open spec fn is_idle(self, thread: Thread) -> bool {
        thread.name@ == self.idle_name
    }

    /// Whether the startup thread is running or waiting to run.
    pub open spec fn idle_is_live(self) -> bool {
        self.is_idle(*self.current) || exists|i: int|
            0 <= i < self.ready.len() && self.is_idle(*#[trigger] self.ready[i])
    }

    /// Whether a thread is running or waiting to run.
    pub open spec fn is_live(self, thread: Box<Thread>) -> bool {
        self.current == thread || self.ready.contains(thread)
    }

    /// Every thread is well formed, the startup thread is live and not among
    /// the dead, the tick count is below the quantum, and a thread can be in
    /// doubt only if there is a dead one.
    pub open spec fn wf(self) -> bool {
        &&& self.current.wf()
        &&& forall|i: int| 0 <= i < self.ready.len() ==> (#[trigger] self.ready[i]).wf()
        &&& forall|i: int| 0 <= i < self.dead.len() ==> (#[trigger] self.dead[i]).wf()
        &&& forall|i: int| 0 <= i < self.dead.len() ==> !self.is_idle(*#[trigger] self.dead[i])
        &&& self.idle_is_live()
        &&& (self.ticks < self.quantum || self.ticks == 0)
        &&& (self.in_doubt ==> self.dead.len() > 0)
    }

    /// The scheduler around its startup thread.
    pub open spec fn initial(init_task: Box<Thread>, quantum: u64) -> SchedulerState {
        SchedulerState {
            current: init_task,
            ready: Seq::empty(),
            dead: Seq::empty(),
            in_doubt: false,
            ticks: 0,
            quantum,
            idle_name: init_task.name@,
        }
    }

    /// A new thread joins the back of the ready queue.
    pub open spec fn add_task(self, task: Box<Thread>) -> SchedulerState {
        SchedulerState { ready: self.ready.push(task), ..self }
    }

    /// Whether a transition that finds the queue non-empty sends the running
    /// thread back to the queue: on a preemption, and always for the
    /// startup thread.
    pub open spec fn requeues(self, reschedule: bool) -> bool {
        reschedule || self.is_idle(*self.current)
    }

    /// What a transition reports: nothing when no thread is ready.
    pub open spec fn handoff(self, reschedule: bool) -> Option<Handoff> {
        if self.ready.len() == 0 {
            None
        } else if self.requeues(reschedule) {
            Some(Handoff::Requeued)
        } else {
            Some(Handoff::Retired)
        }
    }

    /// A scheduled transition. With an empty queue nothing changes. Else
    /// the front of the queue becomes the running thread, and the thread
    /// that was running goes to the back of the queue or to the dead set.
    pub open spec fn next_task(self, reschedule: bool) -> SchedulerState {
        if self.ready.len() == 0 {
            self
        } else if self.requeues(reschedule) {
            SchedulerState {
                current: self.ready[0],
                ready: self.ready.subrange(1, self.ready.len() as int).push(self.current),
                in_doubt: false,
                ..self
            }
        } else {
            SchedulerState {
                current: self.ready[0],
                ready: self.ready.subrange(1, self.ready.len() as int),
                dead: self.dead.push(self.current),
                in_doubt: true,
                ..self
            }
        }
    }

    /// The running thread has handed out its entry closure, which leaves
    /// it with none.
    pub open spec fn entry_taken(self) -> SchedulerState {
        SchedulerState {
            current: Box::new(
                Thread {
                    stack_pointer: self.current.stack_pointer,
                    entry: None,
                    stack: self.current.stack,
                    stack_base: self.current.stack_base,
                    name: self.current.name,
                },
            ),
            ..self
        }
    }

    /// Whether the tick that comes next completes the quantum.
    pub open spec fn quantum_ends(self) -> bool {
        self.ticks + 1 >= self.quantum
    }

    /// One timer tick: the count goes up, and when it reaches the quantum
    /// it is reset and the running thread is preempted.
    pub open spec fn tick(self) -> SchedulerState {
        if self.quantum_ends() {
            (SchedulerState { ticks: 0, ..self }).next_task(true)
        } else {
            SchedulerState { ticks: (self.ticks + 1) as u64, ..self }
        }
    }

    /// What a tick reports.
    pub open spec fn tick_handoff(self) -> Option<Handoff> {
        if self.quantum_ends() {
            self.handoff(true)
        } else {
            None
        }
    }

    /// The running thread has finished: the quantum starts anew and the
    /// thread is switched away from without being rescheduled.
    pub open spec fn thank_you_next(self) -> SchedulerState {
        (SchedulerState { ticks: 0, ..self }).next_task(false)
    }

    /// The dead threads whose stacks are out of use: all but one that is in
    /// doubt.
    pub open spec fn reclaimable(self) -> Seq<Box<Thread>> {
        if self.in_doubt {
            self.dead.drop_last()
        } else {
            self.dead
        }
    }

    /// The scheduler after the reclaimable threads were handed out.
    pub open spec fn reap(self) -> SchedulerState {
        SchedulerState {
            dead: if self.in_doubt {
                seq![self.dead.last()]
            } else {
                Seq::empty()
            },
            ..self
        }
    }

    /// The scheduler after that many preemptions in a row.
    pub open spec fn preempted(self, times: nat) -> SchedulerState
        decreases times,
    {
        if times == 0 {
            self
        } else {
            self.preempted((times - 1) as nat).next_task(true)
        }
    }

    /// The scheduler after that many timer ticks in a row.
    pub open spec fn ticked(self, times: nat) -> SchedulerState
        decreases times,
    {
        if times == 0 {
            self
        } else {
            self.ticked((times - 1) as nat).tick()
        }
    }
}

/// The round-robin scheduler: owns every thread, each behind its own box
/// so that it keeps its address while it moves between the queues.
pub struct Scheduler {
    current_task: Box<Thread>,
    ready_queue: VecDeque<Box<Thread>>,
    dead: Vec<Box<Thread>>,
    in_doubt: bool,
    ticks: u64,
    quantum: u64,
    idle_name: String,
}

impl View for Scheduler {
    type V = SchedulerState;

    closed spec fn view(&self) -> SchedulerState {
        SchedulerState {
            current: self.current_task,
            ready: self.ready_queue@,
            dead: self.dead@,
            in_doubt: self.in_doubt,
            ticks: self.ticks,
            quantum: self.quantum,
            idle_name: self.idle_name@,
        }
    }
}

impl Scheduler {
    /// A scheduler around the startup thread, with the default quantum.
    pub fn new(init_task: Box<Thread>) -> (scheduler: Scheduler)
        requires
            init_task.wf(),
        ensures
            scheduler@ == SchedulerState::initial(init_task, MAX_TICKS),
            scheduler@.wf(),
    {
        Scheduler::with_quantum(init_task, MAX_TICKS)
    }

    /// A scheduler around the startup thread that preempts after `quantum`
    /// ticks; a quantum of zero preempts on every tick, as one does.
    pub fn with_quantum(init_task: Box<Thread>, quantum: u64) -> (scheduler: Scheduler)
        requires
            init_task.wf(),
        ensures
            scheduler@ == SchedulerState::initial(init_task, quantum),
            scheduler@.wf(),
    {
        let idle_name = init_task.name.clone();
        Scheduler {
            current_task: init_task,
            ready_queue: VecDeque::new(),
            dead: Vec::new(),
            in_doubt: false,
            ticks: 0,
            quantum,
            idle_name,
        }
    }

    /// Enters the running thread from the boot context.
    pub fn init(&self, cpu: &mut Cpu)
        requires
            self@.wf(),
        ensures
            *final(cpu) == resumed(*self@.current, *old(cpu)),
    {
        init_switch(&self.current_task, cpu);
    }

    /// Appends a thread to the ready queue.
    pub fn add_task(&mut self, task: Box<Thread>)
        requires
            old(self)@.wf(),
            task.wf(),
        ensures
            final(self)@ == old(self)@.add_task(task),
            final(self)@.wf(),
    {
        proof {
            lemma_add_task_wf(self@, task);
        }
        self.ready_queue.push_back(task);
    }

    /// Hands out the entry closure of the running thread, once: the
    /// trampoline calls it, and whoever asks again finds nothing.
    pub fn take_current_entry(&mut self) -> (entry: Option<u64>)
        requires
            old(self)@.wf(),
        ensures
            entry == old(self)@.current.entry,
            final(self)@ == old(self)@.entry_taken(),
            final(self)@.wf(),
    {
        let entry = self.current_task.take_entry();
        proof {
            let before = old(self)@;
            let after = self@;
            if !before.is_idle(*before.current) {
                let i = choose|i: int|
                    0 <= i < before.ready.len() && before.is_idle(*#[trigger] before.ready[i]);
                assert(after.is_idle(*after.ready[i]));
            }
        }
        entry
    }

    /// Address of the lowest word of the running thread's stack.
    pub fn current_stack(&self) -> (base: u64)
        ensures
            base == self@.current.stack_base,
    {
        self.current_task.stack_base
    }

    /// The scheduled transition: makes the front of the ready queue the
    /// running thread and puts the thread that was running at the back of
    /// the queue, or, if it is not to be rescheduled and is not the startup
    /// thread, into the dead set. Does nothing when no thread is ready.
    pub fn next_task(&mut self, reschedule: bool) -> (handoff: Option<Handoff>)
        requires
            old(self)@.wf(),
        ensures
            final(self)@ == old(self)@.next_task(reschedule),
            handoff == old(self)@.handoff(reschedule),
            final(self)@.wf(),
    {
        proof {
            lemma_next_task_wf(self@, reschedule);
        }
        match self.ready_queue.pop_front() {
            None => None,
            Some(next) => {
                let mut previous = next;
                std::mem::swap(&mut self.current_task, &mut previous);
                if reschedule || previous.name == self.idle_name {
                    self.ready_queue.push_back(previous);
                    self.in_doubt = false;
                    Some(Handoff::Requeued)
                } else {
                    self.dead.push(previous);
                    self.in_doubt = true;
                    Some(Handoff::Retired)
                }
            },
        }
    }

    /// Preempts the running thread in favour of the front of the ready
    /// queue and schedules it again at the back.
    pub fn pick_next(&mut self) -> (handoff: Option<Handoff>)
        requires
            old(self)@.wf(),
        ensures
            final(self)@ == old(self)@.next_task(true),
            handoff == old(self)@.handoff(true),
            final(self)@.wf(),
    {
        self.next_task(true)
    }

    /// Accounts for one timer tick, and preempts the running thread when
    /// the tick completes its quantum.
    pub fn tick(&mut self) -> (handoff: Option<Handoff>)
        requires
            old(self)@.wf(),
        ensures
            final(self)@ == old(self)@.tick(),
            handoff == old(self)@.tick_handoff(),
            final(self)@.wf(),
    {
        if self.ticks + 1 >= self.quantum {
            self.ticks = 0;
            self.next_task(true)
        } else {
            self.ticks = self.ticks + 1;
            None
        }
    }

    /// Switches away from a running thread whose closure has returned,
    /// without rescheduling it, and starts a new quantum.
    pub fn thank_you_next(&mut self) -> (handoff: Option<Handoff>)
        requires
            old(self)@.wf(),
        ensures
            final(self)@ == old(self)@.thank_you_next(),
            handoff == old(self)@.handoff(false),
            final(self)@.wf(),
    {
        self.ticks = 0;
        self.next_task(false)
    }

    /// Hands out the dead threads whose stacks can be released: all of
    /// them, but for one that the latest switch retired.
    pub fn reap(&mut self) -> (released: Vec<Box<Thread>>)
        requires
            old(self)@.wf(),
        ensures
            released@ == old(self)@.reclaimable(),
            final(self)@ == old(self)@.reap(),
            final(self)@.wf(),
    {
        let mut released: Vec<Box<Thread>> = Vec::new();
        if self.in_doubt {
            let newest = self.dead.pop();
            std::mem::swap(&mut self.dead, &mut released);
            match newest {
                Some(thread) => {
                    self.dead.push(thread);
                },
                None => {},
            }
            assert(self.dead@ =~= seq![old(self).dead@.last()]);
        } else {
            std::mem::swap(&mut self.dead, &mut released);
        }
        released
    }

    /// The running thread.
    pub fn current(&self) -> (thread: &Thread)
        ensures
            *thread == *self@.current,
    {
        &self.current_task
    }

    /// Number of threads in the ready queue.
    pub fn ready_len(&self) -> (len: usize)
        ensures
            len == self@.ready.len(),
    {
        self.ready_queue.len()
    }

    /// The thread at a place in the ready queue, the next to run first.
    pub fn ready_thread(&self, index: usize) -> (thread: Option<&Thread>)
        ensures
            index < self@.ready.len() ==> thread is Some && *thread.unwrap() == *self@.ready[index as int],
            index >= self@.ready.len() ==> thread is None,
    {
        if index < self.ready_queue.len() {
            Some(&self.ready_queue[index])
        } else {
            None
        }
    }

    /// Number of threads in the dead set.
    pub fn dead_len(&self) -> (len: usize)
        ensures
            len == self@.dead.len(),
    {
        self.dead.len()
    }

    /// The thread at a place in the dead set, the first retired first.
    pub fn dead_thread(&self, index: usize) -> (thread: Option<&Thread>)
        ensures
            index < self@.dead.len() ==> thread is Some && *thread.unwrap() == *self@.dead[index as int],
            index >= self@.dead.len() ==> thread is None,
    {
        if index < self.dead.len() {
            Some(&self.dead[index])
        } else {
            None
        }
    }

    /// The thread that a transition with this outcome has put away: the
    /// last of the ready queue or the last of the dead set; nothing when
    /// that is empty.
    pub fn outgoing(&self, handoff: Handoff) -> (thread: Option<&Thread>)
        ensures
            match handoff {
                Handoff::Requeued => if self@.ready.len() > 0 {
                    thread is Some && *thread.unwrap() == *self@.ready.last()
                } else {
                    thread is None
                },
                Handoff::Retired => if self@.dead.len() > 0 {
                    thread is Some && *thread.unwrap() == *self@.dead.last()
                } else {
                    thread is None
                },
            },
    {
        match handoff {
            Handoff::Requeued => {
                let length = self.ready_queue.len();
                if length > 0 {
                    Some(&self.ready_queue[length - 1])
                } else {
                    None
                }
            },
            Handoff::Retired => {
                let length = self.dead.len();
                if length > 0 {
                    Some(&self.dead[length - 1])
                } else {
                    None
                }
            },
        }
    }

    /// Ticks counted in the running quantum.
    pub fn ticks(&self) -> (ticks: u64)
        ensures
            ticks == self@.ticks,
    {
        self.ticks
    }

    /// Ticks in a quantum.
    pub fn quantum(&self) -> (quantum: u64)
        ensures
            quantum == self@.quantum,
    {
        self.quantum
    }

    /// Whether the newest dead thread may still be in use.
    pub fn in_doubt(&self) -> (in_doubt: bool)
        ensures
            in_doubt == self@.in_doubt,
    {
        self.in_doubt
    }
}

/// Appending a well-formed thread keeps the scheduler well formed.
proof fn lemma_add_task_wf(s: SchedulerState, task: Box<Thread>)
    requires
        s.wf(),
        task.wf(),
    ensures
        s.add_task(task).wf(),
{
    let after = s.add_task(task);
    if !s.is_idle(*s.current) {
        let i = choose|i: int| 0 <= i < s.ready.len() && s.is_idle(*#[trigger] s.ready[i]);
        assert(after.ready[i] == s.ready[i]);
    }
}

/// A transition keeps the scheduler well formed.
proof fn lemma_next_task_wf(s: SchedulerState, reschedule: bool)
    requires
        s.wf(),
    ensures
        s.next_task(reschedule).wf(),
{
    let after = s.next_task(reschedule);
    if s.ready.len() > 0 {
        let rest = s.ready.subrange(1, s.ready.len() as int);
        assert forall|i: int| 0 <= i < rest.len() implies (#[trigger] rest[i]).wf() by {
            assert(rest[i] == s.ready[i + 1]);
        }
        if s.is_idle(*s.current) {
            assert(after.ready[after.ready.len() - 1] == s.current);
        } else {
            let i = choose|i: int| 0 <= i < s.ready.len() && s.is_idle(*#[trigger] s.ready[i]);
            if i > 0 {
                assert(after.ready[i - 1] == s.ready[i]);
            }
        }
    }
}

/// One thing that happens to a scheduler.
pub enum Step {
    /// A timer tick.
    Tick,
    /// A preemption of the running thread.
    Preempt,
    /// The running thread's closure has returned.
    Finish,
    /// A new thread was added.
    Spawn(Box<Thread>),
}

impl SchedulerState {
    /// The scheduler after one step.
    pub open spec fn step(self, step: Step) -> SchedulerState {
        match step {
            Step::Tick => self.tick(),
            Step::Preempt => self.next_task(true),
            Step::Finish => self.thank_you_next(),
            Step::Spawn(task) => self.add_task(task),
        }
    }

    /// The scheduler after a sequence of steps.
    pub open spec fn run(self, steps: Seq<Step>) -> SchedulerState
        decreases steps.len(),
    {
        if steps.len() == 0 {
            self
        } else {
            self.run(steps.drop_last()).step(steps.last())
        }
    }
}

/// Round robin: with `n` threads ready, each of the next `n` preemptions
/// runs the thread that stood at that place in the queue, and leaves behind
/// it the threads that were ahead of it, in order, after the thread that
/// was running at first. No thread is retired on the way.
pub proof fn law_round_robin(s: SchedulerState, k: nat)
    requires
        1 <= k <= s.ready.len(),
    ensures
        s.preempted(k).current == s.ready[k - 1],
        s.preempted(k).ready == s.ready.subrange(k as int, s.ready.len() as int).push(s.current)
            + s.ready.subrange(0, k - 1),
        s.preempted(k).dead == s.dead,
        s.preempted(k).ticks == s.ticks,
    decreases k,
{
    let n = s.ready.len() as int;
    if k == 1 {
        assert(s.preempted(0) == s);
        assert(s.preempted(1) == s.next_task(true));
        assert(s.preempted(1).ready =~= s.ready.subrange(1, n).push(s.current) + s.ready.subrange(
            0,
            0,
        ));
    } else {
        law_round_robin(s, (k - 1) as nat);
        let before = s.preempted((k - 1) as nat);
        assert(s.preempted(k) == before.next_task(true));
        assert(before.ready.len() == n);
        assert(before.ready[0] == s.ready[k - 1]);
        assert(s.preempted(k).ready =~= s.ready.subrange(k as int, n).push(s.current)
            + s.ready.subrange(0, k - 1));
    }
}

/// After as many preemptions as there are threads, every thread has run
/// once, the thread that ran first runs again, and the queue is as it was.
pub proof fn law_full_round(s: SchedulerState)
    requires
        s.ready.len() > 0,
    ensures
        s.preempted(s.ready.len() + 1).current == s.current,
        s.preempted(s.ready.len() + 1).ready == s.ready,
        s.preempted(s.ready.len() + 1).dead == s.dead,
{
    let n = s.ready.len();
    law_round_robin(s, n);
    let before = s.preempted(n);
    assert(s.preempted(n + 1) == before.next_task(true));
    assert(before.ready =~= seq![s.current] + s.ready.subrange(0, n - 1));
    assert(s.preempted(n + 1).ready =~= s.ready);
}

/// A quantum: from its start, fewer ticks than the quantum only count, and
/// the tick that completes it preempts the running thread and starts the
/// count anew.
pub proof fn law_quantum(s: SchedulerState, ticks: nat)
    requires
        s.ticks == 0,
        ticks <= s.quantum,
        s.quantum >= 1,
    ensures
        ticks < s.quantum ==> s.ticked(ticks) == (SchedulerState { ticks: ticks as u64, ..s }),
        ticks == s.quantum ==> s.ticked(ticks) == s.next_task(true),
    decreases ticks,
{
    if ticks > 0 {
        law_quantum(s, (ticks - 1) as nat);
        let before = s.ticked((ticks - 1) as nat);
        assert(s.ticked(ticks) == before.tick());
        assert(before == (SchedulerState { ticks: (ticks - 1) as u64, ..s }));
        if ticks == s.quantum {
            assert((SchedulerState { ticks: 0, ..before }) == s);
        }
    }
}

/// A thread that finishes, unless it is the startup thread, is switched
/// away from at once: the front of the queue runs, the queue loses only
/// its front, and the finished thread is the newest of the dead.
pub proof fn law_finish_retires(s: SchedulerState)
    requires
        s.wf(),
        !s.is_idle(*s.current),
    ensures
        s.ready.len() > 0,
        s.thank_you_next().current == s.ready[0],
        s.thank_you_next().ready == s.ready.subrange(1, s.ready.len() as int),
        s.thank_you_next().dead == s.dead.push(s.current),
        s.thank_you_next().in_doubt,
{
}

/// The startup thread is never retired: when it finishes it goes back to
/// the queue like a preempted thread, and the dead set stays as it was.
pub proof fn law_idle_never_retires(s: SchedulerState)
    requires
        s.is_idle(*s.current),
    ensures
        s.thank_you_next().dead == s.dead,
        s.thank_you_next() == (SchedulerState { ticks: 0, ..s }).next_task(true),
{
}

/// Whatever happens, a thread runs or waits to run only if it did so
/// before or was added since: no step brings a thread back from the dead.
pub proof fn law_only_live_threads_run(s: SchedulerState, steps: Seq<Step>, thread: Box<Thread>)
    requires
        s.run(steps).is_live(thread),
    ensures
        s.is_live(thread) || steps.contains(Step::Spawn(thread)),
    decreases steps.len(),
{
    if steps.len() > 0 {
        let before = s.run(steps.drop_last());
        let last = steps.last();
        let after = before.step(last);
        assert(after == s.run(steps));
        assert(steps[steps.len() - 1] == last);
        let came_from_before = before.is_live(thread);
        match last {
            Step::Spawn(task) => {
                if task != thread {
                    lemma_live_after_add(before, task, thread);
                }
            },
            Step::Tick => {
                if before.quantum_ends() {
                    lemma_live_after_next_task(
                        SchedulerState { ticks: 0, ..before },
                        true,
                        thread,
                    );
                }
            },
            Step::Preempt => {
                lemma_live_after_next_task(before, true, thread);
            },
            Step::Finish => {
                lemma_live_after_next_task(SchedulerState { ticks: 0, ..before }, false, thread);
            },
        }
        if came_from_before {
            law_only_live_threads_run(s, steps.drop_last(), thread);
            if !s.is_live(thread) {
                let i = choose|i: int|
                    0 <= i < steps.drop_last().len() && steps.drop_last()[i] == Step::Spawn(
                        thread,
                    );
                assert(steps[i] == Step::Spawn(thread));
            }
        }
    }
}

/// Whatever happens, the dead set only grows at its end: the threads that
/// were dead stay dead, in their places.
pub proof fn law_dead_stay_dead(s: SchedulerState, steps: Seq<Step>)
    ensures
        s.run(steps).dead.len() >= s.dead.len(),
        s.run(steps).dead.subrange(0, s.dead.len() as int) == s.dead,
    decreases steps.len(),
{
    if steps.len() > 0 {
        law_dead_stay_dead(s, steps.drop_last());
        let before = s.run(steps.drop_last());
        let after = before.step(steps.last());
        assert(after.dead.len() >= before.dead.len());
        assert(after.dead.subrange(0, before.dead.len() as int) =~= before.dead);
        assert(after.dead.subrange(0, s.dead.len() as int) =~= before.dead.subrange(
            0,
            s.dead.len() as int,
        ));
    } else {
        assert(s.dead.subrange(0, s.dead.len() as int) =~= s.dead);
    }
}

/// Preemption loses no thread and changes none: a thread that runs or
/// waits is, after any number of preemptions, still running or waiting,
/// with its saved stack pointer, its stack and its entry as they were.
pub proof fn law_preempted_thread_is_kept(s: SchedulerState, times: nat, thread: Box<Thread>)
    requires
        s.is_live(thread),
    ensures
        s.preempted(times).is_live(thread),
    decreases times,
{
    if times > 0 {
        law_preempted_thread_is_kept(s, (times - 1) as nat, thread);
        let before = s.preempted((times - 1) as nat);
        let after = before.next_task(true);
        assert(after == s.preempted(times));
        if before.ready.len() > 0 {
            if before.current == thread {
                assert(after.ready[after.ready.len() - 1] == thread);
            } else {
                let i = choose|i: int| 0 <= i < before.ready.len() && before.ready[i] == thread;
                if i > 0 {
                    assert(after.ready[i - 1] == thread);
                }
            }
        }
    }
}

/// A thread that has finished never runs again: whatever happens after
/// it was switched away from, it neither runs nor waits to run, and it
/// keeps its place among the dead. This holds of a thread that is not the
/// startup thread, of which no second copy waits in the queue, and which
/// is not added again.
pub proof fn law_finished_never_runs_again(s: SchedulerState, steps: Seq<Step>)
    requires
        s.wf(),
        !s.is_idle(*s.current),
        !s.ready.contains(s.current),
        !steps.contains(Step::Spawn(s.current)),
    ensures
        !s.thank_you_next().run(steps).is_live(s.current),
        s.thank_you_next().run(steps).dead.len() > s.dead.len(),
        s.thank_you_next().run(steps).dead[s.dead.len() as int] == s.current,
{
    let retired = s.thank_you_next();
    law_finish_retires(s);
    if retired.is_live(s.current) {
        if retired.current != s.current {
            let i = choose|i: int| 0 <= i < retired.ready.len() && retired.ready[i] == s.current;
            assert(s.ready[i + 1] == s.current);
        } else {
            assert(s.ready[0] == s.current);
        }
        assert(false);
    }
    if retired.run(steps).is_live(s.current) {
        law_only_live_threads_run(retired, steps, s.current);
    }
    law_dead_stay_dead(retired, steps);
    let later = retired.run(steps).dead;
    assert(later.subrange(0, retired.dead.len() as int)[s.dead.len() as int] == later[s.dead.len() as int]);
}

/// The stack of a thread that has just been retired is not released: of
/// the dead, only those retired before it can be reclaimed. Once another
/// switch has happened, it can be reclaimed too.
pub proof fn law_in_doubt_is_spared(s: SchedulerState, reschedule: bool)
    requires
        s.wf(),
        !s.is_idle(*s.current),
    ensures
        s.thank_you_next().reclaimable() == s.dead,
        s.thank_you_next().reap().dead == seq![s.current],
        s.thank_you_next().ready.len() > 0 ==> s.thank_you_next().next_task(
            reschedule,
        ).reclaimable() == s.dead.push(s.current),
{
    let retired = s.thank_you_next();
    assert(retired.dead.drop_last() =~= s.dead);
    if retired.ready.len() > 0 {
        let later = retired.next_task(reschedule);
        if later.in_doubt {
            assert(later.dead.drop_last() =~= retired.dead);
        }
    }
}

/// A thread that is live after a task was added is the task or was live.
proof fn lemma_live_after_add(s: SchedulerState, task: Box<Thread>, thread: Box<Thread>)
    requires
        s.add_task(task).is_live(thread),
        task != thread,
    ensures
        s.is_live(thread),
{
    let after = s.add_task(task);
    if after.current != thread {
        let i = choose|i: int| 0 <= i < after.ready.len() && after.ready[i] == thread;
        assert(s.ready[i] == thread);
    }
}

/// A thread that is live after a transition was live before it.
proof fn lemma_live_after_next_task(s: SchedulerState, reschedule: bool, thread: Box<Thread>)
    requires
        s.next_task(reschedule).is_live(thread),
    ensures
        s.is_live(thread),
{
    let after = s.next_task(reschedule);
    if s.ready.len() > 0 {
        if after.current == thread {
            assert(s.ready[0] == thread);
        } else {
            let i = choose|i: int| 0 <= i < after.ready.len() && after.ready[i] == thread;
            if i < s.ready.len() - 1 {
                assert(s.ready[i + 1] == thread);
            }
        }
    }
}

} // verus!
