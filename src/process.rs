//! User processes and the round-robin scheduler.
use vstd::prelude::*;
use crate::allocator::{spec_alloc, AllocErr, Allocator, Layout};
use crate::mutex::Mutex;
use crate::traps::TrapFrame;

verus! {

/// Process ids.
pub type Id = u64;

/// The size of a process stack.
pub const STACK_SIZE: usize = 0x10_0000;

/// The alignment of a process stack.
pub const STACK_ALIGN: usize = 16;

/// The number of the `sleep` system call.
pub const SYSCALL_SLEEP: u16 = 1;

/// The scheduling quantum, in microseconds.
pub const TICK: u32 = 2 * 1000 * 1000;

/// What a waiting process waits for.
#[derive(Clone, Copy, Debug, PartialEq, Eq, Structural)]
pub enum WaitFor {
    /// The `sleep` system call made at time `start` (microseconds), which
    /// ends at time `end`.
    Sleep { start: u64, end: u64 },
}

/// The scheduling state of a process.
#[derive(Clone, Copy, Debug, PartialEq, Eq, Structural)]
pub enum State {
    Ready,
    Running,
    Waiting(WaitFor),
}

/// The layout of a process stack.
pub open spec fn stack_layout() -> Layout {
    Layout { size: STACK_SIZE, align: STACK_ALIGN }
}

/// A process stack: an aligned region of the heap.
#[derive(Clone, Copy, Debug, PartialEq, Eq, Structural)]
pub struct Stack {
    pub bottom: usize,
    pub size: usize,
}

impl Stack {
    /// Allocates a stack from `allocator`.
    pub fn new(allocator: &mut Allocator) -> (r: Option<Stack>)
        requires
            old(allocator).wf(),
        ensures
            final(allocator).wf(),
            final(allocator)@ == spec_alloc(old(allocator)@, stack_layout()).0,
            r is Some <==> spec_alloc(old(allocator)@, stack_layout()).1 is Ok,
            r matches Some(s) ==> spec_alloc(old(allocator)@, stack_layout()).1 == Ok::<usize, AllocErr>(s.bottom)
                && s.size == STACK_SIZE && s.bottom % STACK_ALIGN == 0 && s.bottom + STACK_SIZE <= usize::MAX,
    {
        let layout = Layout { size: STACK_SIZE, align: STACK_ALIGN };
        assert(crate::allocator::is_pow2(16)) by {
            reveal_with_fuel(crate::allocator::is_pow2, 6);
        }
        assert(layout.valid());
        match allocator.allocate(layout) {
            Ok(p) => {
                proof {
                    crate::allocator::lemma_bin_of_fits(STACK_SIZE as nat);
                }
                Some(Stack { bottom: p, size: STACK_SIZE })
            },
            Err(_) => None,
        }
    }

    /// The top of the stack, where the stack pointer starts.
    pub fn top(&self) -> (r: u64)
        requires
            self.bottom + self.size <= usize::MAX,
            self.bottom + self.size <= u64::MAX,
        ensures
            r == self.bottom + self.size,
    {
        (self.bottom + self.size) as u64
    }
}

/// A process: its saved registers, its stack and its state.
#[derive(Clone, Copy, Debug)]
pub struct Process {
    pub trap_frame: TrapFrame,
    pub stack: Stack,
    pub state: State,
}

/// Whether a process in state `s` may run at time `now`.
pub open spec fn ready_at(s: State, now: u64) -> bool {
    match s {
        State::Ready => true,
        State::Running => false,
        State::Waiting(WaitFor::Sleep { start, end }) => end <= now,
    }
}

/// `after` is `before` after `is_ready` at time `now`, but for its state
/// when `keep_state` is false: a finished sleep leaves the elapsed
/// milliseconds in `x0` and status 0 in `x7`; nothing else changes.
pub open spec fn polled(before: Process, after: Process, now: u64, keep_state: bool) -> bool {
    &&& after.stack == before.stack
    &&& after.trap_frame.elr == before.trap_frame.elr
    &&& after.trap_frame.spsr == before.trap_frame.spsr
    &&& after.trap_frame.sp == before.trap_frame.sp
    &&& after.trap_frame.tpidr == before.trap_frame.tpidr
    &&& after.trap_frame.q == before.trap_frame.q
    &&& after.trap_frame.reserved == before.trap_frame.reserved
    &&& after.trap_frame.x30 == before.trap_frame.x30
    &&& match before.state {
        State::Waiting(WaitFor::Sleep { start, end }) => if end <= now {
            &&& after.trap_frame.x0 == (if start <= now { (now - start) / 1000 } else { 0 })
            &&& after.trap_frame.x1_to_x29@ == before.trap_frame.x1_to_x29@.update(6, 0)
            &&& keep_state ==> after.state == State::Ready
        } else {
            &&& after.trap_frame.x0 == before.trap_frame.x0
            &&& after.trap_frame.x1_to_x29 == before.trap_frame.x1_to_x29
            &&& keep_state ==> after.state == before.state
        },
        _ => {
            &&& after.trap_frame.x0 == before.trap_frame.x0
            &&& after.trap_frame.x1_to_x29 == before.trap_frame.x1_to_x29
            &&& keep_state ==> after.state == before.state
        },
    }
}

/// `after` is `before` chosen to run at time `now`: polled, and running.
pub open spec fn dispatched(before: Process, after: Process, now: u64) -> bool {
    polled(before, after, now, false) && after.state == State::Running
}

impl Process {
    /// A process with a fresh stack, a zeroed trap frame, and state `Ready`;
    /// `None` when no stack can be allocated.
    pub fn new(allocator: &mut Allocator) -> (r: Option<Process>)
        requires
            old(allocator).wf(),
        ensures
            final(allocator).wf(),
            final(allocator)@ == spec_alloc(old(allocator)@, stack_layout()).0,
            r is Some <==> spec_alloc(old(allocator)@, stack_layout()).1 is Ok,
            r matches Some(p) ==> spec_alloc(old(allocator)@, stack_layout()).1 == Ok::<usize, AllocErr>(p.stack.bottom)
                && p.trap_frame.is_zero() && p.state == State::Ready && p.stack.size == STACK_SIZE
                && p.stack.bottom + p.stack.size <= usize::MAX,
    {
        match Stack::new(allocator) {
            Some(stack) => Some(Process { trap_frame: TrapFrame::zeroed(), stack, state: State::Ready }),
            None => None,
        }
    }

    /// A user process that starts at `entry`: a fresh stack whose top is
    /// the stack pointer, status register 0 (EL0, interrupts unmasked), and
    /// state `Ready`; `None` when no stack can be allocated.
    pub fn new_user(allocator: &mut Allocator, entry: u64) -> (r: Option<Process>)
        requires
            old(allocator).wf(),
        ensures
            final(allocator).wf(),
            final(allocator)@ == spec_alloc(old(allocator)@, stack_layout()).0,
            r is Some <==> spec_alloc(old(allocator)@, stack_layout()).1 is Ok,
            r matches Some(p) ==> spec_alloc(old(allocator)@, stack_layout()).1 == Ok::<usize, AllocErr>(p.stack.bottom)
                && p.trap_frame.elr == entry && p.trap_frame.spsr == 0 && p.trap_frame.sp
                == p.stack.bottom + p.stack.size && p.state == State::Ready && p.stack.size == STACK_SIZE,
    {
        match Process::new(allocator) {
            Some(p) => {
                let mut p = p;
                let top = p.stack.bottom + p.stack.size;
                p.trap_frame.elr = entry;
                p.trap_frame.sp = top as u64;
                p.trap_frame.spsr = 0;
                Some(p)
            },
            None => None,
        }
    }

    /// The process id, kept in `tpidr`.
    pub fn get_id(&self) -> (r: u64)
        ensures
            r == self.trap_frame.tpidr,
    {
        self.trap_frame.tpidr
    }

    /// Whether the process may run at time `now`. A ready process may, a
    /// running one may not; a sleeping one may once its sleep has ended, and
    /// then becomes ready with the elapsed milliseconds in `x0` and status 0
    /// in `x7`.
    pub fn is_ready(&mut self, now: u64) -> (r: bool)
        ensures
            r == ready_at(old(self).state, now),
            polled(*old(self), *final(self), now, true),
    {
        match self.state {
            State::Ready => true,
            State::Running => false,
            State::Waiting(WaitFor::Sleep { start, end }) => {
                if end <= now {
                    self.trap_frame.x0 = if start <= now { (now - start) / 1000 } else { 0 };
                    self.trap_frame.set_x7(0);
                    self.state = State::Ready;
                    true
                } else {
                    false
                }
            },
        }
    }
}

/// The index of the first process of `q` that may run at time `now`.
pub open spec fn first_ready(q: Seq<Process>, now: u64) -> Option<int>
    decreases q.len(),
{
    if q.len() == 0 {
        None
    } else if ready_at(q[0].state, now) {
        Some(0)
    } else {
        match first_ready(q.drop_first(), now) {
            Some(i) => Some(i + 1),
            None => None,
        }
    }
}

proof fn lemma_first_ready(q: Seq<Process>, now: u64)
    ensures
        first_ready(q, now) matches Some(i) ==> 0 <= i < q.len() && ready_at(q[i].state, now),
    decreases q.len(),
{
    if q.len() > 0 {
        lemma_first_ready(q.drop_first(), now);
    }
}

proof fn lemma_index_of(q: Seq<Process>, id: u64)
    ensures
        index_of(q, id) matches Some(i) ==> 0 <= i < q.len() && q[i].trap_frame.tpidr == id,
    decreases q.len(),
{
    if q.len() > 0 {
        lemma_index_of(q.drop_last(), id);
    }
}

/// `o` moved on by `k`.
pub open spec fn shifted(o: Option<int>, k: int) -> Option<int> {
    match o {
        Some(j) => Some(j + k),
        None => None,
    }
}

/// The index of the process with id `id` in `q`.
pub open spec fn index_of(q: Seq<Process>, id: u64) -> Option<int>
    decreases q.len(),
{
    if q.len() == 0 {
        None
    } else if q.last().trap_frame.tpidr == id {
        Some(q.len() - 1)
    } else {
        index_of(q.drop_last(), id)
    }
}

/// The queue after the current process (at `i`) saved the frame `tf`, took
/// state `s`, and moved to the tail.
pub open spec fn requeued(q: Seq<Process>, i: int, tf: TrapFrame, s: State) -> Seq<Process> {
    q.remove(i).push(Process { trap_frame: tf, state: s, ..q[i] })
}

/// The queue once the current process of `s` (if it is in the queue) has
/// saved the frame `tf`, taken state `new_state` and moved to the tail.
pub open spec fn switch_queue(s: Scheduler, tf: TrapFrame, new_state: State) -> Seq<Process> {
    match s.spec_current() {
        Some(c) => match index_of(s.queue(), c) {
            Some(i) => requeued(s.queue(), i, tf, new_state),
            None => s.queue(),
        },
        None => s.queue(),
    }
}

/// `s2` and the result `r` are what `switch(new_state, tf, now)` makes of
/// `s`: in the requeued queue, the first process that may run at `now` is
/// polled and runs, and becomes current; with none, nothing runs.
pub open spec fn switched(s: Scheduler, tf: TrapFrame, new_state: State, now: u64, s2: Scheduler, r: Option<Id>) -> bool {
    let q = switch_queue(s, tf, new_state);
    &&& s2.spec_last_id() == s.spec_last_id()
    &&& match first_ready(q, now) {
        Some(i) => {
            &&& r == Some(q[i].trap_frame.tpidr)
            &&& s2.queue() == q.update(i, s2.queue()[i])
            &&& dispatched(q[i], s2.queue()[i], now)
            &&& s2.spec_current() == r
        },
        None => r is None && s2.queue() == q && s2.spec_current() is None,
    }
}

/// The frame after `switch`: the registers of the process that runs, or
/// the frame as it was when none does.
pub open spec fn switched_frame(s: Scheduler, tf: TrapFrame, new_state: State, now: u64, s2: Scheduler, tf2: TrapFrame, r: Option<Id>) -> bool {
    match first_ready(switch_queue(s, tf, new_state), now) {
        Some(i) => tf2 == s2.queue()[i].trap_frame,
        None => tf2 == tf,
    }
}

/// The round-robin scheduler: a queue of processes, the id of the one whose
/// registers are in the CPU, and the last id given out.
pub struct Scheduler {
    processes: Vec<Process>,
    current: Option<Id>,
    last_id: Option<Id>,
}

impl Scheduler {
    pub closed spec fn queue(&self) -> Seq<Process> {
        self.processes@
    }

    pub closed spec fn spec_current(&self) -> Option<Id> {
        self.current
    }

    pub closed spec fn spec_last_id(&self) -> Option<Id> {
        self.last_id
    }

    /// An empty scheduler.
    pub fn new() -> (r: Scheduler)
        ensures
            r.queue() == Seq::<Process>::empty(),
            r.spec_current() is None,
            r.spec_last_id() is None,
    {
        Scheduler { processes: Vec::new(), current: None, last_id: None }
    }

    /// The id of the process whose registers are in the CPU.
    pub fn current(&self) -> (r: Option<Id>)
        ensures
            r == self.spec_current(),
    {
        self.current
    }

    /// The number of processes.
    pub fn len(&self) -> (r: usize)
        ensures
            r == self.queue().len(),
    {
        self.processes.len()
    }

    /// Admits `process`: gives it the next id (1 for the first), stores the
    /// id in its `tpidr`, and appends it to the queue. The first process
    /// admitted to an empty queue becomes the current one. `None` once the
    /// ids are used up.
    pub fn add(&mut self, process: Process) -> (r: Option<Id>)
        requires
            process.state == State::Ready,
        ensures
            added(*old(self), process, *final(self), r),
    {
        let id: u64 = match self.last_id {
            Some(l) => {
                if l == u64::MAX {
                    return None;
                }
                l + 1
            },
            None => 1,
        };
        let mut p = process;
        p.trap_frame.tpidr = id;
        if self.processes.len() == 0 {
            self.current = Some(id);
        }
        self.processes.push(p);
        self.last_id = Some(id);
        Some(id)
    }

    /// Finds the process with id `id`.
    fn find(&self, id: u64) -> (r: Option<usize>)
        ensures
            r matches Some(i) ==> i < self.queue().len() && self.queue()[i as int].trap_frame.tpidr == id,
    {
        let mut i: usize = 0;
        while i < self.processes.len()
            invariant
                i <= self.processes@.len(),
            decreases self.processes@.len() - i,
        {
            if self.processes[i].trap_frame.tpidr == id {
                return Some(i);
            }
            i = i + 1;
        }
        None
    }

    /// Runs the first process that may run at time `now`: polls the queue in
    /// order, marks the chosen one `Running`, loads its registers into `tf`
    /// and makes it current. With none ready, there is no current process
    /// and `None` is returned; the caller waits for an event and asks again.
    pub fn schedule(&mut self, tf: &mut TrapFrame, now: u64) -> (r: Option<Id>)
        ensures
            match first_ready(old(self).queue(), now) {
                Some(i) => {
                    &&& r == Some(old(self).queue()[i].trap_frame.tpidr)
                    &&& final(self).queue() == old(self).queue().update(i, final(self).queue()[i])
                    &&& dispatched(old(self).queue()[i], final(self).queue()[i], now)
                    &&& *final(tf) == final(self).queue()[i].trap_frame
                    &&& final(self).spec_current() == r
                },
                None => r is None && final(self).queue() == old(self).queue() && *final(tf) == *old(tf)
                    && final(self).spec_current() is None,
            },
            final(self).spec_last_id() == old(self).spec_last_id(),
    {
        let n = self.processes.len();
        let mut i: usize = 0;
        assert(old(self).queue().skip(0) =~= old(self).queue());
        while i < n
            invariant
                n == self.processes@.len(),
                i <= n,
                *tf == *old(tf),
                self.processes@ == old(self).processes@,
                self.last_id == old(self).last_id,
                first_ready(old(self).queue(), now) == shifted(first_ready(old(self).queue().skip(i as int), now), i as int),
            decreases n - i,
        {
            let mut p = self.processes[i];
            proof {
                assert(old(self).queue().skip(i as int)[0] == p);
                assert(old(self).queue().skip(i as int).drop_first() =~= old(self).queue().skip(i + 1));
            }
            if p.is_ready(now) {
                proof {
                    assert(first_ready(old(self).queue().skip(i as int), now) == Some(0int));
                }
                p.state = State::Running;
                *tf = p.trap_frame;
                let id = p.trap_frame.tpidr;
                self.processes.set(i, p);
                self.current = Some(id);
                return Some(id);
            }
            proof {
                let a = first_ready(old(self).queue().skip(i + 1), now);
                assert(first_ready(old(self).queue().skip(i as int), now) == shifted(a, 1));
                assert(shifted(shifted(a, 1), i as int) == shifted(a, i + 1));
            }
            i = i + 1;
        }
        proof {
            assert(old(self).queue().skip(n as int) =~= Seq::<Process>::empty());
        }
        self.current = None;
        None
    }

    /// Switches processes: the current one, if any, saves `tf`, takes state
    /// `new_state` and moves to the tail of the queue; then the first process
    /// that may run at time `now` is scheduled into `tf`.
    pub fn switch(&mut self, new_state: State, tf: &mut TrapFrame, now: u64) -> (r: Option<Id>)
        requires
            new_state != State::Running,
        ensures
            switched(*old(self), *old(tf), new_state, now, *final(self), r),
            switched_frame(*old(self), *old(tf), new_state, now, *final(self), *final(tf), r),
    {
        let ghost q = match old(self).spec_current() {
            Some(c) => match index_of(old(self).queue(), c) {
                Some(i) => requeued(old(self).queue(), i, *old(tf), new_state),
                None => old(self).queue(),
            },
            None => old(self).queue(),
        };
        match self.current {
            Some(c) => {
                let found = self.find_last(c);
                proof {
                    lemma_index_of(self.queue(), c);
                }
                match found {
                    Some(i) => {
                        let mut p = self.processes.remove(i);
                        p.trap_frame = *tf;
                        p.state = new_state;
                        self.processes.push(p);
                        proof {
                            assert(self.processes@ =~= requeued(old(self).queue(), i as int, *old(tf), new_state));
                            assert(self.queue() == q);
                        }
                    },
                    None => {
                        assert(self.queue() == q);
                    },
                }
            },
            None => {
                assert(self.queue() == q);
            },
        }
        assert(self.queue() == q);
        proof {
            lemma_first_ready(q, now);
        }
        self.schedule(tf, now)
    }

    /// Finds the last process with id `id`.
    fn find_last(&self, id: u64) -> (r: Option<usize>)
        ensures
            match index_of(self.queue(), id) {
                Some(i) => r == Some(i as usize),
                None => r is None,
            },
    {
        let mut i: usize = self.processes.len();
        assert(self.queue().take(i as int) =~= self.queue());
        while i > 0
            invariant
                i <= self.processes@.len(),
                index_of(self.queue(), id) == index_of(self.queue().take(i as int), id),
            decreases i,
        {
            proof {
                assert(self.queue().take(i as int).drop_last() =~= self.queue().take(i - 1));
            }
            if self.processes[i - 1].trap_frame.tpidr == id {
                return Some(i - 1);
            }
            i = i - 1;
        }
        None
    }
}

/// `s2` and `r` are what `Scheduler::add(process)` makes of `s`.
pub open spec fn added(s: Scheduler, process: Process, s2: Scheduler, r: Option<Id>) -> bool {
    &&& (r is None <==> s.spec_last_id() == Some(u64::MAX))
    &&& r is None ==> s2 == s
    &&& r matches Some(id) ==> {
        &&& id == (match s.spec_last_id() {
            Some(l) => l + 1,
            None => 1,
        })
        &&& s2.spec_last_id() == Some(id)
        &&& s2.queue() == s.queue().push(
            Process { trap_frame: TrapFrame { tpidr: id, ..process.trap_frame }, ..process },
        )
        &&& s2.spec_current() == (if s.queue().len() == 0 {
            Some(id)
        } else {
            s.spec_current()
        })
    }
}

/// The machine's scheduler: none until it is initialized, behind a lock.
pub struct GlobalScheduler {
    inner: Mutex<Option<Scheduler>>,
}

impl GlobalScheduler {
    /// The scheduler, once initialized.
    pub closed spec fn scheduler(&self) -> Option<Scheduler> {
        self.inner.value()
    }

    pub closed spec fn wf(&self) -> bool {
        !self.inner.is_locked()
    }

    /// A scheduler that is not initialized yet.
    pub fn uninitialized() -> (r: GlobalScheduler)
        ensures
            r.wf(),
            r.scheduler() is None,
    {
        GlobalScheduler { inner: Mutex::new(None) }
    }

    /// Initializes the scheduler with an empty queue.
    pub fn initialize(&mut self)
        requires
            old(self).wf(),
        ensures
            final(self).wf(),
            final(self).scheduler() matches Some(s) && s.queue() == Seq::<Process>::empty()
                && s.spec_current() is None && s.spec_last_id() is None,
    {
        self.inner.lock();
        self.inner.replace(Some(Scheduler::new()));
        self.inner.unlock();
    }

    /// `Scheduler::add` on the initialized scheduler.
    pub fn add(&mut self, process: Process) -> (r: Option<Id>)
        requires
            old(self).wf(),
            old(self).scheduler() is Some,
            process.state == State::Ready,
        ensures
            final(self).wf(),
            final(self).scheduler() matches Some(s2) && added(old(self).scheduler()->0, process, s2, r),
    {
        self.inner.lock();
        let taken = self.inner.replace(None);
        let mut s = taken.unwrap();
        let r = s.add(process);
        self.inner.replace(Some(s));
        self.inner.unlock();
        r
    }

    /// `Scheduler::switch` on the initialized scheduler.
    pub fn switch(&mut self, new_state: State, tf: &mut TrapFrame, now: u64) -> (r: Option<Id>)
        requires
            old(self).wf(),
            old(self).scheduler() is Some,
            new_state != State::Running,
        ensures
            final(self).wf(),
            final(self).scheduler() matches Some(s2) && switched(old(self).scheduler()->0, *old(tf), new_state, now, s2, r)
                && switched_frame(old(self).scheduler()->0, *old(tf), new_state, now, s2, *final(tf), r),
    {
        self.inner.lock();
        let taken = self.inner.replace(None);
        let mut s = taken.unwrap();
        let r = s.switch(new_state, tf, now);
        self.inner.replace(Some(s));
        self.inner.unlock();
        r
    }
}

} // verus!
