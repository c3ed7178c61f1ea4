//! System calls and interrupt handling on top of the scheduler.
use vstd::prelude::*;
use crate::process::{first_ready, switch_queue, switched, switched_frame, Id, Scheduler, State, WaitFor, SYSCALL_SLEEP};
use crate::traps::{unmask_irq, TrapFrame};

verus! {

/// The interrupts the kernel polls.
#[derive(Clone, Copy, Debug, PartialEq, Eq, Structural)]
pub enum Interrupt {
    Timer1,
    Timer3,
    Usb,
    Gpio0,
    Gpio1,
    Gpio2,
    Gpio3,
    Uart,
}

/// What became of the trap frame after a handler.
#[derive(Clone, Copy, Debug, PartialEq, Eq, Structural)]
pub enum Dispatch {
    /// The interrupted process goes on.
    Resumed,
    /// The frame now holds process `.0`.
    Switched(Id),
    /// No process may run now; wait for an event and schedule again.
    Idle,
}

/// The end of a sleep of `ms` milliseconds begun at `now` (microseconds),
/// held at the largest time there is.
pub open spec fn sleep_end(now: u64, ms: u32) -> u64 {
    if now as nat + ms as nat * 1000 > u64::MAX {
        u64::MAX
    } else {
        (now + ms * 1000) as u64
    }
}

/// The state a process waits in after calling `sleep(ms)` at `now`.
pub open spec fn sleep_state(now: u64, ms: u32) -> State {
    State::Waiting(WaitFor::Sleep { start: now, end: sleep_end(now, ms) })
}

/// Status `x7` of an unknown system call.
pub const STATUS_UNKNOWN_SYSCALL: u64 = 1;

/// The scheduler's answer behind a dispatch.
pub open spec fn switch_of(d: Dispatch) -> Option<Id> {
    match d {
        Dispatch::Switched(id) => Some(id),
        _ => None,
    }
}

fn dispatch_of(r: Option<Id>) -> (d: Dispatch)
    ensures
        d == (match r {
            Some(id) => Dispatch::Switched(id),
            None => Dispatch::Idle,
        }),
{
    match r {
        Some(id) => Dispatch::Switched(id),
        None => Dispatch::Idle,
    }
}

/// `sleep(ms)` at time `now`: the current process waits until `ms`
/// milliseconds have passed, and the next process that may run is
/// scheduled into `tf`.
pub fn sleep(ms: u32, tf: &mut TrapFrame, scheduler: &mut Scheduler, now: u64) -> (r: Dispatch)
    ensures
        r != Dispatch::Resumed,
        switched(*old(scheduler), *old(tf), sleep_state(now, ms), now, *final(scheduler), switch_of(r)),
        switched_frame(*old(scheduler), *old(tf), sleep_state(now, ms), now, *final(scheduler), *final(tf), switch_of(r)),
{
    let d: u64 = ms as u64 * 1000;
    let end = if now > u64::MAX - d { u64::MAX } else { now + d };
    let state = State::Waiting(WaitFor::Sleep { start: now, end });
    let r = scheduler.switch(state, tf, now);
    dispatch_of(r)
}

/// Runs system call `num` for the process whose registers are in `tf`.
/// Call 1 is `sleep`, with the milliseconds in `x0`; any other number sets
/// status 1 in `x7` and the process goes on.
pub fn handle_syscall(num: u16, tf: &mut TrapFrame, scheduler: &mut Scheduler, now: u64) -> (r: Dispatch)
    ensures
        num != SYSCALL_SLEEP ==> r == Dispatch::Resumed && TrapFrame::with_x7(
            *old(tf),
            *final(tf),
            STATUS_UNKNOWN_SYSCALL,
        ) && *final(scheduler) == *old(scheduler),
        num == SYSCALL_SLEEP ==> r != Dispatch::Resumed && switched(
            *old(scheduler),
            *old(tf),
            sleep_state(now, old(tf).x0 as u32),
            now,
            *final(scheduler),
            switch_of(r),
        ) && switched_frame(*old(scheduler), *old(tf), sleep_state(now, old(tf).x0 as u32), now, *final(scheduler), *final(tf), switch_of(r)),
{
    if num == SYSCALL_SLEEP {
        let ms = tf.x0 as u32;
        sleep(ms, tf, scheduler, now)
    } else {
        tf.set_x7(STATUS_UNKNOWN_SYSCALL);
        Dispatch::Resumed
    }
}

/// Handles `interrupt`: on the scheduling timer the current process
/// yields (state `Ready`) and the next one is scheduled; in every case IRQs
/// are unmasked in the frame that is returned to.
pub fn handle_irq(interrupt: Interrupt, tf: &mut TrapFrame, scheduler: &mut Scheduler, now: u64) -> (r: Dispatch)
    ensures
        interrupt != Interrupt::Timer1 ==> r == Dispatch::Resumed && *final(scheduler) == *old(scheduler)
            && TrapFrame::unmasked(*old(tf), *final(tf)),
        interrupt == Interrupt::Timer1 ==> match first_ready(switch_queue(*old(scheduler), *old(tf), State::Ready), now) {
            Some(i) => TrapFrame::unmasked(final(scheduler).queue()[i].trap_frame, *final(tf)),
            None => TrapFrame::unmasked(*old(tf), *final(tf)),
        },
        interrupt == Interrupt::Timer1 ==> r != Dispatch::Resumed && switched(
            *old(scheduler),
            *old(tf),
            State::Ready,
            now,
            *final(scheduler),
            switch_of(r),
        ),
        final(tf).spsr & crate::traps::SPSR_IRQ_MASK == 0,
{
    let r = if interrupt == Interrupt::Timer1 {
        let s = scheduler.switch(State::Ready, tf, now);
        dispatch_of(s)
    } else {
        Dispatch::Resumed
    };
    let before = tf.spsr;
    unmask_irq(tf);
    let spsr = tf.spsr;
    assert(spsr & 0x80u64 == 0) by (bit_vector)
        requires
            spsr == (before & !0x80u64),
    ;
    r
}

} // verus!
