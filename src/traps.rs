//! AArch64 exceptions: trap frames, syndrome decoding and dispatch.
use vstd::prelude::*;

verus! {

/// The kind of an exception.
#[derive(Clone, Copy, Debug, PartialEq, Eq, Structural)]
pub enum Kind {
    Synchronous,
    Irq,
    Fiq,
    SError,
}

/// Where an exception came from.
#[derive(Clone, Copy, Debug, PartialEq, Eq, Structural)]
pub enum Source {
    CurrentSpEl0,
    CurrentSpElx,
    LowerAArch64,
    LowerAArch32,
}

/// The source and kind of an exception, as the vector table hands them on.
#[derive(Clone, Copy, Debug, PartialEq, Eq, Structural)]
pub struct Info {
    pub source: Source,
    pub kind: Kind,
}

/// The registers saved on exception entry, in the order the entry and exit
/// code lays them out.
#[derive(Clone, Copy, Debug)]
pub struct TrapFrame {
    pub elr: u64,
    pub spsr: u64,
    pub sp: u64,
    pub tpidr: u64,
    pub q: [u128; 32],
    pub x1_to_x29: [u64; 29],
    pub reserved: u64,
    pub x30: u64,
    pub x0: u64,
}

impl TrapFrame {
    /// A frame with every register zero.
    pub open spec fn is_zero(self) -> bool {
        &&& self.elr == 0
        &&& self.spsr == 0
        &&& self.sp == 0
        &&& self.tpidr == 0
        &&& forall|i: int| 0 <= i < 32 ==> self.q[i] == 0
        &&& forall|i: int| 0 <= i < 29 ==> self.x1_to_x29[i] == 0
        &&& self.reserved == 0
        &&& self.x30 == 0
        &&& self.x0 == 0
    }

    pub fn zeroed() -> (r: TrapFrame)
        ensures
            r.is_zero(),
    {
        TrapFrame {
            elr: 0,
            spsr: 0,
            sp: 0,
            tpidr: 0,
            q: [0u128; 32],
            x1_to_x29: [0u64; 29],
            reserved: 0,
            x30: 0,
            x0: 0,
        }
    }

    /// `b` is `a` with status `v` in `x7` and every other register kept.
    pub open spec fn with_x7(a: TrapFrame, b: TrapFrame, v: u64) -> bool {
        &&& b.x1_to_x29@ == a.x1_to_x29@.update(6, v)
        &&& b.x0 == a.x0 && b.elr == a.elr && b.spsr == a.spsr && b.sp == a.sp
        &&& b.tpidr == a.tpidr && b.q == a.q && b.reserved == a.reserved && b.x30 == a.x30
    }

    /// `b` is `a` with the IRQ mask bit of the status register cleared and
    /// every other register kept.
    pub open spec fn unmasked(a: TrapFrame, b: TrapFrame) -> bool {
        &&& b.spsr == a.spsr & !SPSR_IRQ_MASK
        &&& b.x1_to_x29 == a.x1_to_x29
        &&& b.x0 == a.x0 && b.elr == a.elr && b.sp == a.sp
        &&& b.tpidr == a.tpidr && b.q == a.q && b.reserved == a.reserved && b.x30 == a.x30
    }

    /// Register `x7`, where a system call leaves its status.
    pub open spec fn x7(self) -> u64 {
        self.x1_to_x29[6]
    }

    pub fn set_x7(&mut self, v: u64)
        ensures
            final(self).x7() == v,
            TrapFrame::with_x7(*old(self), *final(self), v),
            final(self).x1_to_x29@ == old(self).x1_to_x29@.update(6, v),
            final(self).x0 == old(self).x0,
            final(self).elr == old(self).elr,
            final(self).spsr == old(self).spsr,
            final(self).sp == old(self).sp,
            final(self).tpidr == old(self).tpidr,
            final(self).q == old(self).q,
            final(self).reserved == old(self).reserved,
            final(self).x30 == old(self).x30,
    {
        self.x1_to_x29[6] = v;
    }
}

impl Default for TrapFrame {
    fn default() -> (r: TrapFrame)
        ensures
            r.is_zero(),
    {
        TrapFrame::zeroed()
    }
}

/// The fault status of an abort.
#[derive(Clone, Copy, Debug, PartialEq, Eq, Structural)]
pub enum Fault {
    AddressSize,
    Translation,
    AccessFlag,
    Permission,
    Alignment,
    TlbConflict,
    Other(u8),
}

/// The fault that the low six bits `v` of a syndrome name.
pub open spec fn fault_of(v: u32) -> Fault {
    let f = v % 64;
    if f <= 0x03 {
        Fault::AddressSize
    } else if f <= 0x07 {
        Fault::Translation
    } else if 0x09 <= f <= 0x0B {
        Fault::AccessFlag
    } else if 0x0D <= f <= 0x0F {
        Fault::Permission
    } else if f == 0x21 {
        Fault::Alignment
    } else if f == 0x30 {
        Fault::TlbConflict
    } else {
        Fault::Other(f as u8)
    }
}

impl vstd::std_specs::convert::FromSpecImpl<u32> for Fault {
    open spec fn obeys_from_spec() -> bool {
        true
    }

    open spec fn from_spec(v: u32) -> Fault {
        fault_of(v)
    }
}

impl From<u32> for Fault {
    /// Decodes the fault status code in the low six bits of `v`.
    fn from(v: u32) -> (r: Fault)
        ensures
            r == fault_of(v),
    {
        let f = v % 64;
        if f <= 0x03 {
            Fault::AddressSize
        } else if f <= 0x07 {
            Fault::Translation
        } else if 0x09 <= f && f <= 0x0B {
            Fault::AccessFlag
        } else if 0x0D <= f && f <= 0x0F {
            Fault::Permission
        } else if f == 0x21 {
            Fault::Alignment
        } else if f == 0x30 {
            Fault::TlbConflict
        } else {
            Fault::Other(f as u8)
        }
    }
}

/// The syndrome of a synchronous exception.
#[derive(Clone, Copy, Debug, PartialEq, Eq, Structural)]
pub enum Syndrome {
    Unknown,
    WfiWfe,
    McrMrc,
    McrrMrrc,
    LdcStc,
    SimdFp,
    Vmrs,
    Mrrc,
    IllegalExecutionState,
    Svc(u16),
    Hvc(u16),
    Smc(u16),
    MsrMrsSystem,
    InstructionAbort { kind: Fault, level: u8 },
    PCAlignmentFault,
    DataAbort { kind: Fault, level: u8 },
    SpAlignmentFault,
    TrappedFpu,
    SError,
    Breakpoint,
    Step,
    Watchpoint,
    Brk(u16),
    Other(u32),
}

/// The exception class: bits 31..26 of the syndrome register.
pub open spec fn exception_class(esr: u32) -> u32 {
    esr / 0x0400_0000
}

/// The immediate of an instruction syndrome: its low 16 bits.
pub open spec fn imm16(esr: u32) -> u16 {
    (esr % 0x1_0000) as u16
}

/// The syndrome that the register value `esr` describes.
pub open spec fn syndrome_of(esr: u32) -> Syndrome {
    let ec = exception_class(esr);
    if ec == 0x00 {
        Syndrome::Unknown
    } else if ec == 0x01 {
        Syndrome::WfiWfe
    } else if ec == 0x03 || ec == 0x05 {
        Syndrome::McrMrc
    } else if ec == 0x04 {
        Syndrome::McrrMrrc
    } else if ec == 0x06 {
        Syndrome::LdcStc
    } else if ec == 0x07 {
        Syndrome::SimdFp
    } else if ec == 0x08 {
        Syndrome::Vmrs
    } else if ec == 0x0C {
        Syndrome::Mrrc
    } else if ec == 0x0E {
        Syndrome::IllegalExecutionState
    } else if ec == 0x11 || ec == 0x15 {
        Syndrome::Svc(imm16(esr))
    } else if ec == 0x12 || ec == 0x16 {
        Syndrome::Hvc(imm16(esr))
    } else if ec == 0x13 || ec == 0x17 {
        Syndrome::Smc(imm16(esr))
    } else if ec == 0x18 {
        Syndrome::MsrMrsSystem
    } else if ec == 0x20 || ec == 0x21 {
        Syndrome::InstructionAbort { kind: fault_of(esr), level: (ec - 0x20) as u8 }
    } else if ec == 0x22 {
        Syndrome::PCAlignmentFault
    } else if ec == 0x24 || ec == 0x25 {
        Syndrome::DataAbort { kind: fault_of(esr), level: (ec - 0x24) as u8 }
    } else if ec == 0x26 {
        Syndrome::SpAlignmentFault
    } else if ec == 0x28 || ec == 0x2C {
        Syndrome::TrappedFpu
    } else if ec == 0x2F {
        Syndrome::SError
    } else if ec == 0x30 || ec == 0x31 {
        Syndrome::Breakpoint
    } else if ec == 0x32 || ec == 0x33 {
        Syndrome::Step
    } else if ec == 0x34 || ec == 0x35 {
        Syndrome::Watchpoint
    } else if ec == 0x38 || ec == 0x3C {
        Syndrome::Brk(imm16(esr))
    } else {
        Syndrome::Other(ec)
    }
}

impl vstd::std_specs::convert::FromSpecImpl<u32> for Syndrome {
    open spec fn obeys_from_spec() -> bool {
        true
    }

    open spec fn from_spec(esr: u32) -> Syndrome {
        syndrome_of(esr)
    }
}

impl From<u32> for Syndrome {
    /// Decodes the exception syndrome register `esr` by its exception class
    /// (bits 31..26).
    fn from(esr: u32) -> (r: Syndrome)
        ensures
            r == syndrome_of(esr),
    {
        let ec = esr / 0x0400_0000;
        let imm = (esr % 0x1_0000) as u16;
        if ec == 0x00 {
            Syndrome::Unknown
        } else if ec == 0x01 {
            Syndrome::WfiWfe
        } else if ec == 0x03 || ec == 0x05 {
            Syndrome::McrMrc
        } else if ec == 0x04 {
            Syndrome::McrrMrrc
        } else if ec == 0x06 {
            Syndrome::LdcStc
        } else if ec == 0x07 {
            Syndrome::SimdFp
        } else if ec == 0x08 {
            Syndrome::Vmrs
        } else if ec == 0x0C {
            Syndrome::Mrrc
        } else if ec == 0x0E {
            Syndrome::IllegalExecutionState
        } else if ec == 0x11 || ec == 0x15 {
            Syndrome::Svc(imm)
        } else if ec == 0x12 || ec == 0x16 {
            Syndrome::Hvc(imm)
        } else if ec == 0x13 || ec == 0x17 {
            Syndrome::Smc(imm)
        } else if ec == 0x18 {
            Syndrome::MsrMrsSystem
        } else if ec == 0x20 || ec == 0x21 {
            Syndrome::InstructionAbort { kind: Fault::from(esr), level: (ec - 0x20) as u8 }
        } else if ec == 0x22 {
            Syndrome::PCAlignmentFault
        } else if ec == 0x24 || ec == 0x25 {
            Syndrome::DataAbort { kind: Fault::from(esr), level: (ec - 0x24) as u8 }
        } else if ec == 0x26 {
            Syndrome::SpAlignmentFault
        } else if ec == 0x28 || ec == 0x2C {
            Syndrome::TrappedFpu
        } else if ec == 0x2F {
            Syndrome::SError
        } else if ec == 0x30 || ec == 0x31 {
            Syndrome::Breakpoint
        } else if ec == 0x32 || ec == 0x33 {
            Syndrome::Step
        } else if ec == 0x34 || ec == 0x35 {
            Syndrome::Watchpoint
        } else if ec == 0x38 || ec == 0x3C {
            Syndrome::Brk(imm)
        } else {
            Syndrome::Other(ec)
        }
    }
}

/// What the kernel does about an exception.
#[derive(Clone, Copy, Debug, PartialEq, Eq, Structural)]
pub enum Action {
    /// Run system call `.0`.
    Syscall(u16),
    /// Skip the faulting instruction and enter the kernel shell.
    SkipToShell,
    /// Poll the interrupt controller and handle what is pending.
    HandleIrqs,
    /// Nothing to do.
    Ignore,
}

/// The action for an exception of `info` with syndrome register `esr`: a
/// synchronous `SVC` runs its system call, any other synchronous exception
/// goes to the shell past the faulting instruction, an IRQ is handled.
pub open spec fn action_of(info: Info, esr: u32) -> Action {
    match info.kind {
        Kind::Synchronous => match syndrome_of(esr) {
            Syndrome::Svc(n) => Action::Syscall(n),
            _ => Action::SkipToShell,
        },
        Kind::Irq => Action::HandleIrqs,
        _ => Action::Ignore,
    }
}

pub fn exception_action(info: Info, esr: u32) -> (r: Action)
    ensures
        r == action_of(info, esr),
{
    match info.kind {
        Kind::Synchronous => match Syndrome::from(esr) {
            Syndrome::Svc(n) => Action::Syscall(n),
            _ => Action::SkipToShell,
        },
        Kind::Irq => Action::HandleIrqs,
        _ => Action::Ignore,
    }
}

/// Moves the return address past the faulting instruction.
pub fn skip_instruction(tf: &mut TrapFrame)
    ensures
        final(tf).elr == (old(tf).elr as nat + 4) % 0x1_0000_0000_0000_0000,
        final(tf).spsr == old(tf).spsr,
        final(tf).x0 == old(tf).x0,
        final(tf).x1_to_x29 == old(tf).x1_to_x29,
{
    tf.elr = if tf.elr > u64::MAX - 4 { tf.elr - (u64::MAX - 3) } else { tf.elr + 4 };
}

/// The bit of SPSR that masks IRQs.
pub const SPSR_IRQ_MASK: u64 = 0x80;

/// Clears the IRQ mask bit (bit 7) of the saved status register, so that
/// IRQs are taken again after the return.
pub fn unmask_irq(tf: &mut TrapFrame)
    ensures
        TrapFrame::unmasked(*old(tf), *final(tf)),
        final(tf).spsr == old(tf).spsr & !SPSR_IRQ_MASK,
        final(tf).elr == old(tf).elr,
        final(tf).x0 == old(tf).x0,
        final(tf).x1_to_x29 == old(tf).x1_to_x29,
{
    tf.spsr = tf.spsr & !SPSR_IRQ_MASK;
}

} // verus!
