use pios::allocator::{
    align_down, align_up, bin_size, has_alignment, is_power_of_two, previous_power_of_two,
    size_to_bin_number, AllocErr, Allocator, Layout,
};
use pios::gpio::{Gpio, GpioMode};
use pios::mutex::Mutex;
use pios::process::{GlobalScheduler, Process, Scheduler, State, WaitFor, STACK_SIZE};
use pios::shell::{edit, parse_command, CommandError, Edit, BACKSPACE, DELETE};
use pios::syscall::{handle_irq, handle_syscall, sleep, Dispatch, Interrupt};
use pios::traps::{exception_action, skip_instruction, Action, Fault, Info, Kind, Source, Syndrome, TrapFrame};

#[test]
fn test_previous_power_of_two() {
    assert_eq!(previous_power_of_two(0), 0);
    assert_eq!(previous_power_of_two(1), 0);
    assert_eq!(previous_power_of_two(5), 4);
    assert_eq!(previous_power_of_two(4), 4);
    assert_eq!(previous_power_of_two(96), 64);
    assert_eq!(previous_power_of_two(1 << 32), 1 << 32);
    assert_eq!(previous_power_of_two(1 << 14), 1 << 14);
    assert_eq!(previous_power_of_two(1 << 30 - 1), 1 << 29);
}

#[test]
fn allocator_size_classes() {
    assert_eq!(bin_size(1), 8);
    assert_eq!(bin_size(8), 8);
    assert_eq!(bin_size(9), 16);
    assert_eq!(bin_size(24), 32);
    assert_eq!(bin_size(4096), 4096);
    assert_eq!(size_to_bin_number(1), 0);
    assert_eq!(size_to_bin_number(8), 0);
    assert_eq!(size_to_bin_number(9), 1);
    assert_eq!(size_to_bin_number(4097), 10);
    assert!(is_power_of_two(64));
    assert!(!is_power_of_two(0));
    assert!(!is_power_of_two(96));
    assert_eq!(align_up(0x1001, 64), 0x1040);
    assert_eq!(align_up(0x1000, 64), 0x1000);
    assert_eq!(align_down(0x107F, 64), 0x1040);
    assert!(has_alignment(0x1040, 64));
    assert!(!has_alignment(0x1041, 64));
}

#[test]
fn allocator_alignment_and_reuse() {
    let mut a = Allocator::new(0x1000, 0x2000);
    let layout = Layout::from_size_align(24, 64).expect("valid layout");
    let p = a.allocate(layout).expect("room");
    assert_eq!(p % 64, 0);
    assert!(p >= 0x1000);
    assert!(p + 32 <= 0x2000);
    a.dealloc(p, layout);
    assert_eq!(a.allocate(layout), Ok(p));
}

#[test]
fn allocator_errors() {
    let mut a = Allocator::new(0x1000, 0x1100);
    assert_eq!(a.allocate(Layout::from_size_align(0x101, 8).unwrap()), Err(AllocErr::Unsupported));
    let l = Layout::from_size_align(0x100, 8).unwrap();
    assert_eq!(a.allocate(l), Ok(0x1000));
    assert_eq!(a.allocate(l), Err(AllocErr::Exhausted));
    assert!(Layout::from_size_align(0, 8).is_none());
    assert!(Layout::from_size_align(8, 3).is_none());
}

#[test]
fn allocator_first_fit_skips_misaligned() {
    let mut a = Allocator::new(0x1000, 0x3000);
    let small = Layout::from_size_align(16, 16).unwrap();
    let p1 = a.allocate(small).unwrap();
    let p2 = a.allocate(small).unwrap();
    assert_eq!((p1, p2), (0x1000, 0x1010));
    a.dealloc(p1, small);
    a.dealloc(p2, small);
    let wide = Layout::from_size_align(16, 0x1000).unwrap();
    assert_eq!(a.allocate(wide), Ok(0x1000));
    assert_eq!(a.allocate(small), Ok(0x1010));
}

#[test]
fn syndrome_decoding() {
    assert_eq!(Syndrome::from(0x5600_0001), Syndrome::Svc(1));
    assert_eq!(Syndrome::from(0x5400_002A), Syndrome::Svc(0x2A));
    assert_eq!(Syndrome::from(0xF200_0003), Syndrome::Brk(3));
    assert_eq!(Syndrome::from(0x9200_0005), Syndrome::DataAbort { kind: Fault::Translation, level: 0 });
    assert_eq!(Syndrome::from(0x9600_0021), Syndrome::DataAbort { kind: Fault::Alignment, level: 1 });
    assert_eq!(Syndrome::from(0x8200_000D), Syndrome::InstructionAbort { kind: Fault::Permission, level: 0 });
    assert_eq!(Syndrome::from(0x0000_0000), Syndrome::Unknown);
    assert_eq!(Syndrome::from(0x0400_0000), Syndrome::WfiWfe);
    assert_eq!(Syndrome::from(0xFC00_0000), Syndrome::Other(0x3F));
    assert_eq!(Fault::from(0x30), Fault::TlbConflict);
    assert_eq!(Fault::from(0x0A), Fault::AccessFlag);
    assert_eq!(Fault::from(0x08), Fault::Other(8));
}

#[test]
fn exception_actions() {
    let sync = Info { source: Source::LowerAArch64, kind: Kind::Synchronous };
    assert_eq!(exception_action(sync, 0x5600_0001), Action::Syscall(1));
    assert_eq!(exception_action(sync, 0xF200_0003), Action::SkipToShell);
    let irq = Info { source: Source::LowerAArch64, kind: Kind::Irq };
    assert_eq!(exception_action(irq, 0), Action::HandleIrqs);
    let fiq = Info { source: Source::CurrentSpElx, kind: Kind::Fiq };
    assert_eq!(exception_action(fiq, 0), Action::Ignore);
    let mut tf = TrapFrame::zeroed();
    tf.elr = 0x8000;
    skip_instruction(&mut tf);
    assert_eq!(tf.elr, 0x8004);
}

fn two_processes() -> (Scheduler, Allocator) {
    let mut heap = Allocator::new(0x10_0000, 0x100_0000);
    let mut s = Scheduler::new();
    let p1 = Process::new(&mut heap).expect("stack");
    let p2 = Process::new(&mut heap).expect("stack");
    assert_eq!(p1.stack.size, STACK_SIZE);
    assert_eq!(s.add(p1), Some(1));
    assert_eq!(s.add(p2), Some(2));
    (s, heap)
}

#[test]
fn scheduler_round_robin() {
    let (mut s, _) = two_processes();
    assert_eq!(s.current(), Some(1));
    let mut tf = TrapFrame::zeroed();
    tf.tpidr = 1;
    tf.x0 = 11;
    assert_eq!(s.switch(State::Ready, &mut tf, 0), Some(2));
    assert_eq!(tf.tpidr, 2);
    assert_eq!(s.current(), Some(2));
    assert_eq!(s.switch(State::Ready, &mut tf, 0), Some(1));
    assert_eq!(tf.x0, 11);
    assert_eq!(s.len(), 2);
}

#[test]
fn sleep_syscall() {
    let (mut s, _) = two_processes();
    let mut tf = TrapFrame::zeroed();
    tf.tpidr = 1;
    tf.x0 = 10;
    assert_eq!(handle_syscall(1, &mut tf, &mut s, 1_000_000), Dispatch::Switched(2));
    // Process 2 sleeps too; nobody may run until process 1's 10 ms are over.
    assert_eq!(sleep(50, &mut tf, &mut s, 1_001_000), Dispatch::Idle);
    assert_eq!(s.schedule(&mut tf, 1_009_999), None);
    assert_eq!(s.schedule(&mut tf, 1_012_500), Some(1));
    assert_eq!(tf.x0, 12);
    assert_eq!(tf.x1_to_x29[6], 0);
}

#[test]
fn sleeping_process_becomes_ready() {
    let mut heap = Allocator::new(0x10_0000, 0x100_0000);
    let mut p = Process::new(&mut heap).unwrap();
    p.state = State::Waiting(WaitFor::Sleep { start: 5_000, end: 15_000 });
    assert!(!p.is_ready(14_999));
    assert!(matches!(p.state, State::Waiting(_)));
    assert!(p.is_ready(15_000));
    assert_eq!(p.state, State::Ready);
    assert_eq!(p.trap_frame.x0, 10);
    assert_eq!(p.trap_frame.x1_to_x29[6], 0);
    p.state = State::Running;
    assert!(!p.is_ready(20_000));
}

#[test]
fn unknown_syscall_and_irqs() {
    let (mut s, _) = two_processes();
    let mut tf = TrapFrame::zeroed();
    tf.tpidr = 1;
    assert_eq!(handle_syscall(9, &mut tf, &mut s, 0), Dispatch::Resumed);
    assert_eq!(tf.x1_to_x29[6], 1);
    tf.spsr = 0x3C5;
    assert_eq!(handle_irq(Interrupt::Uart, &mut tf, &mut s, 0), Dispatch::Resumed);
    assert_eq!(tf.spsr, 0x345);
    assert_eq!(handle_irq(Interrupt::Timer1, &mut tf, &mut s, 0), Dispatch::Switched(2));
    assert_eq!(tf.spsr & 0x80, 0);
}

#[test]
fn scheduler_ids_run_out() {
    let mut s = Scheduler::new();
    let mut heap = Allocator::new(0x10_0000, 0x100_0000);
    let p = Process::new(&mut heap).unwrap();
    assert_eq!(s.add(p), Some(1));
    assert_eq!(s.add(p), Some(2));
    assert_eq!(s.len(), 2);
}

#[test]
fn mutex_and_gpio() {
    let mut m = Mutex::new(5u32);
    assert!(m.lock());
    assert!(!m.lock());
    m.set(6);
    m.unlock();
    assert_eq!(*m.get(), 6);
    assert_eq!(m.into_inner(), 6);

    let g = Gpio::pin(16);
    assert_eq!(g.fsel_bits(GpioMode::Output), (1, 18, 1));
    assert_eq!(g.level_bits(), (0, 16));
    assert_eq!(Gpio::pin(53).level_bits(), (1, 21));
}

#[test]
fn shell_line_editor() {
    let mut line = Vec::new();
    assert_eq!(edit(&mut line, b'l'), Edit::Echo(b'l'));
    assert_eq!(edit(&mut line, b's'), Edit::Echo(b's'));
    assert_eq!(edit(&mut line, 3), Edit::Bell);
    assert_eq!(edit(&mut line, 0xFF), Edit::Bell);
    assert_eq!(edit(&mut line, BACKSPACE), Edit::Erase);
    assert_eq!(edit(&mut line, DELETE), Edit::Erase);
    assert_eq!(edit(&mut line, DELETE), Edit::Bell);
    assert!(line.is_empty());
    for _ in 0..512 {
        assert_eq!(edit(&mut line, b'x'), Edit::Echo(b'x'));
    }
    assert_eq!(edit(&mut line, b'x'), Edit::Bell);
    assert_eq!(line.len(), 512);
    assert_eq!(edit(&mut line, b'\r'), Edit::Submit);
    assert_eq!(edit(&mut line, b'\n'), Edit::Submit);
}

#[test]
fn shell_command_words() {
    let args = parse_command(&b"  ls  -a   dir ".to_vec()).expect("a command");
    assert_eq!(args, vec![b"ls".to_vec(), b"-a".to_vec(), b"dir".to_vec()]);
    assert_eq!(parse_command(&b"   ".to_vec()), Err(CommandError::Empty));
    assert_eq!(parse_command(&vec![]), Err(CommandError::Empty));
    let many: Vec<u8> = std::iter::repeat(b"a ".to_vec()).take(65).flatten().collect();
    assert_eq!(parse_command(&many), Err(CommandError::TooManyArgs));
    let most: Vec<u8> = std::iter::repeat(b"a ".to_vec()).take(64).flatten().collect();
    assert_eq!(parse_command(&most).map(|a| a.len()), Ok(64));
}

#[test]
fn global_scheduler_lifecycle() {
    let mut heap = Allocator::new(0x10_0000, 0x100_0000);
    let mut g = GlobalScheduler::uninitialized();
    g.initialize();
    let p = Process::new(&mut heap).unwrap();
    assert_eq!(g.add(p), Some(1));
    assert_eq!(g.add(p), Some(2));
    let mut tf = TrapFrame::zeroed();
    tf.tpidr = 1;
    assert_eq!(g.switch(State::Ready, &mut tf, 0), Some(2));
    assert_eq!(tf.tpidr, 2);
}

#[test]
fn mutex_replace() {
    let mut m = Mutex::new(vec![1u8]);
    assert!(m.lock());
    assert_eq!(m.replace(vec![2]), vec![1]);
    m.unlock();
    assert_eq!(m.get(), &vec![2]);
}

#[test]
fn user_process_setup() {
    let mut heap = Allocator::new(0x10_0000, 0x100_0000);
    let p = Process::new_user(&mut heap, 0x8_0000).expect("stack");
    assert_eq!(p.trap_frame.elr, 0x8_0000);
    assert_eq!(p.trap_frame.spsr, 0);
    assert_eq!(p.trap_frame.sp, (p.stack.bottom + STACK_SIZE) as u64);
    assert_eq!(p.stack.bottom % 16, 0);
    assert_eq!(p.state, State::Ready);
    let mut small = Allocator::new(0x1000, 0x2000);
    assert!(Process::new_user(&mut small, 0).is_none());
}
