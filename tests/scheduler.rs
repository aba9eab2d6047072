use kernel_core::process::Process;
use kernel_core::scheduler::{
    init, restore_context, save_context, sleep_current, wake_process, yield_current, Context,
    Scheduler, SchedulerState, DEFAULT_TIME_SLICE,
};
use kernel_core::syscall::Kernel;

fn running_pid(s: &Scheduler) -> Option<u32> {
    s.current_process().map(|p| p.process.pid)
}

fn kernel_with(n: usize) -> (Kernel, Vec<u32>) {
    let mut k = Kernel::new();
    let mut pids = Vec::new();
    for i in 0..n {
        pids.push(k.create_process(0x1000 * (i as u64 + 1)).unwrap());
    }
    (k, pids)
}

fn registers(seed: u64) -> Context {
    Context {
        rax: seed,
        rbx: seed + 1,
        rcx: seed + 2,
        rdx: seed + 3,
        rsi: seed + 4,
        rdi: seed + 5,
        rbp: seed + 6,
        rsp: seed + 7,
        r8: seed + 8,
        r9: seed + 9,
        r10: seed + 10,
        r11: seed + 11,
        r12: seed + 12,
        r13: seed + 13,
        r14: seed + 14,
        r15: seed + 15,
        rip: seed + 16,
        rflags: seed + 17,
        cs: seed + 18,
        ss: seed + 19,
    }
}

#[test]
fn three_processes_thirty_ticks() {
    let (mut k, pids) = kernel_with(3);
    assert_eq!(DEFAULT_TIME_SLICE, 10);
    for t in 1..=30u32 {
        let r = k.scheduler.schedule();
        let expected = pids[((t - 1) / 10) as usize];
        assert_eq!(r, Some(expected), "tick {}", t);
        assert_eq!(running_pid(&k.scheduler), Some(expected));
        if t == 10 {
            assert_eq!(k.scheduler.lookup(pids[0]).unwrap().total_runtime, 10);
        }
    }
    let cur = k.scheduler.current_process().unwrap();
    assert_eq!(cur.process.pid, pids[2]);
    assert_eq!(cur.total_runtime, 10);
    for &p in &pids {
        assert_eq!(k.scheduler.lookup(p).unwrap().total_runtime, 10);
    }
}

#[test]
fn round_robin_is_fair_for_five_processes() {
    let (mut k, pids) = kernel_with(5);
    let mut order = Vec::new();
    for _ in 0..(5 * DEFAULT_TIME_SLICE) {
        let r = k.scheduler.schedule().unwrap();
        if order.last() != Some(&r) {
            order.push(r);
        }
    }
    assert_eq!(order, pids);
    for &p in &pids {
        assert_eq!(k.scheduler.lookup(p).unwrap().total_runtime, DEFAULT_TIME_SLICE as u64);
    }
    assert_eq!(k.scheduler.schedule(), Some(pids[0]));
}

#[test]
fn runtime_grows_only_while_running() {
    let (mut k, pids) = kernel_with(2);
    k.scheduler.schedule();
    for i in 1..5u64 {
        k.scheduler.schedule();
        assert_eq!(k.scheduler.lookup(pids[0]).unwrap().total_runtime, i + 1);
        assert_eq!(k.scheduler.lookup(pids[1]).unwrap().total_runtime, 0);
    }
    k.scheduler.block_current();
    let before = k.scheduler.lookup(pids[0]).unwrap().total_runtime;
    for _ in 0..25 {
        k.scheduler.schedule();
    }
    assert_eq!(k.scheduler.lookup(pids[0]).unwrap().total_runtime, before);
    assert_eq!(k.scheduler.lookup(pids[0]).unwrap().state, SchedulerState::Blocked);
    assert_eq!(k.scheduler.lookup(pids[1]).unwrap().total_runtime, 25);
}

#[test]
fn terminated_process_never_runs_again() {
    let (mut k, pids) = kernel_with(3);
    k.scheduler.schedule();
    k.scheduler.terminate_process(pids[1]);
    assert!(k.scheduler.lookup(pids[1]).is_none());
    assert!(kernel_core::process::lookup(&k.scheduler, pids[1]).is_none());
    assert_eq!(k.scheduler.process_count(), 2);
    for _ in 0..100 {
        let r = k.scheduler.schedule();
        assert_ne!(r, Some(pids[1]));
    }
    k.scheduler.terminate_process(pids[0]);
    assert!(k.scheduler.current_process().map_or(true, |p| p.process.pid != pids[0]));
    k.scheduler.terminate_process(999);
    assert_eq!(k.scheduler.process_count(), 1);
}

#[test]
fn terminating_the_running_process_clears_current() {
    let (mut k, pids) = kernel_with(2);
    k.scheduler.schedule();
    k.scheduler.terminate_process(pids[0]);
    assert!(k.scheduler.current_process().is_none());
    assert_eq!(k.scheduler.schedule(), Some(pids[1]));
}

#[test]
fn idle_on_empty_table() {
    let mut s = init();
    for _ in 0..3 {
        assert_eq!(s.schedule(), None);
        assert!(s.current_process().is_none());
    }
}

#[test]
fn idle_when_all_blocked() {
    let (mut k, pids) = kernel_with(2);
    k.scheduler.schedule();
    k.scheduler.block_current();
    for _ in 0..10 {
        k.scheduler.schedule();
    }
    k.scheduler.block_current();
    for _ in 0..5 {
        assert_eq!(k.scheduler.schedule(), None);
        assert!(k.scheduler.current_process().is_none());
    }
    for &p in &pids {
        assert_eq!(k.scheduler.lookup(p).unwrap().state, SchedulerState::Blocked);
    }
}

#[test]
fn block_then_unblock_resumes_in_round_robin_order() {
    let (mut k, pids) = kernel_with(3);
    assert_eq!(k.scheduler.schedule(), Some(pids[0]));
    k.scheduler.block_current();
    assert!(k.scheduler.current_process().is_none());
    assert_eq!(k.scheduler.schedule(), Some(pids[1]));
    for _ in 0..40 {
        assert_ne!(k.scheduler.schedule(), Some(pids[0]));
    }
    k.scheduler.unblock_process(pids[0]);
    assert_eq!(k.scheduler.lookup(pids[0]).unwrap().state, SchedulerState::Ready);
    let mut seen = Vec::new();
    for _ in 0..30 {
        let r = k.scheduler.schedule().unwrap();
        if seen.last() != Some(&r) {
            seen.push(r);
        }
    }
    assert!(seen.contains(&pids[0]));
    let pos = seen.iter().position(|&p| p == pids[0]).unwrap();
    assert!(pos > 0);
    assert_eq!(seen[pos - 1], pids[2]);
}

#[test]
fn unblock_of_ready_or_unknown_pid_is_a_no_op() {
    let (mut k, pids) = kernel_with(2);
    k.scheduler.unblock_process(pids[1]);
    assert_eq!(k.scheduler.lookup(pids[1]).unwrap().state, SchedulerState::Ready);
    k.scheduler.unblock_process(77);
    assert_eq!(k.scheduler.process_count(), 2);
}

#[test]
fn yield_sleep_and_wake() {
    let (mut k, pids) = kernel_with(2);
    assert_eq!(yield_current(&mut k.scheduler), Some(pids[0]));
    assert_eq!(sleep_current(&mut k.scheduler, 5), Some(pids[1]));
    assert_eq!(k.scheduler.lookup(pids[0]).unwrap().state, SchedulerState::Blocked);
    wake_process(&mut k.scheduler, pids[0]);
    assert_eq!(k.scheduler.lookup(pids[0]).unwrap().state, SchedulerState::Ready);
}

#[test]
fn context_round_trips_through_a_switch() {
    let (mut k, pids) = kernel_with(2);
    let mut cpu = registers(1000);
    assert_eq!(k.timer_tick(&mut cpu), Some(pids[0]));
    assert_eq!(cpu.rip, 0x1000);
    assert_eq!(cpu.rsp, k.scheduler.lookup(pids[0]).unwrap().process.stack_top);
    let a_regs = registers(5000);
    cpu = a_regs;
    for _ in 0..9 {
        k.timer_tick(&mut cpu);
        assert_eq!(cpu, a_regs);
    }
    assert_eq!(k.timer_tick(&mut cpu), Some(pids[1]));
    assert_eq!(cpu.rip, 0x2000);
    assert_eq!(k.scheduler.lookup(pids[0]).unwrap().context, a_regs);
    let b_regs = registers(9000);
    cpu = b_regs;
    for _ in 0..9 {
        k.timer_tick(&mut cpu);
    }
    assert_eq!(k.timer_tick(&mut cpu), Some(pids[0]));
    assert_eq!(cpu, a_regs);
    assert_eq!(k.scheduler.lookup(pids[1]).unwrap().context, b_regs);
}

#[test]
fn save_and_restore_copy_every_register() {
    let mut saved = registers(0);
    let cpu = registers(42);
    save_context(&mut saved, &cpu);
    assert_eq!(saved, cpu);
    let mut cpu2 = registers(7);
    restore_context(&saved, &mut cpu2);
    assert_eq!(cpu2, cpu);
}

#[test]
fn add_process_appends_ready_block() {
    let mut s = Scheduler::new();
    s.add_process(Process::new(4, 0x10, 0x100, 0x200), 3);
    let pcb = s.lookup(4).unwrap();
    assert_eq!(pcb.state, SchedulerState::Ready);
    assert_eq!(pcb.time_slice, DEFAULT_TIME_SLICE);
    assert_eq!(pcb.priority, 3);
    assert_eq!(pcb.context.rip, 0x10);
    assert_eq!(pcb.context.rsp, 0x200);
}
