use kernel_core::process::{ElfError, ProcessManager, USER_MEMORY_BASE, USER_STACK_SIZE};
use kernel_core::scheduler::{Scheduler, MAX_PROCESSES};
use kernel_core::syscall::Kernel;

#[test]
fn pids_increase_and_stacks_do_not_overlap() {
    let mut k = Kernel::new();
    let a = k.create_process(0x1000).unwrap();
    let b = k.create_process(0x2000).unwrap();
    assert_eq!(a, 1);
    assert_eq!(b, 2);
    let pa = kernel_core::process::lookup(&k.scheduler, a).unwrap();
    let pb = kernel_core::process::lookup(&k.scheduler, b).unwrap();
    assert_eq!(pa.stack_bottom, USER_MEMORY_BASE);
    assert_eq!(pa.stack_top, USER_MEMORY_BASE + USER_STACK_SIZE);
    assert!(pb.stack_bottom >= pa.stack_top);
    assert_eq!(pb.entry_point, 0x2000);
}

#[test]
fn table_exhaustion_reports_no_free_slot() {
    let mut k = Kernel::new();
    for _ in 0..MAX_PROCESSES {
        k.create_process(0x1000).unwrap();
    }
    assert_eq!(k.create_process(0x1000), Err(ElfError::NoFreeSlot));
    assert_eq!(k.scheduler.process_count(), MAX_PROCESSES);
}

#[test]
fn bump_allocation_rounds_to_pages() {
    let mut pm = ProcessManager::new();
    assert_eq!(pm.allocate_memory(10), Ok(USER_MEMORY_BASE));
    assert_eq!(pm.allocate_memory(1), Ok(USER_MEMORY_BASE + 4096));
    assert_eq!(pm.allocate_memory(4096), Ok(USER_MEMORY_BASE + 8192));
    assert_eq!(pm.allocate_memory(0), Ok(USER_MEMORY_BASE + 12288));
    assert_eq!(pm.allocate_memory(usize::MAX), Err(ElfError::MemoryAllocationFailed));
}

#[test]
fn load_registers_with_scheduler() {
    let mut pm = ProcessManager::new();
    let mut s = Scheduler::new();
    let pid = pm.load_userland_function(&mut s, 0xabc).unwrap();
    assert_eq!(s.process_count(), 1);
    assert_eq!(s.lookup(pid).unwrap().process.entry_point, 0xabc);
    assert!(kernel_core::process::lookup(&s, pid + 1).is_none());
}
