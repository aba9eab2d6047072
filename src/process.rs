//! Processes: identifiers, memory regions and the process manager that
//! allocates identifiers and stacks and hands new processes to the scheduler.
use vstd::prelude::*;
use crate::scheduler::{ProcessControlBlock, Scheduler, SchedView, MAX_PROCESSES};

verus! {

/// Process identifier: assigned in increasing order and never reused.
pub type Pid = u32;

/// Number of memory-region descriptors that a process records.
pub const MAX_MEMORY_REGIONS: usize = 16;

/// Lifecycle state recorded in a process descriptor.
#[derive(Debug, Clone, Copy, PartialEq, Eq, Structural)]
pub enum ProcessState {
    Running,
    Ready,
    Blocked,
    Terminated,
}

/// Access rights of a memory region.
#[derive(Debug, Clone, Copy, PartialEq, Eq, Structural)]
pub struct MemoryPermissions {
    pub read: bool,
    pub write: bool,
    pub execute: bool,
}

/// An address range owned by a process.
#[derive(Debug, Clone, Copy, PartialEq, Eq, Structural)]
pub struct MemoryRegion {
    pub start: u64,
    pub size: usize,
    pub permissions: MemoryPermissions,
}

/// One schedulable unit of execution.
#[derive(Debug, Clone, Copy)]
pub struct Process {
    pub pid: Pid,
    pub state: ProcessState,
    /// Virtual address where execution begins.
    pub entry_point: u64,
    /// One past the highest address of the process's stack.
    pub stack_top: u64,
    /// Lowest address of the process's stack.
    pub stack_bottom: u64,
    pub memory_regions: [MemoryRegion; 16],
}

/// Errors of process creation and binary loading.
#[derive(Debug, Clone, Copy, PartialEq, Eq, Structural)]
pub enum ElfError {
    InvalidElfHeader,
    UnsupportedElfClass,
    UnsupportedElfType,
    NoEntryPoint,
    InvalidProgramHeader,
    MemoryAllocationFailed,
    NoFreeSlot,
}

/// Result of process creation and binary loading.
pub type ElfResult<T> = Result<T, ElfError>;

/// The empty memory-region descriptor.
pub fn empty_region() -> (r: MemoryRegion)
    ensures
        r.start == 0 && r.size == 0,
        !r.permissions.read && !r.permissions.write && !r.permissions.execute,
{
    MemoryRegion {
        start: 0,
        size: 0,
        permissions: MemoryPermissions { read: false, write: false, execute: false },
    }
}

impl Process {
    /// A ready process with the given identifier, entry point and stack, and
    /// no recorded memory regions.
    pub fn new(pid: Pid, entry_point: u64, stack_bottom: u64, stack_top: u64) -> (r: Process)
        ensures
            r.pid == pid,
            r.state == ProcessState::Ready,
            r.entry_point == entry_point,
            r.stack_bottom == stack_bottom,
            r.stack_top == stack_top,
            forall|i: int| 0 <= i < 16 ==> #[trigger] r.memory_regions@[i] == empty_region_spec(),
    {
        let e = empty_region();
        Process {
            pid,
            state: ProcessState::Ready,
            entry_point,
            stack_top,
            stack_bottom,
            memory_regions: [e; 16],
        }
    }
}

/// The empty memory-region descriptor, as a value.
pub open spec fn empty_region_spec() -> MemoryRegion {
    MemoryRegion {
        start: 0,
        size: 0,
        permissions: MemoryPermissions { read: false, write: false, execute: false },
    }
}

/// Size of the stack given to each new process.
pub const USER_STACK_SIZE: u64 = 4096;

/// First address handed out for process memory.
pub const USER_MEMORY_BASE: u64 = 0x4000_0000;

/// `x` rounded up to a multiple of the page size.
pub open spec fn page_round_up(x: int) -> int {
    ((x + 4095) / 4096) * 4096
}

/// Every identifier in the table is below `bound`.
pub open spec fn pids_below(s: SchedView, bound: Pid) -> bool {
    forall|i: int| 0 <= i < s.procs.len() ==> #[trigger] s.procs[i].pid() < bound
}

/// Allocates process identifiers and process memory, and registers new
/// processes with the scheduler.
pub struct ProcessManager {
    next_pid: Pid,
    next_alloc: u64,
}

impl ProcessManager {
    /// The identifier that the next process will get.
    pub closed spec fn next_pid(&self) -> Pid {
        self.next_pid
    }

    /// The address that the next memory allocation will return.
    pub closed spec fn next_alloc(&self) -> u64 {
        self.next_alloc
    }

    pub fn new() -> (r: ProcessManager)
        ensures
            r.next_pid() == 1,
            r.next_alloc() == USER_MEMORY_BASE,
    {
        ProcessManager { next_pid: 1, next_alloc: USER_MEMORY_BASE }
    }

    /// Bump allocation of `size` bytes of process memory: returns the current
    /// allocation point and moves it past the block, to the next page
    /// boundary. Fails, changing nothing, when the address space is used up.
    pub fn allocate_memory(&mut self, size: usize) -> (r: ElfResult<u64>)
        ensures
            final(self).next_pid() == old(self).next_pid(),
            old(self).next_alloc() + size + 4095 <= u64::MAX ==> r == Ok::<u64, ElfError>(old(self).next_alloc())
                && final(self).next_alloc() as int == page_round_up(old(self).next_alloc() + size),
            old(self).next_alloc() + size + 4095 > u64::MAX ==> r == Err::<u64, ElfError>(ElfError::MemoryAllocationFailed)
                && final(self).next_alloc() == old(self).next_alloc(),
    {
        let size = size as u64;
        if size > u64::MAX - 4095 || self.next_alloc > u64::MAX - 4095 - size {
            return Err(ElfError::MemoryAllocationFailed);
        }
        let addr = self.next_alloc;
        let end: u64 = addr + size + 4095;
        let next: u64 = end & !4095u64;
        assert(end & !4095u64 == end - end % 4096) by (bit_vector);
        self.next_alloc = next;
        Ok(addr)
    }

    /// Gives `process` a fresh stack of `USER_STACK_SIZE` bytes.
    fn allocate_user_stack(&mut self, process: &mut Process) -> (r: ElfResult<()>)
        ensures
            final(self).next_pid() == old(self).next_pid(),
            old(self).next_alloc() + USER_STACK_SIZE + 4095 <= u64::MAX ==> r is Ok
                && final(process).stack_bottom == old(self).next_alloc()
                && final(process).stack_top == old(self).next_alloc() + USER_STACK_SIZE
                && final(self).next_alloc() as int == page_round_up(old(self).next_alloc() + USER_STACK_SIZE)
                && *final(process) == (Process { stack_bottom: final(process).stack_bottom, stack_top: final(process).stack_top, ..*old(process) }),
            old(self).next_alloc() + USER_STACK_SIZE + 4095 > u64::MAX ==> r == Err::<(), ElfError>(ElfError::MemoryAllocationFailed)
                && *final(process) == *old(process)
                && final(self).next_alloc() == old(self).next_alloc(),
    {
        let stack_bottom = self.allocate_memory(USER_STACK_SIZE as usize)?;
        process.stack_bottom = stack_bottom;
        process.stack_top = stack_bottom + USER_STACK_SIZE;
        Ok(())
    }

    /// Creates a ready process that starts at `entry_point` on a fresh stack,
    /// with the next identifier and priority 0, and appends it to the
    /// scheduler's table. Fails with `NoFreeSlot` when the table is full or
    /// the identifiers are used up, and with `MemoryAllocationFailed` when
    /// no stack can be had; on failure the table is unchanged.
    pub fn load_userland_function(&mut self, scheduler: &mut Scheduler, entry_point: u64) -> (r: ElfResult<Pid>)
        requires
            old(scheduler).wf(),
            pids_below(old(scheduler)@, old(self).next_pid()),
        ensures
            final(scheduler).wf(),
            pids_below(final(scheduler)@, final(self).next_pid()),
            (old(scheduler)@.procs.len() >= MAX_PROCESSES || old(self).next_pid() == u32::MAX)
                ==> r == Err::<Pid, ElfError>(ElfError::NoFreeSlot),
            (old(scheduler)@.procs.len() < MAX_PROCESSES && old(self).next_pid() < u32::MAX
                && old(self).next_alloc() + USER_STACK_SIZE + 4095 > u64::MAX)
                ==> r == Err::<Pid, ElfError>(ElfError::MemoryAllocationFailed),
            (old(scheduler)@.procs.len() < MAX_PROCESSES && old(self).next_pid() < u32::MAX
                && old(self).next_alloc() + USER_STACK_SIZE + 4095 <= u64::MAX) ==> {
                &&& r == Ok::<Pid, ElfError>(old(self).next_pid())
                &&& final(self).next_pid() == old(self).next_pid() + 1
                &&& final(self).next_alloc() as int == page_round_up(old(self).next_alloc() + USER_STACK_SIZE)
                &&& final(scheduler)@.procs.len() == old(scheduler)@.procs.len() + 1
                &&& final(scheduler)@.procs.drop_last() == old(scheduler)@.procs
                &&& final(scheduler)@.current == old(scheduler)@.current
                &&& final(scheduler)@.cursor == old(scheduler)@.cursor
                &&& final(scheduler)@.procs.last() == ProcessControlBlock::new_spec(final(scheduler)@.procs.last().process, 0)
                &&& final(scheduler)@.procs.last().process.pid == old(self).next_pid()
                &&& final(scheduler)@.procs.last().process.state == ProcessState::Ready
                &&& final(scheduler)@.procs.last().process.entry_point == entry_point
                &&& final(scheduler)@.procs.last().process.stack_bottom == old(self).next_alloc()
                &&& final(scheduler)@.procs.last().process.stack_top == old(self).next_alloc() + USER_STACK_SIZE
            },
            r is Err ==> final(scheduler)@ == old(scheduler)@,
    {
        if scheduler.process_count() >= MAX_PROCESSES || self.next_pid == u32::MAX {
            return Err(ElfError::NoFreeSlot);
        }
        let pid = self.next_pid;
        self.next_pid = self.next_pid + 1;
        let mut process = Process::new(pid, entry_point, 0, 0);
        self.allocate_user_stack(&mut process)?;
        proof {
            assert(!scheduler@.contains_pid(pid)) by {
                if scheduler@.contains_pid(pid) {
                    let i = choose|i: int| 0 <= i < scheduler@.procs.len() && #[trigger] scheduler@.procs[i].pid() == pid;
                    assert(scheduler@.procs[i].pid() < pid);
                }
            }
        }
        scheduler.add_process(process, 0);
        assert(scheduler@.procs.drop_last() =~= old(scheduler)@.procs);
        assert(pids_below(scheduler@, self.next_pid)) by {
            assert forall|i: int| 0 <= i < scheduler@.procs.len() implies #[trigger] scheduler@.procs[i].pid() < self.next_pid by {
                if i < old(scheduler)@.procs.len() {
                    assert(scheduler@.procs[i] == old(scheduler)@.procs[i]);
                }
            }
        }
        Ok(pid)
    }
}

/// A fresh process manager: identifiers start at 1.
pub fn init() -> (r: ProcessManager)
    ensures
        r.next_pid() == 1,
        r.next_alloc() == USER_MEMORY_BASE,
{
    ProcessManager::new()
}

/// The process with identifier `pid`; `None` when it is not (or no longer)
/// in the scheduler's table.
pub fn lookup(scheduler: &Scheduler, pid: Pid) -> (r: Option<&Process>)
    requires
        scheduler.wf(),
    ensures
        r matches Some(p) ==> scheduler@.contains_pid(pid) && *p == scheduler@.procs[scheduler@.index_of(pid)].process,
        r is None ==> !scheduler@.contains_pid(pid),
{
    match scheduler.lookup(pid) {
        Some(pcb) => Some(&pcb.process),
        None => None,
    }
}

} // verus!
