//! Round-robin preemptive scheduler with register-context switching.
use vstd::prelude::*;
use crate::process::{Pid, Process};

verus! {

/// Ticks a process may run before it is preempted.
pub const DEFAULT_TIME_SLICE: u32 = 10;

/// Capacity of the process table.
pub const MAX_PROCESSES: usize = 16;

/// Initial flags register of a new process: interrupts enabled.
pub const INITIAL_RFLAGS: u64 = 0x202;

/// Scheduling state of a process-control block.
#[derive(Debug, Clone, Copy, PartialEq, Eq, Structural)]
pub enum SchedulerState {
    Ready,
    Running,
    Blocked,
    Terminated,
}

/// Every CPU-visible register needed to suspend a unit of execution and
/// resume it later exactly where it stopped.
#[derive(Debug, Clone, Copy, PartialEq, Eq, Structural)]
pub struct Context {
    pub rax: u64,
    pub rbx: u64,
    pub rcx: u64,
    pub rdx: u64,
    pub rsi: u64,
    pub rdi: u64,
    pub rbp: u64,
    pub rsp: u64,
    pub r8: u64,
    pub r9: u64,
    pub r10: u64,
    pub r11: u64,
    pub r12: u64,
    pub r13: u64,
    pub r14: u64,
    pub r15: u64,
    pub rip: u64,
    pub rflags: u64,
    pub cs: u64,
    pub ss: u64,
}

impl Context {
    /// The register set with which a process starts: execution at
    /// `entry_point` on the stack that ends at `stack_top`, interrupts enabled.
    pub fn initial(entry_point: u64, stack_top: u64) -> (r: Context)
        ensures
            r == Context::initial_spec(entry_point, stack_top),
    {
        Context {
            rax: 0,
            rbx: 0,
            rcx: 0,
            rdx: 0,
            rsi: 0,
            rdi: 0,
            rbp: 0,
            rsp: stack_top,
            r8: 0,
            r9: 0,
            r10: 0,
            r11: 0,
            r12: 0,
            r13: 0,
            r14: 0,
            r15: 0,
            rip: entry_point,
            rflags: INITIAL_RFLAGS,
            cs: 0,
            ss: 0,
        }
    }

    pub open spec fn initial_spec(entry_point: u64, stack_top: u64) -> Context {
        Context {
            rax: 0,
            rbx: 0,
            rcx: 0,
            rdx: 0,
            rsi: 0,
            rdi: 0,
            rbp: 0,
            rsp: stack_top,
            r8: 0,
            r9: 0,
            r10: 0,
            r11: 0,
            r12: 0,
            r13: 0,
            r14: 0,
            r15: 0,
            rip: entry_point,
            rflags: INITIAL_RFLAGS,
            cs: 0,
            ss: 0,
        }
    }
}

/// Copies every register of the running machine state `cpu` into `context`.
pub fn save_context(context: &mut Context, cpu: &Context)
    ensures
        *final(context) == *cpu,
{
    context.rax = cpu.rax;
    context.rbx = cpu.rbx;
    context.rcx = cpu.rcx;
    context.rdx = cpu.rdx;
    context.rsi = cpu.rsi;
    context.rdi = cpu.rdi;
    context.rbp = cpu.rbp;
    context.rsp = cpu.rsp;
    context.r8 = cpu.r8;
    context.r9 = cpu.r9;
    context.r10 = cpu.r10;
    context.r11 = cpu.r11;
    context.r12 = cpu.r12;
    context.r13 = cpu.r13;
    context.r14 = cpu.r14;
    context.r15 = cpu.r15;
    context.rip = cpu.rip;
    context.rflags = cpu.rflags;
    context.cs = cpu.cs;
    context.ss = cpu.ss;
}

/// Loads every register of a saved `context` into the machine state `cpu`.
pub fn restore_context(context: &Context, cpu: &mut Context)
    ensures
        *final(cpu) == *context,
{
    save_context(cpu, context);
}

/// A process together with its scheduling metadata.
#[derive(Debug, Clone, Copy)]
pub struct ProcessControlBlock {
    pub process: Process,
    pub state: SchedulerState,
    /// Remaining ticks before forced preemption.
    pub time_slice: u32,
    /// Ticks during which the process has been running.
    pub total_runtime: u64,
    /// 0 is highest; stored but not used by the round-robin scan.
    pub priority: u8,
    /// Registers saved when the process was last switched away from.
    pub context: Context,
}

impl ProcessControlBlock {
    pub fn new(process: Process, priority: u8) -> (r: ProcessControlBlock)
        ensures
            r == ProcessControlBlock::new_spec(process, priority),
    {
        ProcessControlBlock {
            process,
            state: SchedulerState::Ready,
            time_slice: DEFAULT_TIME_SLICE,
            total_runtime: 0,
            priority,
            context: Context::initial(process.entry_point, process.stack_top),
        }
    }

    pub open spec fn new_spec(process: Process, priority: u8) -> ProcessControlBlock {
        ProcessControlBlock {
            process,
            state: SchedulerState::Ready,
            time_slice: DEFAULT_TIME_SLICE,
            total_runtime: 0,
            priority,
            context: Context::initial_spec(process.entry_point, process.stack_top),
        }
    }

    pub open spec fn pid(self) -> Pid {
        self.process.pid
    }

    pub open spec fn with_state(self, state: SchedulerState) -> ProcessControlBlock {
        ProcessControlBlock { state, ..self }
    }

    pub open spec fn with_context(self, context: Context) -> ProcessControlBlock {
        ProcessControlBlock { context, ..self }
    }

    /// The block after one tick of running: one tick less of its slice, one
    /// more of runtime (the counters stop at their bounds).
    pub open spec fn charged(self) -> ProcessControlBlock {
        ProcessControlBlock {
            time_slice: if self.time_slice > 0 { (self.time_slice - 1) as u32 } else { 0 },
            total_runtime: if self.total_runtime < u64::MAX {
                (self.total_runtime + 1) as u64
            } else {
                self.total_runtime
            },
            ..self
        }
    }

    /// The block when it is picked to run: running, with a full slice.
    pub open spec fn dispatched(self) -> ProcessControlBlock {
        ProcessControlBlock {
            state: SchedulerState::Running,
            time_slice: DEFAULT_TIME_SLICE,
            ..self
        }
    }
}

/// What the scheduler holds, as mathematical values.
pub struct SchedView {
    /// The process table, in table order.
    pub procs: Seq<ProcessControlBlock>,
    /// Index of the running process.
    pub current: Option<int>,
    /// Index at which the next scan for a ready process starts.
    pub cursor: int,
}

/// Index reached `k` steps after `start` in a table of length `n`, wrapping.
pub open spec fn wrap_index(start: int, k: int, n: int) -> int {
    if start + k < n {
        start + k
    } else {
        start + k - n
    }
}

/// The first ready entry met when scanning from offset `k` onwards, starting
/// at index `start` and wrapping around the table once.
pub open spec fn scan_ready(procs: Seq<ProcessControlBlock>, start: int, k: int) -> Option<int>
    decreases procs.len() - k,
{
    if k < 0 || k >= procs.len() {
        None
    } else if procs[wrap_index(start, k, procs.len() as int)].state == SchedulerState::Ready {
        Some(wrap_index(start, k, procs.len() as int))
    } else {
        scan_ready(procs, start, k + 1)
    }
}

/// A scan finds only ready entries inside the table.
pub proof fn lemma_scan_ready_valid(procs: Seq<ProcessControlBlock>, start: int, k: int)
    requires
        0 <= start <= procs.len(),
    ensures
        scan_ready(procs, start, k) matches Some(i) ==> 0 <= i < procs.len()
            && procs[i].state == SchedulerState::Ready,
    decreases procs.len() - k,
{
    if k >= 0 && k < procs.len() {
        lemma_scan_ready_valid(procs, start, k + 1);
    }
}

impl SchedView {
    pub open spec fn wf(self) -> bool {
        &&& self.procs.len() <= MAX_PROCESSES
        &&& 0 <= self.cursor <= self.procs.len()
        &&& (forall|i: int|
            0 <= i < self.procs.len() && #[trigger] self.procs[i].state == SchedulerState::Running
                ==> self.current == Some(i))
        &&& (self.current matches Some(c) ==> 0 <= c < self.procs.len()
            && self.procs[c].state == SchedulerState::Running && self.cursor == c + 1)
        &&& (forall|i: int, j: int|
            0 <= i < self.procs.len() && 0 <= j < self.procs.len() && i != j
                ==> #[trigger] self.procs[i].pid() != #[trigger] self.procs[j].pid())
    }

    pub open spec fn contains_pid(self, pid: Pid) -> bool {
        exists|i: int| 0 <= i < self.procs.len() && #[trigger] self.procs[i].pid() == pid
    }

    /// The pid of the running process.
    pub open spec fn current_pid(self) -> Option<Pid> {
        match self.current {
            Some(c) => Some(self.procs[c].pid()),
            None => None,
        }
    }

    /// Step 1 of a tick: a running process whose slice is used up becomes ready.
    pub open spec fn preempted(self) -> SchedView {
        match self.current {
            Some(c) => if self.procs[c].time_slice == 0 {
                SchedView {
                    procs: self.procs.update(c, self.procs[c].with_state(SchedulerState::Ready)),
                    current: None,
                    cursor: self.cursor,
                }
            } else {
                self
            },
            None => self,
        }
    }

    /// Step 2 of a tick: with nothing running, the first ready process after
    /// the previously running slot, in table order and wrapping, is dispatched.
    pub open spec fn selected(self) -> SchedView {
        if self.current is None {
            match scan_ready(self.procs, self.cursor, 0) {
                Some(i) => SchedView {
                    procs: self.procs.update(i, self.procs[i].dispatched()),
                    current: Some(i),
                    cursor: i + 1,
                },
                None => self,
            }
        } else {
            self
        }
    }

    /// Step 3 of a tick: the running process is charged the tick.
    pub open spec fn charged(self) -> SchedView {
        match self.current {
            Some(c) => SchedView {
                procs: self.procs.update(c, self.procs[c].charged()),
                current: self.current,
                cursor: self.cursor,
            },
            None => self,
        }
    }

    /// The state after one timer tick.
    pub open spec fn tick(self) -> SchedView {
        self.preempted().selected().charged()
    }

    /// The running process, if any, becomes blocked and nothing runs.
    pub open spec fn blocked_current(self) -> SchedView {
        match self.current {
            Some(c) => SchedView {
                procs: self.procs.update(c, self.procs[c].with_state(SchedulerState::Blocked)),
                current: None,
                cursor: self.cursor,
            },
            None => self,
        }
    }

    /// The running process, if any, gives up the processor: it becomes
    /// ready and nothing runs.
    pub open spec fn yielded(self) -> SchedView {
        match self.current {
            Some(c) => SchedView {
                procs: self.procs.update(c, self.procs[c].with_state(SchedulerState::Ready)),
                current: None,
                cursor: self.cursor,
            },
            None => self,
        }
    }

    /// The blocked process with identifier `pid`, if any, becomes ready.
    pub open spec fn unblocked(self, pid: Pid) -> SchedView {
        SchedView {
            procs: self.procs.map(
                |i: int, p: ProcessControlBlock|
                    if p.pid() == pid && p.state == SchedulerState::Blocked {
                        p.with_state(SchedulerState::Ready)
                    } else {
                        p
                    },
            ),
            current: self.current,
            cursor: self.cursor,
        }
    }

    /// Index of the entry with identifier `pid` (meaningful when present).
    pub open spec fn index_of(self, pid: Pid) -> int {
        choose|i: int| 0 <= i < self.procs.len() && self.procs[i].pid() == pid
    }

    /// The process with identifier `pid`, if present, leaves the table; the
    /// running pointer and the scan cursor keep pointing at the same entries.
    pub open spec fn terminated(self, pid: Pid) -> SchedView {
        if self.contains_pid(pid) {
            let i = self.index_of(pid);
            SchedView {
                procs: self.procs.remove(i),
                current: match self.current {
                    Some(c) => if c == i {
                        None
                    } else if c > i {
                        Some(c - 1)
                    } else {
                        Some(c)
                    },
                    None => None,
                },
                cursor: if i < self.cursor {
                    self.cursor - 1
                } else {
                    self.cursor
                },
            }
        } else {
            self
        }
    }

    /// A tick followed by the context switch it calls for: when the running
    /// process changes, the machine state `cpu` is saved into the outgoing
    /// process and the incoming process's saved registers are loaded.
    /// Returns the new scheduler state and the new machine state.
    pub open spec fn switched(self, cpu: Context) -> (SchedView, Context) {
        let t = self.tick();
        if t.current == self.current {
            (t, cpu)
        } else {
            let saved = match self.current {
                Some(p) => SchedView {
                    procs: t.procs.update(p, t.procs[p].with_context(cpu)),
                    current: t.current,
                    cursor: t.cursor,
                },
                None => t,
            };
            let loaded = match t.current {
                Some(n) => saved.procs[n].context,
                None => cpu,
            };
            (saved, loaded)
        }
    }

    /// The state after `n` timer ticks.
    pub open spec fn ticks(self, n: nat) -> SchedView
        decreases n,
    {
        if n == 0 {
            self
        } else {
            self.tick().ticks((n - 1) as nat)
        }
    }
}

/// Owner of the process table, the running-process pointer and all
/// per-process scheduling fields.
pub struct Scheduler {
    processes: Vec<ProcessControlBlock>,
    current_process: Option<usize>,
    cursor: usize,
    time_slice_counter: u32,
}

impl View for Scheduler {
    type V = SchedView;

    closed spec fn view(&self) -> SchedView {
        SchedView {
            procs: self.processes@,
            current: match self.current_process {
                Some(c) => Some(c as int),
                None => None,
            },
            cursor: self.cursor as int,
        }
    }
}

impl Scheduler {
    pub open spec fn wf(&self) -> bool {
        self@.wf()
    }

    pub fn new() -> (r: Scheduler)
        ensures
            r.wf(),
            r@.procs.len() == 0,
            r@.current is None,
            r@.cursor == 0,
    {
        Scheduler {
            processes: Vec::new(),
            current_process: None,
            cursor: 0,
            time_slice_counter: 0,
        }
    }

    /// Number of processes in the table.
    pub fn process_count(&self) -> (r: usize)
        ensures
            r == self@.procs.len(),
    {
        self.processes.len()
    }

    /// Appends a new ready process with a full slice at the end of the table.
    pub fn add_process(&mut self, process: Process, priority: u8)
        requires
            old(self).wf(),
            old(self)@.procs.len() < MAX_PROCESSES,
            !old(self)@.contains_pid(process.pid),
        ensures
            final(self).wf(),
            final(self)@.procs == old(self)@.procs.push(
                ProcessControlBlock::new_spec(process, priority),
            ),
            final(self)@.current == old(self)@.current,
            final(self)@.cursor == old(self)@.cursor,
    {
        let pcb = ProcessControlBlock::new(process, priority);
        self.processes.push(pcb);
        assert(forall|i: int| 0 <= i < old(self)@.procs.len() ==> self@.procs[i] == old(self)@.procs[i]);
    }

    /// Index of the entry with identifier `pid`.
    fn find_pid(&self, pid: Pid) -> (r: Option<usize>)
        requires
            self.wf(),
        ensures
            r matches Some(i) ==> i < self@.procs.len() && self@.procs[i as int].pid() == pid
                && self@.index_of(pid) == i as int,
            r is None ==> !self@.contains_pid(pid),
    {
        let n = self.processes.len();
        let mut k: usize = 0;
        while k < n
            invariant
                self.wf(),
                n == self@.procs.len(),
                0 <= k <= n,
                forall|j: int| 0 <= j < k ==> #[trigger] self@.procs[j].pid() != pid,
            decreases n - k,
        {
            if self.processes[k].process.pid == pid {
                proof {
                    let i = self@.index_of(pid);
                    assert(self@.procs[k as int].pid() == pid);
                    assert(0 <= i < self@.procs.len() && self@.procs[i].pid() == pid);
                }
                return Some(k);
            }
            k = k + 1;
        }
        None
    }

    /// The running process, if any.
    pub fn current_process(&self) -> (r: Option<&ProcessControlBlock>)
        requires
            self.wf(),
        ensures
            r matches Some(p) ==> self@.current matches Some(c) && *p == self@.procs[c],
            r is None ==> self@.current is None,
    {
        match self.current_process {
            Some(c) => Some(&self.processes[c]),
            None => None,
        }
    }

    /// The process-control block of `pid`; `None` when no such process is in
    /// the table.
    pub fn lookup(&self, pid: Pid) -> (r: Option<&ProcessControlBlock>)
        requires
            self.wf(),
        ensures
            r matches Some(p) ==> self@.contains_pid(pid) && *p == self@.procs[self@.index_of(pid)],
            r is None ==> !self@.contains_pid(pid),
    {
        match self.find_pid(pid) {
            Some(i) => Some(&self.processes[i]),
            None => None,
        }
    }

    /// Marks the running process blocked and clears the running pointer. Does
    /// not pick another process: the next tick does.
    pub fn block_current(&mut self)
        requires
            old(self).wf(),
        ensures
            final(self).wf(),
            final(self)@ == old(self)@.blocked_current(),
    {
        let ghost s0 = self@;
        if let Some(c) = self.current_process {
            let mut pcb = self.processes[c];
            pcb.state = SchedulerState::Blocked;
            self.processes.set(c, pcb);
            self.current_process = None;
            assert(self@.procs =~= s0.procs.update(c as int, s0.procs[c as int].with_state(SchedulerState::Blocked)));
        }
        assert(self@ =~= s0.blocked_current());
        assert(self@.wf()) by {
            let s1 = self@;
            lemma_update_keeps_pids(s0, s1);
        }
    }

    /// Takes the processor from the running process, which becomes ready.
    /// Does not pick another process: the next tick does.
    pub fn preempt_current(&mut self)
        requires
            old(self).wf(),
        ensures
            final(self).wf(),
            final(self)@ == old(self)@.yielded(),
    {
        let ghost s0 = self@;
        if let Some(c) = self.current_process {
            let mut pcb = self.processes[c];
            pcb.state = SchedulerState::Ready;
            self.processes.set(c, pcb);
            self.current_process = None;
            assert(self@.procs =~= s0.procs.update(c as int, s0.procs[c as int].with_state(SchedulerState::Ready)));
        }
        assert(self@ =~= s0.yielded());
        proof {
            lemma_update_keeps_pids(s0, self@);
        }
    }

    /// Makes the blocked process `pid` ready; does nothing when `pid` is
    /// unknown or not blocked.
    pub fn unblock_process(&mut self, pid: Pid)
        requires
            old(self).wf(),
        ensures
            final(self).wf(),
            final(self)@ == old(self)@.unblocked(pid),
    {
        let ghost s0 = self@;
        let found = self.find_pid(pid);
        if let Some(i) = found {
            if self.processes[i].state == SchedulerState::Blocked {
                let mut pcb = self.processes[i];
                pcb.state = SchedulerState::Ready;
                self.processes.set(i, pcb);
            }
        }
        assert(self@.procs =~= s0.unblocked(pid).procs);
        assert(self@ =~= s0.unblocked(pid));
        assert(self@.wf()) by {
            let s1 = self@;
            lemma_update_keeps_pids(s0, s1);
        }
    }

    /// Removes the process `pid` from the table, clearing the running pointer
    /// first when it is the running process; does nothing for an unknown pid.
    pub fn terminate_process(&mut self, pid: Pid)
        requires
            old(self).wf(),
        ensures
            final(self).wf(),
            final(self)@ == old(self)@.terminated(pid),
            !final(self)@.contains_pid(pid),
    {
        let ghost s0 = self@;
        let found = self.find_pid(pid);
        if let Some(i) = found {
            match self.current_process {
                Some(c) => {
                    if c == i {
                        self.current_process = None;
                    } else if c > i {
                        self.current_process = Some(c - 1);
                    }
                },
                None => {},
            }
            if i < self.cursor {
                self.cursor = self.cursor - 1;
            }
            self.processes.remove(i);
            assert(self@.procs =~= s0.procs.remove(i as int));
            assert(self@ =~= s0.terminated(pid));
            assert(self@.wf()) by {
                let s1 = self@;
                assert forall|a: int, b: int|
                    0 <= a < s1.procs.len() && 0 <= b < s1.procs.len() && a != b
                        implies #[trigger] s1.procs[a].pid() != #[trigger] s1.procs[b].pid() by {
                    let a0 = if a < i { a } else { a + 1 };
                    let b0 = if b < i { b } else { b + 1 };
                    assert(s1.procs[a] == s0.procs[a0]);
                    assert(s1.procs[b] == s0.procs[b0]);
                }
                assert forall|a: int|
                    0 <= a < s1.procs.len() && #[trigger] s1.procs[a].state == SchedulerState::Running
                        implies s1.current == Some(a) by {
                    let a0 = if a < i { a } else { a + 1 };
                    assert(s1.procs[a] == s0.procs[a0]);
                }
            }
            assert(!self@.contains_pid(pid)) by {
                let s1 = self@;
                if s1.contains_pid(pid) {
                    let a = choose|a: int| 0 <= a < s1.procs.len() && #[trigger] s1.procs[a].pid() == pid;
                    let a0 = if a < i { a } else { a + 1 };
                    assert(s1.procs[a] == s0.procs[a0]);
                }
            }
        }
    }

    /// Timer-interrupt entry: one tick of `schedule`, then the context switch
    /// it calls for. `cpu` is the machine state that the interrupt suspended;
    /// when the running process changes, all of it is saved into the outgoing
    /// process and replaced by the incoming process's saved registers. Must run
    /// with interrupts disabled.
    pub fn tick(&mut self, cpu: &mut Context) -> (r: Option<Pid>)
        requires
            old(self).wf(),
        ensures
            final(self).wf(),
            (final(self)@, *final(cpu)) == old(self)@.switched(*old(cpu)),
            r == final(self)@.current_pid(),
    {
        let ghost s0 = self@;
        let prev = self.current_process;
        let r = self.schedule();
        let ghost t = self@;
        let next = self.current_process;
        if prev != next {
            if let Some(p) = prev {
                let mut pcb = self.processes[p];
                save_context(&mut pcb.context, cpu);
                self.processes.set(p, pcb);
                assert(self@.procs =~= t.procs.update(p as int, t.procs[p as int].with_context(*old(cpu))));
            }
            if let Some(n) = next {
                restore_context(&self.processes[n].context, cpu);
            }
            assert(self@.wf()) by {
                let s1 = self@;
                lemma_update_keeps_pids(t, s1);
            }
        }
        assert(self@ =~= s0.switched(*old(cpu)).0);
        r
    }

    /// Index of the first ready process met when scanning from the cursor.
    fn find_ready(&self) -> (r: Option<usize>)
        requires
            self.wf(),
        ensures
            r matches Some(i) ==> scan_ready(self@.procs, self@.cursor, 0) == Some(i as int),
            r is None ==> scan_ready(self@.procs, self@.cursor, 0) is None,
    {
        let n = self.processes.len();
        let mut k: usize = 0;
        while k < n
            invariant
                self.wf(),
                n == self@.procs.len(),
                0 <= k <= n,
                scan_ready(self@.procs, self@.cursor, 0) == scan_ready(self@.procs, self@.cursor, k as int),
            decreases n - k,
        {
            let i: usize = if self.cursor + k < n {
                self.cursor + k
            } else {
                self.cursor + k - n
            };
            assert(i as int == wrap_index(self@.cursor, k as int, n as int));
            if self.processes[i].state == SchedulerState::Ready {
                return Some(i);
            }
            k = k + 1;
        }
        None
    }

    /// One timer tick: preempts a running process whose slice is used up,
    /// dispatches the next ready process in round-robin order when nothing
    /// runs, and charges the tick to the running process. Returns the pid of
    /// the process running afterwards; with no ready process the processor
    /// idles and `None` is returned.
    pub fn schedule(&mut self) -> (r: Option<Pid>)
        requires
            old(self).wf(),
        ensures
            final(self).wf(),
            final(self)@ == old(self)@.tick(),
            r == final(self)@.current_pid(),
    {
        self.time_slice_counter = self.time_slice_counter.wrapping_add(1);
        let ghost s0 = self@;
        if let Some(c) = self.current_process {
            if self.processes[c].time_slice == 0 {
                let mut pcb = self.processes[c];
                pcb.state = SchedulerState::Ready;
                self.processes.set(c, pcb);
                self.current_process = None;
            }
        }
        let ghost s1 = self@;
        assert(s1 =~= s0.preempted()) by {
            if let Some(c) = s0.current {
                if s0.procs[c].time_slice == 0 {
                    assert(s1.procs =~= s0.procs.update(c, s0.procs[c].with_state(SchedulerState::Ready)));
                }
            }
        }
        assert(s1.wf()) by {
            lemma_update_keeps_pids(s0, s1);
        }
        if self.current_process.is_none() {
            let found = self.find_ready();
            proof {
                lemma_scan_ready_valid(self@.procs, self@.cursor, 0);
            }
            if let Some(i) = found {
                let mut pcb = self.processes[i];
                pcb.state = SchedulerState::Running;
                pcb.time_slice = DEFAULT_TIME_SLICE;
                self.processes.set(i, pcb);
                self.current_process = Some(i);
                self.cursor = i + 1;
            }
        }
        let ghost s2 = self@;
        assert(s2 =~= s1.selected()) by {
            if s1.current is None {
                if let Some(i) = scan_ready(s1.procs, s1.cursor, 0) {
                    assert(s2.procs =~= s1.procs.update(i, s1.procs[i].dispatched()));
                }
            }
        }
        assert(s2.wf()) by {
            lemma_update_keeps_pids(s1, s2);
        }
        if let Some(c) = self.current_process {
            let mut pcb = self.processes[c];
            if pcb.time_slice > 0 {
                pcb.time_slice = pcb.time_slice - 1;
            }
            if pcb.total_runtime < u64::MAX {
                pcb.total_runtime = pcb.total_runtime + 1;
            }
            self.processes.set(c, pcb);
            proof {
                assert(self@.procs =~= s2.procs.update(c as int, s2.procs[c as int].charged()));
            }
        }
        assert(self@ =~= s2.charged());
        assert(self@.wf()) by {
            let s3 = self@;
            lemma_update_keeps_pids(s2, s3);
        }
        match self.current_process {
            Some(c) => Some(self.processes[c].process.pid),
            None => None,
        }
    }
}

/// A fresh scheduler.
pub fn init() -> (r: Scheduler)
    ensures
        r.wf(),
        r@.procs.len() == 0,
        r@.current is None,
{
    Scheduler::new()
}

/// Gives up the processor at once: the running process becomes ready and
/// the next ready process in round-robin order is dispatched, which is the
/// yielding process itself only when no other process is ready.
pub fn yield_current(scheduler: &mut Scheduler) -> (r: Option<Pid>)
    requires
        old(scheduler).wf(),
    ensures
        final(scheduler).wf(),
        final(scheduler)@ == old(scheduler)@.yielded().tick(),
        r == final(scheduler)@.current_pid(),
        old(scheduler)@.current matches Some(c) ==> final(scheduler)@.procs[c].pid() == old(scheduler)@.procs[c].pid(),
        old(scheduler)@.current matches Some(c) ==> ((exists|j: int|
            0 <= j < old(scheduler)@.procs.len() && j != c && #[trigger] old(scheduler)@.procs[j].state
                == SchedulerState::Ready) ==> final(scheduler)@.current != Some(c)
            && final(scheduler)@.procs[c].state == SchedulerState::Ready),
{
    let ghost s0 = scheduler@;
    scheduler.preempt_current();
    let r = scheduler.schedule();
    proof {
        lemma_yield_switches(s0);
    }
    r
}

/// Puts the running process to sleep and schedules another one. The process
/// stays blocked until `wake_process` names it: no timer wakes it, whatever
/// `ticks` says.
pub fn sleep_current(scheduler: &mut Scheduler, ticks: u32) -> (r: Option<Pid>)
    requires
        old(scheduler).wf(),
    ensures
        final(scheduler).wf(),
        final(scheduler)@ == old(scheduler)@.blocked_current().tick(),
        r == final(scheduler)@.current_pid(),
{
    scheduler.block_current();
    scheduler.schedule()
}

/// Wakes the blocked process `pid`.
pub fn wake_process(scheduler: &mut Scheduler, pid: Pid)
    requires
        old(scheduler).wf(),
    ensures
        final(scheduler).wf(),
        final(scheduler)@ == old(scheduler)@.unblocked(pid),
{
    scheduler.unblock_process(pid)
}

/// `ticks` unfolds from the end as well as from the front.
pub proof fn lemma_ticks_succ(s: SchedView, n: nat)
    ensures
        s.ticks(n + 1) == s.ticks(n).tick(),
    decreases n,
{
    if n > 0 {
        lemma_ticks_succ(s.tick(), (n - 1) as nat);
        assert(s.ticks(n + 1) == s.tick().ticks(n));
    }
}

/// A tick keeps the table's length and the identifier at every index.
pub proof fn lemma_tick_keeps_pids(s: SchedView)
    requires
        s.wf(),
    ensures
        s.tick().procs.len() == s.procs.len(),
        forall|i: int| 0 <= i < s.procs.len() ==> #[trigger] s.tick().procs[i].pid() == s.procs[i].pid(),
{
    lemma_scan_ready_valid(s.preempted().procs, s.preempted().cursor, 0);
}

/// Blocking the running process keeps the scheduler well formed, the
/// table's length and the identifier at every index.
pub proof fn lemma_block_keeps_pids(s: SchedView)
    requires
        s.wf(),
    ensures
        s.blocked_current().wf(),
        s.blocked_current().procs.len() == s.procs.len(),
        forall|i: int| 0 <= i < s.procs.len() ==> #[trigger] s.blocked_current().procs[i].pid() == s.procs[i].pid(),
{
    let t = s.blocked_current();
    lemma_update_keeps_pids(s, t);
}

/// Two views with the same table length and the same identifier at every
/// index: if the first has distinct identifiers, so has the second.
pub proof fn lemma_update_keeps_pids(s: SchedView, t: SchedView)
    requires
        s.wf(),
        t.procs.len() == s.procs.len(),
        forall|i: int| 0 <= i < s.procs.len() ==> #[trigger] t.procs[i].pid() == s.procs[i].pid(),
    ensures
        forall|i: int, j: int|
            0 <= i < t.procs.len() && 0 <= j < t.procs.len() && i != j
                ==> #[trigger] t.procs[i].pid() != #[trigger] t.procs[j].pid(),
{
    assert forall|i: int, j: int|
        0 <= i < t.procs.len() && 0 <= j < t.procs.len() && i != j
            implies #[trigger] t.procs[i].pid() != #[trigger] t.procs[j].pid() by {
        assert(t.procs[i].pid() == s.procs[i].pid());
        assert(t.procs[j].pid() == s.procs[j].pid());
    }
}

/// A scan from `start` that passes a ready entry at offset `k0 < n - 1`
/// stops before reaching offset `n - 1`.
proof fn lemma_scan_stops_early(procs: Seq<ProcessControlBlock>, start: int, k: int, k0: int)
    requires
        0 <= start <= procs.len(),
        0 <= k <= k0 < procs.len() - 1,
        procs[wrap_index(start, k0, procs.len() as int)].state == SchedulerState::Ready,
    ensures
        scan_ready(procs, start, k) is Some,
        scan_ready(procs, start, k) != Some(wrap_index(start, procs.len() - 1, procs.len() as int)),
    decreases k0 - k,
{
    let n = procs.len() as int;
    if procs[wrap_index(start, k, n)].state != SchedulerState::Ready {
        lemma_scan_stops_early(procs, start, k + 1, k0);
    }
}

/// Yielding while another process is ready hands the processor to another
/// process, and the yielding one is left ready.
pub proof fn lemma_yield_switches(s: SchedView)
    requires
        s.wf(),
    ensures
        s.yielded().tick().wf(),
        s.current matches Some(c) ==> s.yielded().tick().procs[c].pid() == s.procs[c].pid(),
        s.current matches Some(c) ==> ((exists|j: int|
            0 <= j < s.procs.len() && j != c && #[trigger] s.procs[j].state == SchedulerState::Ready)
            ==> s.yielded().tick().current != Some(c) && s.yielded().tick().procs[c].state == SchedulerState::Ready),
{
    let y = s.yielded();
    lemma_update_keeps_pids(s, y);
    lemma_tick_wf(y);
    lemma_tick_keeps_pids(y);
    if let Some(c) = s.current {
        if exists|j: int| 0 <= j < s.procs.len() && j != c && #[trigger] s.procs[j].state == SchedulerState::Ready {
            let j = choose|j: int| 0 <= j < s.procs.len() && j != c && #[trigger] s.procs[j].state == SchedulerState::Ready;
            let n = s.procs.len() as int;
            let k0 = if j >= c + 1 { j - c - 1 } else { j + n - c - 1 };
            assert(wrap_index(c + 1, k0, n) == j);
            assert(y.procs[j].state == SchedulerState::Ready);
            lemma_scan_stops_early(y.procs, c + 1, 0, k0);
            assert(wrap_index(c + 1, n - 1, n) == c);
            lemma_scan_ready_valid(y.procs, c + 1, 0);
        }
    }
}

/// A tick keeps the scheduler well formed.
pub proof fn lemma_tick_wf(s: SchedView)
    requires
        s.wf(),
    ensures
        s.tick().wf(),
{
    let s1 = s.preempted();
    lemma_scan_ready_valid(s1.procs, s1.cursor, 0);
    let s2 = s1.selected();
    let s3 = s2.charged();
    assert(s1.wf()) by {
        lemma_update_keeps_pids(s, s1);
    }
    assert(s2.wf()) by {
        lemma_update_keeps_pids(s1, s2);
    }
    assert(s3.wf()) by {
        lemma_update_keeps_pids(s2, s3);
    }
}

/// A scan over a table without ready entries finds nothing.
pub proof fn lemma_scan_none(procs: Seq<ProcessControlBlock>, start: int, k: int)
    requires
        0 <= start <= procs.len(),
        forall|i: int| 0 <= i < procs.len() ==> #[trigger] procs[i].state != SchedulerState::Ready,
    ensures
        scan_ready(procs, start, k) is None,
    decreases procs.len() - k,
{
    if k >= 0 && k < procs.len() {
        lemma_scan_none(procs, start, k + 1);
    }
}

/// Runtime accounting is exact: a tick adds one tick of runtime to the
/// process that runs after it, and leaves the runtime of every other process
/// (ready or blocked) unchanged.
pub proof fn lemma_runtime_exact(s: SchedView)
    requires
        s.wf(),
    ensures
        forall|i: int|
            0 <= i < s.procs.len() && s.tick().current != Some(i)
                ==> #[trigger] s.tick().procs[i].total_runtime == s.procs[i].total_runtime,
        forall|i: int|
            0 <= i < s.procs.len() && s.tick().current == Some(i) && s.procs[i].total_runtime < u64::MAX
                ==> #[trigger] s.tick().procs[i].total_runtime == s.procs[i].total_runtime + 1,
{
    lemma_scan_ready_valid(s.preempted().procs, s.preempted().cursor, 0);
}

/// A process that has left the table is never dispatched again: after any
/// number of ticks it is neither in the table nor running.
pub proof fn lemma_terminated_never_runs(s: SchedView, pid: Pid, n: nat)
    requires
        s.wf(),
        !s.contains_pid(pid),
    ensures
        s.ticks(n).wf(),
        !s.ticks(n).contains_pid(pid),
        s.ticks(n).current_pid() != Some(pid),
    decreases n,
{
    if n > 0 {
        let t = s.tick();
        lemma_tick_wf(s);
        lemma_tick_keeps_pids(s);
        assert(!t.contains_pid(pid)) by {
            if t.contains_pid(pid) {
                let i = choose|i: int| 0 <= i < t.procs.len() && #[trigger] t.procs[i].pid() == pid;
                assert(s.procs[i].pid() == pid);
            }
        }
        lemma_terminated_never_runs(t, pid, (n - 1) as nat);
    } else {
        if let Some(c) = s.current {
            assert(s.procs[c].pid() != pid);
        }
    }
}

/// With no ready process and nothing running (an empty or fully blocked
/// table), a tick changes nothing and the processor idles.
pub proof fn lemma_idle_tick(s: SchedView)
    requires
        s.wf(),
        s.current is None,
        forall|i: int| 0 <= i < s.procs.len() ==> #[trigger] s.procs[i].state != SchedulerState::Ready,
    ensures
        s.tick() == s,
        s.tick().current is None,
{
    lemma_scan_none(s.procs, s.cursor, 0);
}

/// Phase of round-robin over a freshly filled table `s0`: process `j` is
/// running in the `m`-th tick of its slice, the processes before it have each
/// run a full slice and those after it have not run yet.
pub open spec fn round_robin_phase(s0: SchedView, t: SchedView, j: int, m: int) -> bool {
    let n = s0.procs.len();
    &&& t.procs.len() == n
    &&& t.current == Some(j)
    &&& t.cursor == j + 1
    &&& 0 <= j < n
    &&& 1 <= m <= DEFAULT_TIME_SLICE
    &&& t.procs[j].state == SchedulerState::Running
    &&& t.procs[j].total_runtime == s0.procs[j].total_runtime + m
    &&& t.procs[j].time_slice == DEFAULT_TIME_SLICE - m
    &&& forall|i: int| 0 <= i < n ==> #[trigger] t.procs[i].pid() == s0.procs[i].pid()
    &&& forall|i: int|
        0 <= i < j ==> #[trigger] t.procs[i].state == SchedulerState::Ready
            && t.procs[i].total_runtime == s0.procs[i].total_runtime + DEFAULT_TIME_SLICE
    &&& forall|i: int|
        j < i < n ==> #[trigger] t.procs[i].state == SchedulerState::Ready
            && t.procs[i].total_runtime == s0.procs[i].total_runtime
}

/// A table just filled with ready processes, none running, the scan at
/// the first entry; every runtime has room for one more slice.
pub open spec fn fresh_table(s0: SchedView) -> bool {
    &&& s0.wf()
    &&& s0.procs.len() >= 1
    &&& s0.current is None
    &&& s0.cursor == 0
    &&& forall|i: int|
        0 <= i < s0.procs.len() ==> #[trigger] s0.procs[i].state == SchedulerState::Ready
            && s0.procs[i].total_runtime + DEFAULT_TIME_SLICE <= u64::MAX
}

proof fn lemma_round_robin_phase(s0: SchedView, j: int, m: int)
    requires
        fresh_table(s0),
        0 <= j < s0.procs.len(),
        1 <= m <= DEFAULT_TIME_SLICE,
    ensures
        round_robin_phase(s0, s0.ticks((j * DEFAULT_TIME_SLICE + m) as nat), j, m),
    decreases j, m,
{
    let S = DEFAULT_TIME_SLICE as int;
    let k = (j * S + m) as nat;
    lemma_ticks_succ(s0, (k - 1) as nat);
    assert(s0.procs[j].state == SchedulerState::Ready && s0.procs[j].total_runtime + DEFAULT_TIME_SLICE <= u64::MAX);
    if j == 0 && m == 1 {
        assert(s0.ticks(0) == s0);
        let t = s0.tick();
        assert(scan_ready(s0.procs, 0, 0) == Some(0int));
        assert(t.procs[0].pid() == s0.procs[0].pid());
        assert(s0.ticks(k) == t);
        assert(round_robin_phase(s0, t, j, m));
    } else if m > 1 {
        lemma_round_robin_phase(s0, j, m - 1);
        let p = s0.ticks((k - 1) as nat);
        let t = p.tick();
        assert(p.preempted() == p);
        assert(p.selected() == p);
        assert(t.procs == p.procs.update(j, p.procs[j].charged()));
        assert(s0.ticks(k) == t);
        assert forall|i: int| 0 <= i < s0.procs.len() implies #[trigger] t.procs[i].pid() == s0.procs[i].pid() by {
            assert(t.procs[i].pid() == p.procs[i].pid());
        }
        assert(round_robin_phase(s0, t, j, m));
    } else {
        lemma_round_robin_phase(s0, j - 1, S);
        assert((j - 1) * S + S == j * S + m - 1) by (nonlinear_arith)
            requires m == 1;
        let p = s0.ticks((k - 1) as nat);
        let p1 = p.preempted();
        assert(p1.procs == p.procs.update(j - 1, p.procs[j - 1].with_state(SchedulerState::Ready)));
        assert(wrap_index(j, 0, p1.procs.len() as int) == j);
        assert(scan_ready(p1.procs, j, 0) == Some(j));
        let p2 = p1.selected();
        assert(p2.procs == p1.procs.update(j, p1.procs[j].dispatched()));
        let t = p2.charged();
        assert(t.procs == p2.procs.update(j, p2.procs[j].charged()));
        assert(s0.ticks(k) == t);
        assert forall|i: int| 0 <= i < s0.procs.len() implies #[trigger] t.procs[i].pid() == s0.procs[i].pid() by {
            assert(t.procs[i].pid() == p.procs[i].pid());
        }
        assert forall|i: int| 0 <= i < j implies #[trigger] t.procs[i].state == SchedulerState::Ready
            && t.procs[i].total_runtime == s0.procs[i].total_runtime + DEFAULT_TIME_SLICE by {
            assert(t.procs[i].total_runtime == p.procs[i].total_runtime);
        }
        assert forall|i: int| j < i < s0.procs.len() implies #[trigger] t.procs[i].state == SchedulerState::Ready
            && t.procs[i].total_runtime == s0.procs[i].total_runtime by {
            assert(t.procs[i] == p.procs[i]);
        }
        assert(round_robin_phase(s0, t, j, m));
    }
}

/// Round-robin fairness: on a table of `n` processes that have not run yet,
/// the `j`-th process (in creation order) runs during ticks
/// `j * DEFAULT_TIME_SLICE + 1` through `(j + 1) * DEFAULT_TIME_SLICE`, and
/// after `n * DEFAULT_TIME_SLICE` ticks every process has run for exactly one
/// slice.
pub proof fn lemma_round_robin(s0: SchedView)
    requires
        fresh_table(s0),
    ensures
        forall|j: int, m: int|
            0 <= j < s0.procs.len() && 1 <= m <= DEFAULT_TIME_SLICE
                ==> #[trigger] s0.ticks((j * DEFAULT_TIME_SLICE + m) as nat).current == Some(j),
        forall|i: int|
            0 <= i < s0.procs.len() ==> #[trigger] s0.ticks(
                (s0.procs.len() * DEFAULT_TIME_SLICE) as nat,
            ).procs[i].total_runtime == s0.procs[i].total_runtime + DEFAULT_TIME_SLICE,
{
    let n = s0.procs.len() as int;
    let S = DEFAULT_TIME_SLICE as int;
    assert forall|j: int, m: int|
        0 <= j < s0.procs.len() && 1 <= m <= DEFAULT_TIME_SLICE
            implies #[trigger] s0.ticks((j * DEFAULT_TIME_SLICE + m) as nat).current == Some(j) by {
        lemma_round_robin_phase(s0, j, m);
    }
    lemma_round_robin_phase(s0, n - 1, S);
    assert((n - 1) * S + S == n * S) by (nonlinear_arith);
    let t = s0.ticks((n * S) as nat);
    assert forall|i: int| 0 <= i < s0.procs.len() implies #[trigger] t.procs[i].total_runtime == s0.procs[i].total_runtime + DEFAULT_TIME_SLICE by {
        if i < n - 1 {
            assert(t.procs[i].state == SchedulerState::Ready);
        }
    }
}

} // verus!
