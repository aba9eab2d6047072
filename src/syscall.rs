//! The system-call dispatcher: decodes a trapped call (number and six
//! argument words), runs the kernel service it names and encodes the result
//! in the return register, errors as negative numbers.
use vstd::prelude::*;
use vstd::string::StringSliceAdditionalSpecFns;
use crate::filesystem::{
    write_result, BLOCK_SIZE, DIRECT_BLOCKS, FileDescriptor, Filesystem, FsError, InodeNum, OpenFlags,
};
use crate::process::{pids_below, ElfResult, Pid, ProcessManager};
use crate::scheduler::{sleep_current, yield_current, Context, SchedView, Scheduler};
use crate::security::{
    audit_ok, audit_record, autonomy_message, check_spec, kill_switch_message, fs_ok, str_from_utf8, OperationType, SecurityLevel,
    SecurityManager,
};

verus! {

/// Number of the console descriptor.
pub const CONSOLE_FD: i32 = 1;

/// Largest read served by one call, in bytes.
pub const MAX_READ: usize = 4096;

/// Largest audit detail taken from user space, in bytes.
pub const MAX_AUDIT_DETAILS: usize = 256;

/// System-call numbers.
#[derive(Debug, Clone, Copy, PartialEq, Eq, Structural)]
pub enum Syscall {
    Write,
    Open,
    Close,
    Read,
    CreateSnapshot,
    SecurityCheck,
    AuditLog,
    RedactPII,
    SetAutonomy,
    KillSwitch,
    Yield,
    Sleep,
    GetPid,
}

impl Syscall {
    pub open spec fn decode_spec(number: u64) -> Option<Syscall> {
        if number == 0 {
            Some(Syscall::Write)
        } else if number == 1 {
            Some(Syscall::Open)
        } else if number == 2 {
            Some(Syscall::Close)
        } else if number == 3 {
            Some(Syscall::Read)
        } else if number == 4 {
            Some(Syscall::CreateSnapshot)
        } else if number == 5 {
            Some(Syscall::SecurityCheck)
        } else if number == 6 {
            Some(Syscall::AuditLog)
        } else if number == 7 {
            Some(Syscall::RedactPII)
        } else if number == 8 {
            Some(Syscall::SetAutonomy)
        } else if number == 9 {
            Some(Syscall::KillSwitch)
        } else if number == 10 {
            Some(Syscall::Yield)
        } else if number == 11 {
            Some(Syscall::Sleep)
        } else if number == 12 {
            Some(Syscall::GetPid)
        } else {
            None
        }
    }

    /// The call with number `number`; `None` for an unused number.
    pub fn decode(number: u64) -> (r: Option<Syscall>)
        ensures
            r == Syscall::decode_spec(number),
    {
        match number {
            0 => Some(Syscall::Write),
            1 => Some(Syscall::Open),
            2 => Some(Syscall::Close),
            3 => Some(Syscall::Read),
            4 => Some(Syscall::CreateSnapshot),
            5 => Some(Syscall::SecurityCheck),
            6 => Some(Syscall::AuditLog),
            7 => Some(Syscall::RedactPII),
            8 => Some(Syscall::SetAutonomy),
            9 => Some(Syscall::KillSwitch),
            10 => Some(Syscall::Yield),
            11 => Some(Syscall::Sleep),
            12 => Some(Syscall::GetPid),
            _ => None,
        }
    }

    /// The number of the call.
    pub fn number(self) -> (r: u64)
        ensures
            Syscall::decode_spec(r) == Some(self),
    {
        match self {
            Syscall::Write => 0,
            Syscall::Open => 1,
            Syscall::Close => 2,
            Syscall::Read => 3,
            Syscall::CreateSnapshot => 4,
            Syscall::SecurityCheck => 5,
            Syscall::AuditLog => 6,
            Syscall::RedactPII => 7,
            Syscall::SetAutonomy => 8,
            Syscall::KillSwitch => 9,
            Syscall::Yield => 10,
            Syscall::Sleep => 11,
            Syscall::GetPid => 12,
        }
    }
}

/// Errors returned to user space.
#[derive(Debug, Clone, Copy, PartialEq, Eq, Structural)]
pub enum SyscallError {
    InvalidSyscall,
    InvalidArgument,
    PermissionDenied,
}

impl SyscallError {
    pub open spec fn code_spec(self) -> i64 {
        match self {
            SyscallError::InvalidSyscall => -1i64,
            SyscallError::InvalidArgument => -2i64,
            SyscallError::PermissionDenied => -3i64,
        }
    }

    /// The negative number that stands for the error in the return register.
    pub fn code(self) -> (r: i64)
        ensures
            r == self.code_spec(),
            r < 0,
    {
        match self {
            SyscallError::InvalidSyscall => -1,
            SyscallError::InvalidArgument => -2,
            SyscallError::PermissionDenied => -3,
        }
    }
}

/// Result of a system call.
pub type SyscallResult = Result<u64, SyscallError>;

/// The value of the return register for a result: the value itself on
/// success, the error's negative code (two's complement) on failure.
pub open spec fn encode_spec(r: SyscallResult) -> u64 {
    match r {
        Ok(v) => v,
        Err(e) => e.code_spec() as u64,
    }
}

pub fn encode_result(r: SyscallResult) -> (v: u64)
    ensures
        v == encode_spec(r),
{
    match r {
        Ok(v) => v,
        Err(e) => e.code() as u64,
    }
}

pub open spec fn fs_error_spec(err: FsError) -> SyscallError {
    match err {
        FsError::PermissionDenied => SyscallError::PermissionDenied,
        _ => SyscallError::InvalidArgument,
    }
}

/// Filesystem errors as seen by user space: a denied permission stays a
/// denial, everything else is an invalid argument.
fn fs_error_to_syscall_error(err: FsError) -> (r: SyscallError)
    ensures
        r == fs_error_spec(err),
{
    match err {
        FsError::NoFreeInodes => SyscallError::InvalidArgument,
        FsError::NoFreeBlocks => SyscallError::InvalidArgument,
        FsError::NotRegularFile => SyscallError::InvalidArgument,
        FsError::FileTooLarge => SyscallError::InvalidArgument,
        FsError::DirectoryFull => SyscallError::InvalidArgument,
        FsError::FileNotFound => SyscallError::InvalidArgument,
        FsError::PermissionDenied => SyscallError::PermissionDenied,
    }
}

/// A filesystem byte count as a system-call result.
pub open spec fn fs_count_spec(r: Result<usize, FsError>) -> SyscallResult {
    match r {
        Ok(n) => Ok(n as u64),
        Err(e) => Err(fs_error_spec(e)),
    }
}

/// When `open` must succeed or fail, for a UTF-8 path in filesystem `fs`:
/// a path that is not `/name` fails, a missing name without `create` fails,
/// and an existing name opened without both `create` and `truncate`
/// succeeds exactly when a descriptor is free.
pub open spec fn open_outcome(fs: Filesystem, path: Seq<u8>, flags: u32, r: SyscallResult) -> bool {
    let create = flags & 4 != 0;
    let truncate = flags & 8 != 0;
    &&& (path.len() < 2 || path[0] != 0x2fu8) ==> r == Err::<u64, SyscallError>(SyscallError::InvalidArgument)
    &&& (path.len() >= 2 && path[0] == 0x2fu8 && fs.root_lookup(path.drop_first()) is None && !create)
        ==> r == Err::<u64, SyscallError>(SyscallError::InvalidArgument)
    &&& (path.len() >= 2 && path[0] == 0x2fu8 && fs.root_lookup(path.drop_first()) is Some && !(create && truncate))
        ==> (fs.free_fd_exists() <==> r is Ok)
}

/// The kernel's owned state: everything a system call or a timer tick may
/// touch, passed explicitly instead of living in globals.
pub struct Kernel {
    pub scheduler: Scheduler,
    pub processes: ProcessManager,
    pub filesystem: Option<Filesystem>,
    pub security: Option<SecurityManager>,
    /// Bytes written to the console and not yet sent to the serial port.
    pub console: Vec<u8>,
}

/// The process identifier that `GetPid` reports: the running process's, or 0
/// for the kernel itself.
pub open spec fn pid_reply(s: SchedView) -> u64 {
    match s.current_pid() {
        Some(p) => p as u64,
        None => 0,
    }
}

impl Kernel {
    pub open spec fn wf(&self) -> bool {
        &&& self.scheduler.wf()
        &&& pids_below(self.scheduler@, self.processes.next_pid())
        &&& fs_ok(self.filesystem)
    }

    /// A kernel with no processes, no filesystem, no security manager and
    /// an empty console.
    pub fn new() -> (r: Kernel)
        ensures
            r.wf(),
            r.scheduler@.procs.len() == 0,
            r.scheduler@.current is None,
            r.filesystem is None,
            r.security is None,
            r.console@.len() == 0,
    {
        Kernel {
            scheduler: Scheduler::new(),
            processes: ProcessManager::new(),
            filesystem: None,
            security: None,
            console: Vec::new(),
        }
    }

    /// Creates a process starting at `entry_point` and registers it with the
    /// scheduler (see `ProcessManager::load_userland_function`).
    pub fn create_process(&mut self, entry_point: u64) -> (r: ElfResult<Pid>)
        requires
            old(self).wf(),
        ensures
            final(self).wf(),
            r matches Ok(pid) ==> pid == old(self).processes.next_pid() && final(self).scheduler@.contains_pid(pid)
                && !old(self).scheduler@.contains_pid(pid),
            r is Err ==> final(self).scheduler@ == old(self).scheduler@,
            r is Err <==> (old(self).scheduler@.procs.len() >= crate::scheduler::MAX_PROCESSES
                || old(self).processes.next_pid() == u32::MAX
                || old(self).processes.next_alloc() + crate::process::USER_STACK_SIZE + 4095 > u64::MAX),
            final(self).filesystem == old(self).filesystem,
            final(self).security == old(self).security,
            final(self).console == old(self).console,
    {
        let r = self.processes.load_userland_function(&mut self.scheduler, entry_point);
        proof {
            if let Ok(pid) = r {
                let n = self.scheduler@.procs.len() - 1;
                assert(self.scheduler@.procs[n].pid() == pid);
                if old(self).scheduler@.contains_pid(pid) {
                    let i = choose|i: int| 0 <= i < old(self).scheduler@.procs.len() && #[trigger] old(self).scheduler@.procs[i].pid() == pid;
                    assert(old(self).scheduler@.procs[i].pid() < pid);
                }
            }
        }
        r
    }

    /// Timer interrupt: one scheduling step with its context switch.
    pub fn timer_tick(&mut self, cpu: &mut Context) -> (r: Option<Pid>)
        requires
            old(self).wf(),
        ensures
            final(self).wf(),
            (final(self).scheduler@, *final(cpu)) == old(self).scheduler@.switched(*old(cpu)),
            r == final(self).scheduler@.current_pid(),
            final(self).processes == old(self).processes,
            final(self).filesystem == old(self).filesystem,
            final(self).security == old(self).security,
            final(self).console == old(self).console,
    {
        let r = self.scheduler.tick(cpu);
        proof {
            crate::scheduler::lemma_tick_keeps_pids(old(self).scheduler@);
            assert forall|i: int| 0 <= i < self.scheduler@.procs.len() implies #[trigger] self.scheduler@.procs[i].pid() < self.processes.next_pid() by {
                assert(self.scheduler@.procs[i].pid() == old(self).scheduler@.procs[i].pid());
            }
        }
        r
    }
}

/// Appends `data` to `out`.
fn append_bytes(out: &mut Vec<u8>, data: &[u8])
    ensures
        final(out)@ == old(out)@ + data@,
{
    let mut i: usize = 0;
    while i < data.len()
        invariant
            0 <= i <= data@.len(),
            out@ == old(out)@ + data@.take(i as int),
        decreases data@.len() - i,
    {
        out.push(data[i]);
        i = i + 1;
        assert(out@ =~= old(out)@ + data@.take(i as int));
    }
    assert(data@.take(data@.len() as int) =~= data@);
}

impl Kernel {
    /// `write(fd, buf, count)`: to the console for descriptor 1 (the bytes
    /// must be UTF-8), returning `count`; to the filesystem otherwise,
    /// returning the number of bytes stored.
    fn sys_write(&mut self, fd: i32, count: u64, data: &[u8]) -> (r: SyscallResult)
        requires
            old(self).wf(),
        ensures
            final(self).wf(),
            final(self).scheduler == old(self).scheduler,
            final(self).processes == old(self).processes,
            final(self).security == old(self).security,
            fd == CONSOLE_FD ==> {
                &&& final(self).filesystem == old(self).filesystem
                &&& vstd::utf8::valid_utf8(data@) ==> r == Ok::<u64, SyscallError>(count)
                    && final(self).console@ == old(self).console@ + data@
                &&& !vstd::utf8::valid_utf8(data@) ==> r == Err::<u64, SyscallError>(SyscallError::InvalidArgument)
                    && final(self).console@ == old(self).console@
            },
            fd != CONSOLE_FD ==> {
                &&& final(self).console == old(self).console
                &&& old(self).filesystem is None ==> r == Err::<u64, SyscallError>(SyscallError::InvalidArgument)
                    && final(self).filesystem == old(self).filesystem
                &&& old(self).filesystem matches Some(f) ==> r == fs_count_spec(write_result(f, fd as u32 as int, data@))
                    && (r is Err ==> final(self).filesystem == old(self).filesystem)
            },
    {
        if fd != CONSOLE_FD {
            if let Some(sm) = &self.security {
                if let Ok(false) = sm.check_operation(OperationType::DataExport, SecurityLevel::Low) {
                    return Err(SyscallError::PermissionDenied);
                }
            }
        }
        if fd == CONSOLE_FD {
            if str_from_utf8(data).is_some() {
                append_bytes(&mut self.console, data);
                Ok(count)
            } else {
                Err(SyscallError::InvalidArgument)
            }
        } else {
            match &mut self.filesystem {
                Some(fs) => match fs.write(fd as u32, data) {
                    Ok(n) => Ok(n as u64),
                    Err(e) => Err(fs_error_to_syscall_error(e)),
                },
                None => Err(SyscallError::InvalidArgument),
            }
        }
    }

    /// `open(path, flags, mode)`: the path must be UTF-8; the mode is unused.
    fn sys_open(&mut self, flags: u32, path: &[u8]) -> (r: SyscallResult)
        requires
            old(self).wf(),
        ensures
            final(self).wf(),
            final(self).scheduler == old(self).scheduler,
            final(self).processes == old(self).processes,
            final(self).security == old(self).security,
            final(self).console == old(self).console,
            !vstd::utf8::valid_utf8(path@) || old(self).filesystem is None
                ==> r == Err::<u64, SyscallError>(SyscallError::InvalidArgument)
                    && final(self).filesystem == old(self).filesystem,
            old(self).filesystem matches Some(f) ==> (vstd::utf8::valid_utf8(path@) ==> open_outcome(f, path@, flags, r)),
            r matches Ok(v) ==> (final(self).filesystem matches Some(f) && (f.open_file(v as int) matches Some(of)
                && of.position == 0 && of.flags == (OpenFlags {
                    read: flags & 1 != 0,
                    write: flags & 2 != 0,
                    create: flags & 4 != 0,
                    truncate: flags & 8 != 0,
                }))),
    {
        let path_str = match str_from_utf8(path) {
            Some(p) => p,
            None => {
                return Err(SyscallError::InvalidArgument);
            },
        };
        let open_flags = match OpenFlags::from_bits(flags) {
            Some(f) => f,
            None => {
                return Err(SyscallError::InvalidArgument);
            },
        };
        match &mut self.filesystem {
            Some(fs) => match fs.open(path_str, open_flags) {
                Ok(fd) => Ok(fd as u64),
                Err(e) => Err(fs_error_to_syscall_error(e)),
            },
            None => Err(SyscallError::InvalidArgument),
        }
    }

    /// `close(fd)`.
    fn sys_close(&mut self, fd: u32) -> (r: SyscallResult)
        requires
            old(self).wf(),
        ensures
            final(self).wf(),
            final(self).scheduler == old(self).scheduler,
            final(self).processes == old(self).processes,
            final(self).security == old(self).security,
            final(self).console == old(self).console,
            old(self).filesystem is None ==> r == Err::<u64, SyscallError>(SyscallError::InvalidArgument)
                && final(self).filesystem == old(self).filesystem,
            old(self).filesystem matches Some(f) ==> {
                &&& f.open_file(fd as int) is None ==> r == Err::<u64, SyscallError>(SyscallError::InvalidArgument)
                &&& f.open_file(fd as int) is Some ==> (r == Ok::<u64, SyscallError>(0)
                    && (final(self).filesystem matches Some(f2) && f2.open_file(fd as int) is None))
            },
    {
        match &mut self.filesystem {
            Some(fs) => match fs.close(fd) {
                Ok(()) => Ok(0),
                Err(e) => Err(fs_error_to_syscall_error(e)),
            },
            None => Err(SyscallError::InvalidArgument),
        }
    }

    /// `read(fd, buf, count)`: at most `MAX_READ` bytes; `buffer` receives
    /// the bytes read.
    fn sys_read(&mut self, fd: u32, count: u64, buffer: &mut Vec<u8>) -> (r: SyscallResult)
        requires
            old(self).wf(),
        ensures
            final(self).wf(),
            final(self).scheduler == old(self).scheduler,
            final(self).processes == old(self).processes,
            final(self).security == old(self).security,
            final(self).console == old(self).console,
            old(self).filesystem is None ==> r == Err::<u64, SyscallError>(SyscallError::InvalidArgument),
            old(self).filesystem matches Some(f) ==> (f.open_file(fd as int) is None
                ==> r == Err::<u64, SyscallError>(SyscallError::InvalidArgument)),
            old(self).filesystem matches Some(f) ==> (f.open_file(fd as int) matches Some(of) ==> {
                let size = f.inode(of.inum as int).size;
                let avail = if of.position < size { size - of.position } else { 0 };
                let want = if count < MAX_READ { count as int } else { MAX_READ as int };
                let n = if want < avail { want } else { avail as int };
                &&& !of.flags.read ==> r == Err::<u64, SyscallError>(SyscallError::PermissionDenied)
                &&& of.flags.read && !(n > 0 && of.position + n > DIRECT_BLOCKS * BLOCK_SIZE) ==> r == Ok::<u64, SyscallError>(n as u64)
                &&& of.flags.read && n > 0 && of.position + n > DIRECT_BLOCKS * BLOCK_SIZE ==> r == Err::<u64, SyscallError>(SyscallError::InvalidArgument)
                &&& r matches Ok(v) ==> v == n && final(buffer)@.len() == n
                    && (forall|k: int| 0 <= k < n ==> #[trigger] final(buffer)@[k] == f.byte_at(of.inum as int, of.position + k))
            }),
            r is Err ==> final(buffer)@ == old(buffer)@,
    {
        match &mut self.filesystem {
            Some(fs) => {
                let read_size: usize = if count < MAX_READ as u64 { count as usize } else { MAX_READ };
                let mut tmp: Vec<u8> = vec![0u8; read_size];
                match fs.read(fd, tmp.as_mut_slice()) {
                    Ok(n) => {
                        tmp.truncate(n);
                        *buffer = tmp;
                        Ok(n as u64)
                    },
                    Err(e) => Err(fs_error_to_syscall_error(e)),
                }
            },
            None => Err(SyscallError::InvalidArgument),
        }
    }

    /// `create_snapshot()`: the new snapshot's inode number.
    fn sys_create_snapshot(&mut self) -> (r: SyscallResult)
        requires
            old(self).wf(),
        ensures
            final(self).wf(),
            final(self).scheduler == old(self).scheduler,
            final(self).processes == old(self).processes,
            final(self).security == old(self).security,
            final(self).console == old(self).console,
            old(self).filesystem is None ==> r == Err::<u64, SyscallError>(SyscallError::InvalidArgument),
            old(self).filesystem matches Some(f) ==> (f.free_inode_exists() <==> r is Ok),
            r matches Ok(v) ==> (final(self).filesystem matches Some(f2) && f2.current_snapshot() == v),
            r is Err ==> r == Err::<u64, SyscallError>(SyscallError::InvalidArgument)
                && final(self).filesystem == old(self).filesystem,
    {
        match &mut self.filesystem {
            Some(fs) => match fs.create_snapshot() {
                Ok(id) => Ok(id as u64),
                Err(e) => Err(fs_error_to_syscall_error(e)),
            },
            None => Err(SyscallError::InvalidArgument),
        }
    }

    /// `security_check(operation, level)`: 1 when allowed; 0 when denied,
    /// refused, unknown, or when there is no security manager. Never an
    /// error.
    fn sys_security_check(&self, operation: u32, level: u32) -> (r: SyscallResult)
        ensures
            self.security is None || operation > 7 || level > 3 ==> r == Ok::<u64, SyscallError>(0),
            self.security matches Some(sm) ==> (operation <= 7 && level <= 3 ==> r == Ok::<u64, SyscallError>(
                if check_spec(sm.policy(), OperationType::from_code_spec(operation)->0,
                    SecurityLevel::from_code_spec(level)->0) == Some(true) { 1 } else { 0 })),
    {
        match &self.security {
            Some(sm) => {
                let op = match OperationType::from_code(operation) {
                    Some(op) => op,
                    None => {
                        return Ok(0);
                    },
                };
                let lv = match SecurityLevel::from_code(level) {
                    Some(lv) => lv,
                    None => {
                        return Ok(0);
                    },
                };
                let r = match sm.check_operation(op, lv) {
                    Ok(allowed) => Ok(if allowed { 1 } else { 0 }),
                    Err(_) => Ok(0),
                };
                r
            },
            None => Ok(0),
        }
    }
}

impl Kernel {
    /// `audit_log(operation, success, details)`: the details must be UTF-8
    /// and are cut to `MAX_AUDIT_DETAILS` bytes; the record is logged for
    /// user 0.
    fn sys_audit_log(&mut self, operation: u32, success: bool, details: &[u8]) -> (r: SyscallResult)
        requires
            old(self).wf(),
        ensures
            final(self).wf(),
            final(self).scheduler == old(self).scheduler,
            final(self).processes == old(self).processes,
            final(self).security == old(self).security,
            final(self).console == old(self).console,
            old(self).security is None || operation > 7 || !vstd::utf8::valid_utf8(details@)
                ==> r == Err::<u64, SyscallError>(SyscallError::InvalidArgument)
                    && final(self).filesystem == old(self).filesystem,
            old(self).security matches Some(sm) ==> (operation <= 7 && vstd::utf8::valid_utf8(details@) ==> {
                let op = OperationType::from_code_spec(operation)->0;
                let rec = audit_record(0, op, 0, success, details@.take(
                    if details@.len() < MAX_AUDIT_DETAILS { details@.len() as int } else { MAX_AUDIT_DETAILS as int }));
                &&& audit_ok(sm, old(self).filesystem, rec) ==> r == Ok::<u64, SyscallError>(0)
                &&& !audit_ok(sm, old(self).filesystem, rec) ==> r == Err::<u64, SyscallError>(SyscallError::InvalidArgument)
                    && final(self).filesystem == old(self).filesystem
            }),
    {
        match &mut self.security {
            Some(sm) => {
                let op = match OperationType::from_code(operation) {
                    Some(op) => op,
                    None => {
                        return Err(SyscallError::InvalidArgument);
                    },
                };
                if str_from_utf8(details).is_none() {
                    return Err(SyscallError::InvalidArgument);
                }
                let copy_len = if details.len() < MAX_AUDIT_DETAILS { details.len() } else { MAX_AUDIT_DETAILS };
                let cut = vstd::slice::slice_subrange(details, 0, copy_len);
                assert(cut@ =~= details@.take(copy_len as int));
                let ar = sm.audit_log(op, 0, success, cut, &mut self.filesystem);
                match ar {
                    Ok(()) => Ok(0),
                    Err(_) => Err(SyscallError::InvalidArgument),
                }
            },
            None => Err(SyscallError::InvalidArgument),
        }
    }

    /// `redact_pii(buf, len)`: redacts `buffer` in place; the count of
    /// redactions.
    fn sys_redact_pii(&self, buffer: &mut Vec<u8>) -> (r: SyscallResult)
        ensures
            self.security is None ==> r == Err::<u64, SyscallError>(SyscallError::InvalidArgument)
                && final(buffer)@ == old(buffer)@,
            self.security matches Some(sm) ==> {
                &&& !sm.policy().pii_redaction_enabled || !vstd::utf8::valid_utf8(old(buffer)@)
                    ==> r == Ok::<u64, SyscallError>(0) && final(buffer)@ == old(buffer)@
                &&& sm.policy().pii_redaction_enabled && vstd::utf8::valid_utf8(old(buffer)@) ==> {
                    let c = crate::security::redact_state(old(buffer)@, sm.patterns(), 8).2;
                    &&& r == Ok::<u64, SyscallError>(c as u64)
                    &&& c == 0 ==> final(buffer)@ == old(buffer)@
                    &&& c > 0 ==> final(buffer)@ == crate::security::overwrite_prefix(old(buffer)@,
                        crate::security::redacted(old(buffer)@, sm.patterns()))
                }
            },
    {
        match &self.security {
            Some(sm) => {
                let n = sm.redact_pii(buffer.as_mut_slice());
                Ok(n as u64)
            },
            None => Err(SyscallError::InvalidArgument),
        }
    }

    /// `set_autonomy(enabled)`.
    fn sys_set_autonomy(&mut self, enabled: bool) -> (r: SyscallResult)
        requires
            old(self).wf(),
        ensures
            final(self).wf(),
            final(self).scheduler == old(self).scheduler,
            final(self).processes == old(self).processes,
            final(self).console == old(self).console,
            old(self).security is None ==> r == Err::<u64, SyscallError>(SyscallError::InvalidArgument)
                && *final(self) == *old(self),
            old(self).security is Some ==> (final(self).security matches Some(sm) && sm.autonomy_flag() == enabled
                && (r == Ok::<u64, SyscallError>(0) <==> audit_ok(sm, old(self).filesystem,
                    audit_record(0, OperationType::AutonomyControl, 0, true, autonomy_message(enabled)))))
                && (r == Ok::<u64, SyscallError>(0) || r == Err::<u64, SyscallError>(SyscallError::PermissionDenied)),
    {
        match &mut self.security {
            Some(sm) => match sm.set_autonomy(enabled, 0, &mut self.filesystem) {
                Ok(()) => Ok(0),
                Err(_) => Err(SyscallError::PermissionDenied),
            },
            None => Err(SyscallError::InvalidArgument),
        }
    }

    /// `kill_switch()`: autonomy off for the rest of the session.
    fn sys_kill_switch(&mut self) -> (r: SyscallResult)
        requires
            old(self).wf(),
        ensures
            final(self).wf(),
            final(self).scheduler == old(self).scheduler,
            final(self).processes == old(self).processes,
            final(self).console == old(self).console,
            old(self).security is None ==> r == Err::<u64, SyscallError>(SyscallError::InvalidArgument)
                && *final(self) == *old(self),
            old(self).security is Some ==> (final(self).security matches Some(sm) && sm.policy().autonomy_kill_switch
                && !sm.autonomy_flag()
                && (r == Ok::<u64, SyscallError>(0) <==> audit_ok(sm, old(self).filesystem,
                    audit_record(0, OperationType::AutonomyControl, 0, true, kill_switch_message()))))
                && (r == Ok::<u64, SyscallError>(0) || r == Err::<u64, SyscallError>(SyscallError::PermissionDenied)),
    {
        match &mut self.security {
            Some(sm) => match sm.kill_switch(0, &mut self.filesystem) {
                Ok(()) => Ok(0),
                Err(_) => Err(SyscallError::PermissionDenied),
            },
            None => Err(SyscallError::InvalidArgument),
        }
    }

    /// `getpid()`: the running process's identifier, 0 when none runs.
    fn sys_get_pid(&self) -> (r: SyscallResult)
        requires
            self.wf(),
        ensures
            r == Ok::<u64, SyscallError>(pid_reply(self.scheduler@)),
    {
        match self.scheduler.current_process() {
            Some(pcb) => Ok(pcb.process.pid as u64),
            None => Ok(0),
        }
    }
}

impl Kernel {
    /// Runs the system call `syscall_num` with the argument words of the
    /// trap. `buffer` carries the user memory the call names: the bytes to
    /// write for `Write`, the path for `Open`, the details for `AuditLog`,
    /// the bytes to redact (in place) for `RedactPII`; for `Read` it
    /// receives the bytes read. An unknown number changes nothing and gives
    /// `InvalidSyscall`.
    pub fn handle_syscall(
        &mut self,
        syscall_num: u64,
        arg1: u64,
        arg2: u64,
        arg3: u64,
        arg4: u64,
        arg5: u64,
        arg6: u64,
        buffer: &mut Vec<u8>,
    ) -> (r: SyscallResult)
        requires
            old(self).wf(),
        ensures
            final(self).wf(),
            final(self).processes == old(self).processes,
            Syscall::decode_spec(syscall_num) is None ==> r == Err::<u64, SyscallError>(SyscallError::InvalidSyscall)
                && *final(self) == *old(self) && final(buffer)@ == old(buffer)@,
            !(Syscall::decode_spec(syscall_num) == Some(Syscall::Read)
                || Syscall::decode_spec(syscall_num) == Some(Syscall::RedactPII)) ==> final(buffer)@ == old(buffer)@,
            !(Syscall::decode_spec(syscall_num) == Some(Syscall::Yield)
                || Syscall::decode_spec(syscall_num) == Some(Syscall::Sleep)) ==> final(self).scheduler == old(self).scheduler,
            Syscall::decode_spec(syscall_num) == Some(Syscall::Yield) ==> r == Ok::<u64, SyscallError>(0)
                && final(self).scheduler@ == old(self).scheduler@.yielded().tick(),
            Syscall::decode_spec(syscall_num) == Some(Syscall::Sleep) ==> r == Ok::<u64, SyscallError>(0)
                && final(self).scheduler@ == old(self).scheduler@.blocked_current().tick(),
            Syscall::decode_spec(syscall_num) == Some(Syscall::GetPid) ==> r == Ok::<u64, SyscallError>(pid_reply(old(self).scheduler@))
                && *final(self) == *old(self),
            Syscall::decode_spec(syscall_num) == Some(Syscall::Write) && arg1 as i32 == CONSOLE_FD ==> {
                &&& vstd::utf8::valid_utf8(old(buffer)@) ==> r == Ok::<u64, SyscallError>(arg3)
                    && final(self).console@ == old(self).console@ + old(buffer)@
                &&& !vstd::utf8::valid_utf8(old(buffer)@) ==> r == Err::<u64, SyscallError>(SyscallError::InvalidArgument)
                    && final(self).console@ == old(self).console@
                &&& final(self).filesystem == old(self).filesystem
            },
            Syscall::decode_spec(syscall_num) == Some(Syscall::Write) && arg1 as i32 != CONSOLE_FD ==> {
                &&& final(self).console == old(self).console
                &&& old(self).filesystem is None ==> r == Err::<u64, SyscallError>(SyscallError::InvalidArgument)
                &&& old(self).filesystem matches Some(f) ==> r == fs_count_spec(write_result(f, arg1 as i32 as u32 as int, old(buffer)@))
                    && (r is Err ==> final(self).filesystem == old(self).filesystem)
            },
            Syscall::decode_spec(syscall_num) == Some(Syscall::Open) ==> {
                &&& !vstd::utf8::valid_utf8(old(buffer)@) || old(self).filesystem is None
                    ==> r == Err::<u64, SyscallError>(SyscallError::InvalidArgument)
                &&& old(self).filesystem matches Some(f) ==> (vstd::utf8::valid_utf8(old(buffer)@)
                    ==> open_outcome(f, old(buffer)@, arg2 as u32, r))
                &&& r matches Ok(v) ==> (final(self).filesystem matches Some(f) && (f.open_file(v as int) matches Some(of)
                    && of.position == 0 && of.flags == (OpenFlags {
                        read: arg2 as u32 & 1 != 0,
                        write: arg2 as u32 & 2 != 0,
                        create: arg2 as u32 & 4 != 0,
                        truncate: arg2 as u32 & 8 != 0,
                    })))
            },
            Syscall::decode_spec(syscall_num) == Some(Syscall::Close) ==> {
                &&& old(self).filesystem is None ==> r == Err::<u64, SyscallError>(SyscallError::InvalidArgument)
                &&& old(self).filesystem matches Some(f) ==> {
                    &&& f.open_file(arg1 as u32 as int) is None ==> r == Err::<u64, SyscallError>(SyscallError::InvalidArgument)
                    &&& f.open_file(arg1 as u32 as int) is Some ==> r == Ok::<u64, SyscallError>(0)
                }
            },
            Syscall::decode_spec(syscall_num) == Some(Syscall::Read) ==> {
                &&& old(self).filesystem is None ==> r == Err::<u64, SyscallError>(SyscallError::InvalidArgument)
                &&& old(self).filesystem matches Some(f) ==> (f.open_file(arg1 as u32 as int) is None
                    ==> r == Err::<u64, SyscallError>(SyscallError::InvalidArgument))
                &&& old(self).filesystem matches Some(f) ==> (f.open_file(arg1 as u32 as int) matches Some(of) ==> {
                    let size = f.inode(of.inum as int).size;
                    let avail = if of.position < size { size - of.position } else { 0 };
                    let want = if arg3 < MAX_READ { arg3 as int } else { MAX_READ as int };
                    let n = if want < avail { want } else { avail as int };
                    &&& !of.flags.read ==> r == Err::<u64, SyscallError>(SyscallError::PermissionDenied)
                    &&& of.flags.read && !(n > 0 && of.position + n > DIRECT_BLOCKS * BLOCK_SIZE) ==> r == Ok::<u64, SyscallError>(n as u64)
                    &&& of.flags.read && n > 0 && of.position + n > DIRECT_BLOCKS * BLOCK_SIZE ==> r == Err::<u64, SyscallError>(SyscallError::InvalidArgument)
                    &&& r matches Ok(v) ==> v == n && final(buffer)@.len() == n
                        && (forall|k: int| 0 <= k < n ==> #[trigger] final(buffer)@[k] == f.byte_at(of.inum as int, of.position + k))
                })
            },
            Syscall::decode_spec(syscall_num) == Some(Syscall::CreateSnapshot) ==> {
                &&& old(self).filesystem is None ==> r == Err::<u64, SyscallError>(SyscallError::InvalidArgument)
                &&& old(self).filesystem matches Some(f) ==> (f.free_inode_exists() <==> r is Ok)
                &&& r matches Ok(v) ==> (final(self).filesystem matches Some(f2) && f2.current_snapshot() == v)
            },
            Syscall::decode_spec(syscall_num) == Some(Syscall::SecurityCheck) ==> {
                &&& *final(self) == *old(self)
                &&& old(self).security is None || arg1 as u32 > 7 || arg2 as u32 > 3
                    ==> r == Ok::<u64, SyscallError>(0)
                &&& old(self).security matches Some(sm) ==> (arg1 as u32 <= 7 && arg2 as u32 <= 3 ==> r == Ok::<u64, SyscallError>(
                    if check_spec(sm.policy(), OperationType::from_code_spec(arg1 as u32)->0,
                        SecurityLevel::from_code_spec(arg2 as u32)->0) == Some(true) { 1 } else { 0 }))
            },
            Syscall::decode_spec(syscall_num) == Some(Syscall::AuditLog) ==> {
                &&& old(self).security is None || arg1 as u32 > 7 || !vstd::utf8::valid_utf8(old(buffer)@)
                    ==> r == Err::<u64, SyscallError>(SyscallError::InvalidArgument)
                &&& old(self).security matches Some(sm) ==> (arg1 as u32 <= 7 && vstd::utf8::valid_utf8(old(buffer)@) ==> {
                    let op = OperationType::from_code_spec(arg1 as u32)->0;
                    let d = old(buffer)@;
                    let rec = audit_record(0, op, 0, arg2 != 0, d.take(
                        if d.len() < MAX_AUDIT_DETAILS { d.len() as int } else { MAX_AUDIT_DETAILS as int }));
                    &&& audit_ok(sm, old(self).filesystem, rec) ==> r == Ok::<u64, SyscallError>(0)
                    &&& !audit_ok(sm, old(self).filesystem, rec) ==> r == Err::<u64, SyscallError>(SyscallError::InvalidArgument)
                })
            },
            Syscall::decode_spec(syscall_num) == Some(Syscall::RedactPII) ==> {
                &&& *final(self) == *old(self)
                &&& old(self).security is None ==> r == Err::<u64, SyscallError>(SyscallError::InvalidArgument)
                    && final(buffer)@ == old(buffer)@
                &&& old(self).security matches Some(sm) ==> {
                    &&& !sm.policy().pii_redaction_enabled || !vstd::utf8::valid_utf8(old(buffer)@)
                        ==> r == Ok::<u64, SyscallError>(0) && final(buffer)@ == old(buffer)@
                    &&& sm.policy().pii_redaction_enabled && vstd::utf8::valid_utf8(old(buffer)@) ==> {
                        let c = crate::security::redact_state(old(buffer)@, sm.patterns(), 8).2;
                        &&& r == Ok::<u64, SyscallError>(c as u64)
                        &&& c == 0 ==> final(buffer)@ == old(buffer)@
                        &&& c > 0 ==> final(buffer)@ == crate::security::overwrite_prefix(old(buffer)@,
                            crate::security::redacted(old(buffer)@, sm.patterns()))
                    }
                }
            },
            Syscall::decode_spec(syscall_num) == Some(Syscall::SetAutonomy) ==> {
                &&& old(self).security is None ==> r == Err::<u64, SyscallError>(SyscallError::InvalidArgument)
                    && *final(self) == *old(self)
                &&& old(self).security is Some ==> (final(self).security matches Some(sm) && sm.autonomy_flag() == (arg1 != 0)
                    && (r == Ok::<u64, SyscallError>(0) <==> audit_ok(sm, old(self).filesystem,
                        audit_record(0, OperationType::AutonomyControl, 0, true, autonomy_message(arg1 != 0)))))
                    && (r == Ok::<u64, SyscallError>(0) || r == Err::<u64, SyscallError>(SyscallError::PermissionDenied))
            },
            Syscall::decode_spec(syscall_num) == Some(Syscall::KillSwitch) ==> {
                &&& old(self).security is None ==> r == Err::<u64, SyscallError>(SyscallError::InvalidArgument)
                    && *final(self) == *old(self)
                &&& old(self).security is Some ==> (final(self).security matches Some(sm)
                    && sm.policy().autonomy_kill_switch && !sm.autonomy_flag()
                    && (r == Ok::<u64, SyscallError>(0) <==> audit_ok(sm, old(self).filesystem,
                        audit_record(0, OperationType::AutonomyControl, 0, true, kill_switch_message()))))
                    && (r == Ok::<u64, SyscallError>(0) || r == Err::<u64, SyscallError>(SyscallError::PermissionDenied))
            },
    {
        match Syscall::decode(syscall_num) {
            Some(Syscall::Write) => self.sys_write(arg1 as i32, arg3, buffer.as_slice()),
            Some(Syscall::Open) => self.sys_open(arg2 as u32, buffer.as_slice()),
            Some(Syscall::Close) => self.sys_close(arg1 as u32),
            Some(Syscall::Read) => self.sys_read(arg1 as u32, arg3, buffer),
            Some(Syscall::CreateSnapshot) => self.sys_create_snapshot(),
            Some(Syscall::SecurityCheck) => self.sys_security_check(arg1 as u32, arg2 as u32),
            Some(Syscall::AuditLog) => self.sys_audit_log(arg1 as u32, arg2 != 0, buffer.as_slice()),
            Some(Syscall::RedactPII) => self.sys_redact_pii(buffer),
            Some(Syscall::SetAutonomy) => self.sys_set_autonomy(arg1 != 0),
            Some(Syscall::KillSwitch) => self.sys_kill_switch(),
            Some(Syscall::Yield) => {
                let ghost y = old(self).scheduler@.yielded();
                yield_current(&mut self.scheduler);
                proof {
                    crate::scheduler::lemma_tick_keeps_pids(y);
                    assert forall|i: int| 0 <= i < self.scheduler@.procs.len() implies #[trigger] self.scheduler@.procs[i].pid() < self.processes.next_pid() by {
                        assert(self.scheduler@.procs[i].pid() == y.procs[i].pid());
                        assert(y.procs[i].pid() == old(self).scheduler@.procs[i].pid());
                    }
                }
                Ok(0)
            },
            Some(Syscall::Sleep) => {
                let ticks = arg1 as u32;
                let ghost s1 = old(self).scheduler@.blocked_current();
                sleep_current(&mut self.scheduler, ticks);
                proof {
                    crate::scheduler::lemma_block_keeps_pids(old(self).scheduler@);
                    crate::scheduler::lemma_tick_keeps_pids(s1);
                    assert forall|i: int| 0 <= i < self.scheduler@.procs.len() implies #[trigger] self.scheduler@.procs[i].pid() < self.processes.next_pid() by {
                        assert(self.scheduler@.procs[i].pid() == s1.procs[i].pid());
                        assert(s1.procs[i].pid() == old(self).scheduler@.procs[i].pid());
                    }
                }
                Ok(0)
            },
            Some(Syscall::GetPid) => self.sys_get_pid(),
            None => Err(SyscallError::InvalidSyscall),
        }
    }
}

} // verus!
