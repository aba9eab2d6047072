use kernel_core::filesystem::Filesystem;
use kernel_core::security::SecurityManager;
use kernel_core::syscall::{encode_result, Kernel, Syscall, SyscallError};

fn call(k: &mut Kernel, num: u64, a1: u64, a2: u64, a3: u64, buf: &mut Vec<u8>) -> Result<u64, SyscallError> {
    k.handle_syscall(num, a1, a2, a3, 0, 0, 0, buf)
}

fn full_kernel() -> Kernel {
    let mut k = Kernel::new();
    k.filesystem = Filesystem::init();
    k.security = Some(SecurityManager::new());
    k
}

#[test]
fn unknown_syscall_is_rejected_without_effect() {
    let mut k = full_kernel();
    let a = k.create_process(0x1000).unwrap();
    k.create_process(0x2000).unwrap();
    k.scheduler.schedule();
    let mut buf = b"xyz".to_vec();
    let r = call(&mut k, 255, 1, 2, 3, &mut buf);
    assert_eq!(r, Err(SyscallError::InvalidSyscall));
    assert_eq!(encode_result(r), (-1i64) as u64);
    assert_eq!(buf, b"xyz".to_vec());
    assert_eq!(k.scheduler.process_count(), 2);
    assert_eq!(k.scheduler.current_process().unwrap().process.pid, a);
    assert_eq!(k.scheduler.lookup(a).unwrap().total_runtime, 1);
    assert!(k.console.is_empty());
    assert_eq!(Syscall::decode(13), None);
}

#[test]
fn console_write_returns_count() {
    let mut k = Kernel::new();
    let mut buf = b"OK".to_vec();
    assert_eq!(call(&mut k, 0, 1, 0, 2, &mut buf), Ok(2));
    assert_eq!(k.console, b"OK".to_vec());
}

#[test]
fn console_write_rejects_invalid_utf8() {
    let mut k = Kernel::new();
    let mut buf = vec![0xffu8, 0xfe];
    let r = call(&mut k, 0, 1, 0, 2, &mut buf);
    assert_eq!(r, Err(SyscallError::InvalidArgument));
    assert_eq!(encode_result(r), (-2i64) as u64);
    assert!(k.console.is_empty());
}

#[test]
fn file_write_then_read_back() {
    let mut k = full_kernel();
    let mut path = b"/data.txt".to_vec();
    let fd = call(&mut k, 1, 0, 0x7, 0, &mut path).unwrap();
    assert!(fd >= 3);
    let data = b"hello file".to_vec();
    let mut buf = data.clone();
    assert_eq!(call(&mut k, 0, fd, 0, data.len() as u64, &mut buf), Ok(data.len() as u64));
    let mut path2 = b"/data.txt".to_vec();
    let fd2 = call(&mut k, 1, 0, 0x1, 0, &mut path2).unwrap();
    assert_ne!(fd2, fd);
    let mut out = Vec::new();
    assert_eq!(call(&mut k, 3, fd2, 0, 100, &mut out), Ok(data.len() as u64));
    assert_eq!(out, data);
    let mut again = Vec::new();
    assert_eq!(call(&mut k, 3, fd2, 0, 100, &mut again), Ok(0));
    assert_eq!(call(&mut k, 2, fd2, 0, 0, &mut Vec::new()), Ok(0));
    assert_eq!(call(&mut k, 2, fd2, 0, 0, &mut Vec::new()), Err(SyscallError::InvalidArgument));
}

#[test]
fn read_without_permission_is_denied() {
    let mut k = full_kernel();
    let mut path = b"/w.txt".to_vec();
    let fd = call(&mut k, 1, 0, 0x6, 0, &mut path).unwrap();
    let r = call(&mut k, 3, fd, 0, 10, &mut Vec::new());
    assert_eq!(r, Err(SyscallError::PermissionDenied));
    assert_eq!(encode_result(r), (-3i64) as u64);
}

#[test]
fn file_calls_without_filesystem_are_invalid() {
    let mut k = Kernel::new();
    assert_eq!(call(&mut k, 0, 5, 0, 1, &mut b"a".to_vec()), Err(SyscallError::InvalidArgument));
    assert_eq!(call(&mut k, 1, 0, 7, 0, &mut b"/a".to_vec()), Err(SyscallError::InvalidArgument));
    assert_eq!(call(&mut k, 2, 3, 0, 0, &mut Vec::new()), Err(SyscallError::InvalidArgument));
    assert_eq!(call(&mut k, 4, 0, 0, 0, &mut Vec::new()), Err(SyscallError::InvalidArgument));
}

#[test]
fn open_missing_file_without_create_fails() {
    let mut k = full_kernel();
    assert_eq!(call(&mut k, 1, 0, 0x1, 0, &mut b"/missing".to_vec()), Err(SyscallError::InvalidArgument));
    assert_eq!(call(&mut k, 1, 0, 0x7, 0, &mut b"relative".to_vec()), Err(SyscallError::InvalidArgument));
}

#[test]
fn snapshot_returns_new_inode() {
    let mut k = full_kernel();
    let s1 = call(&mut k, 4, 0, 0, 0, &mut Vec::new()).unwrap();
    let s2 = call(&mut k, 4, 0, 0, 0, &mut Vec::new()).unwrap();
    assert!(s1 > 1);
    assert!(s2 > s1);
}

#[test]
fn security_check_encodes_decision() {
    let mut k = full_kernel();
    assert_eq!(call(&mut k, 5, 0, 3, 0, &mut Vec::new()), Ok(1));
    assert_eq!(call(&mut k, 5, 1, 0, 0, &mut Vec::new()), Ok(0));
    assert_eq!(call(&mut k, 5, 2, 0, 0, &mut Vec::new()), Ok(1));
    assert_eq!(call(&mut k, 5, 2, 1, 0, &mut Vec::new()), Ok(0));
    assert_eq!(call(&mut k, 5, 6, 0, 0, &mut Vec::new()), Ok(0));
    assert_eq!(call(&mut k, 5, 8, 0, 0, &mut Vec::new()), Ok(0));
    assert_eq!(call(&mut k, 5, 0, 4, 0, &mut Vec::new()), Ok(0));
    let mut bare = Kernel::new();
    assert_eq!(call(&mut bare, 5, 0, 0, 0, &mut Vec::new()), Ok(0));
}

#[test]
fn autonomy_and_kill_switch() {
    let mut k = full_kernel();
    assert_eq!(call(&mut k, 8, 0, 0, 0, &mut Vec::new()), Ok(0));
    assert!(!k.security.as_ref().unwrap().is_autonomy_enabled());
    assert_eq!(call(&mut k, 8, 1, 0, 0, &mut Vec::new()), Ok(0));
    assert!(k.security.as_ref().unwrap().is_autonomy_enabled());
    assert_eq!(call(&mut k, 9, 0, 0, 0, &mut Vec::new()), Ok(0));
    assert!(!k.security.as_ref().unwrap().is_autonomy_enabled());
    assert_eq!(call(&mut k, 8, 1, 0, 0, &mut Vec::new()), Ok(0));
    assert!(!k.security.as_ref().unwrap().is_autonomy_enabled());
}

#[test]
fn audit_log_and_redact_calls() {
    let mut k = full_kernel();
    assert_eq!(call(&mut k, 6, 0, 1, 0, &mut b"ran model".to_vec()), Ok(0));
    assert_eq!(call(&mut k, 6, 9, 1, 0, &mut b"x".to_vec()), Err(SyscallError::InvalidArgument));
    assert_eq!(call(&mut k, 6, 0, 1, 0, &mut vec![0xff]), Err(SyscallError::InvalidArgument));
    let mut text = b"nothing personal here".to_vec();
    assert_eq!(call(&mut k, 7, 0, 0, 0, &mut text), Ok(0));
    assert_eq!(text, b"nothing personal here".to_vec());
}

#[test]
fn yield_sleep_and_getpid() {
    let mut k = Kernel::new();
    assert_eq!(call(&mut k, 12, 0, 0, 0, &mut Vec::new()), Ok(0));
    let a = k.create_process(0x1000).unwrap();
    let b = k.create_process(0x2000).unwrap();
    assert_eq!(call(&mut k, 10, 0, 0, 0, &mut Vec::new()), Ok(0));
    assert_eq!(call(&mut k, 12, 0, 0, 0, &mut Vec::new()), Ok(a as u64));
    assert_eq!(call(&mut k, 11, 50, 0, 0, &mut Vec::new()), Ok(0));
    assert_eq!(call(&mut k, 12, 0, 0, 0, &mut Vec::new()), Ok(b as u64));
    assert_eq!(Syscall::decode(Syscall::GetPid.number()), Some(Syscall::GetPid));
}

#[test]
fn long_file_write_through_syscalls() {
    let mut k = full_kernel();
    let fd = call(&mut k, 1, 0, 0x7, 0, &mut b"/long".to_vec()).unwrap();
    let data: Vec<u8> = (0..5000u32).map(|i| (i % 7) as u8).collect();
    let mut buf = data.clone();
    assert_eq!(call(&mut k, 0, fd, 0, 5000, &mut buf), Ok(5000));
    let fd2 = call(&mut k, 1, 0, 0x1, 0, &mut b"/long".to_vec()).unwrap();
    let mut first = Vec::new();
    assert_eq!(call(&mut k, 3, fd2, 0, 5000, &mut first), Ok(4096));
    let mut rest = Vec::new();
    assert_eq!(call(&mut k, 3, fd2, 0, 5000, &mut rest), Ok(904));
    first.extend_from_slice(&rest);
    assert_eq!(first, data);
}

#[test]
fn yield_hands_over_at_once() {
    let mut k = Kernel::new();
    let a = k.create_process(0x1000).unwrap();
    let b = k.create_process(0x2000).unwrap();
    k.scheduler.schedule();
    assert_eq!(call(&mut k, 12, 0, 0, 0, &mut Vec::new()), Ok(a as u64));
    assert_eq!(call(&mut k, 10, 0, 0, 0, &mut Vec::new()), Ok(0));
    assert_eq!(call(&mut k, 12, 0, 0, 0, &mut Vec::new()), Ok(b as u64));
    assert_eq!(call(&mut k, 10, 0, 0, 0, &mut Vec::new()), Ok(0));
    assert_eq!(call(&mut k, 12, 0, 0, 0, &mut Vec::new()), Ok(a as u64));
}

#[test]
fn lone_process_keeps_running_after_yield() {
    let mut k = Kernel::new();
    let a = k.create_process(0x1000).unwrap();
    k.scheduler.schedule();
    assert_eq!(call(&mut k, 10, 0, 0, 0, &mut Vec::new()), Ok(0));
    assert_eq!(call(&mut k, 12, 0, 0, 0, &mut Vec::new()), Ok(a as u64));
}
