//! The interception state machine, the memory layer and the bridge
//! bookkeeping, exercised end to end on plain values.

use wsfs::bridge::{OpenAction, WebSocketFileSystem};
use wsfs::errors::PtraceError;
use wsfs::machine::{
    classify, wait_decision, Interceptor, LoopAction, OpenOutcome, Regs, SyscallClass, WaitEvent,
    ENOENT, SYS_CLOSE, SYS_LSEEK, SYS_OPENAT, SYS_READ, SYS_WRITE,
};
use wsfs::memory::{
    assemble_bytes, cstring_step, pack_words, read_plan, string_plan, write_plan, ScanStep,
    MAX_STRING_LENGTH,
};
use wsfs::vfs::{FIRST_SYNTHETIC_FD, SEEK_SET};
use wsfs::MAX_BUFFER_SIZE;

fn regs(nr: i64, rdi: u64, rsi: u64, rdx: u64) -> Regs {
    Regs { orig_rax: nr as u64, rdi, rsi, rdx, rax: 0 }
}

#[test]
fn test_classify_dispatch() {
    assert!(matches!(
        classify(&regs(SYS_OPENAT, 3, 0x7000, 0)),
        SyscallClass::Open { path_addr: 0x7000 }
    ));
    assert!(matches!(
        classify(&regs(SYS_READ, 5, 0x8000, 64)),
        SyscallClass::Read { fd: 5, buf_addr: 0x8000, count: 64 }
    ));
    assert!(matches!(
        classify(&regs(SYS_WRITE, 5, 0x8000, 64)),
        SyscallClass::Write { fd: 5, buf_addr: 0x8000, count: 64 }
    ));
    assert!(matches!(
        classify(&regs(SYS_LSEEK, 5, 16, 2)),
        SyscallClass::Seek { fd: 5, offset: 16, whence: 2 }
    ));
    assert!(matches!(classify(&regs(SYS_CLOSE, 5, 0, 0)), SyscallClass::Close { fd: 5 }));
    assert!(matches!(classify(&regs(9, 0, 0, 0)), SyscallClass::Other));
}

#[test]
fn test_intercepted_session() {
    let mut m = Interceptor::new();

    // open: the store provides content; the exit injects the fresh descriptor
    let fd = m
        .entry_open(&"/test/file.txt".to_string(), OpenOutcome::Provided(b"hello".to_vec()))
        .expect("a provided open yields a descriptor");
    assert!(fd >= FIRST_SYNTHETIC_FD);
    assert_eq!(m.on_exit(), Some(fd as u64));

    // read: served immediately, the exit injects the achieved count
    let bytes = m.entry_read(fd, 3).expect("recognized descriptor");
    assert_eq!(bytes, b"hel".to_vec());
    assert_eq!(m.on_exit(), Some(3));

    // write: whole-file overwrite, the exit injects the taken count
    assert!(m.entry_write(fd, b"rewritten".to_vec()));
    assert_eq!(m.on_exit(), Some(9));

    // seek: the exit injects where the cursor rests
    assert!(m.entry_seek(fd, 0, SEEK_SET));
    assert_eq!(m.on_exit(), Some(0));
    let bytes = m.entry_read(fd, 100).expect("recognized descriptor");
    assert_eq!(bytes, b"rewritten".to_vec());
    assert_eq!(m.on_exit(), Some(9));

    // close: the exit injects success; afterwards the descriptor is unrecognized
    assert!(m.entry_close(fd));
    assert_eq!(m.on_exit(), Some(0));
    assert_eq!(m.entry_read(fd, 1), None);
    assert_eq!(m.on_exit(), None);
}

#[test]
fn test_unrecognized_passes_through() {
    let mut m = Interceptor::new();
    assert_eq!(m.entry_read(42, 16), None);
    assert_eq!(m.on_exit(), None);
    assert!(!m.entry_write(42, b"x".to_vec()));
    assert_eq!(m.on_exit(), None);
    assert!(!m.entry_seek(42, 0, SEEK_SET));
    assert_eq!(m.on_exit(), None);
    assert!(!m.entry_close(42));
    assert_eq!(m.on_exit(), None);
    m.entry_other();
    assert_eq!(m.on_exit(), None);
}

#[test]
fn test_open_failure_injects_negative() {
    let mut m = Interceptor::new();
    let fd = m.entry_open(&"/test/nonexistent_file.txt".to_string(), OpenOutcome::Failed);
    assert_eq!(fd, None);
    let injected = m.on_exit().expect("a failed open is still intercepted");
    assert_eq!(injected as i64, -ENOENT);
    assert!(injected >= 0x8000_0000_0000_0000, "the return register receives a negative value");
}

#[test]
fn test_open_not_virtual_runs_for_real() {
    let mut m = Interceptor::new();
    let fd = m.entry_open(&"/etc/hosts".to_string(), OpenOutcome::NotVirtual);
    assert_eq!(fd, None);
    assert_eq!(m.on_exit(), None);
}

#[test]
fn test_wait_decision_table() {
    assert_eq!(wait_decision(&WaitEvent::SyscallStop, false), LoopAction::HandleEntry);
    assert_eq!(wait_decision(&WaitEvent::SyscallStop, true), LoopAction::HandleExit);
    assert_eq!(wait_decision(&WaitEvent::SignalStop(23), false), LoopAction::ResumeWithSignal(23));
    assert_eq!(wait_decision(&WaitEvent::Exited(0), false), LoopAction::Finish(0));
    assert_eq!(wait_decision(&WaitEvent::Exited(3), true), LoopAction::Finish(3));
    assert_eq!(wait_decision(&WaitEvent::Signaled(9), false), LoopAction::Finish(137));
    assert_eq!(wait_decision(&WaitEvent::OtherStop, false), LoopAction::Resume);
    assert_eq!(wait_decision(&WaitEvent::WaitError, false), LoopAction::Finish(1));
}

#[test]
fn test_pack_then_assemble_round_trip() {
    let data = b"exactly thirteen!".to_vec();
    let words = pack_words(&data);
    assert_eq!(words.len(), (data.len() + 7) / 8);
    let back = assemble_bytes(&words, data.len());
    assert_eq!(back, data);
}

#[test]
fn test_pack_words_layout() {
    let words = pack_words(&b"ABCDEFGHI".to_vec());
    // least-significant byte first, final word zero-padded
    assert_eq!(words[0], 0x4847_4645_4443_4241);
    assert_eq!(words[1], 0x49);
}

#[test]
fn test_cstring_scan() {
    let mut acc = Vec::new();
    // "abc\0" in the low bytes of one word
    let word = 0x0063_6261u64;
    assert_eq!(cstring_step(&mut acc, word), ScanStep::Done);
    assert_eq!(acc, b"abc".to_vec());

    // a full word without a terminator asks for more
    let mut acc2 = Vec::new();
    let full = u64::from_le_bytes(*b"ABCDEFGH");
    assert_eq!(cstring_step(&mut acc2, full), ScanStep::More);
    assert_eq!(acc2, b"ABCDEFGH".to_vec());

    // past the length cap the scan gives up
    let mut acc3 = vec![b'x'; MAX_STRING_LENGTH];
    assert_eq!(cstring_step(&mut acc3, full), ScanStep::TooLong);
}

#[test]
fn test_transfer_plans() {
    assert!(matches!(read_plan(0, 8), Err(PtraceError::InvalidAddress)));
    assert!(matches!(read_plan(0x7000, MAX_BUFFER_SIZE + 1), Err(PtraceError::BufferTooLarge)));
    assert_eq!(read_plan(0x7000, 20).unwrap(), 3);
    assert!(matches!(write_plan(0, 8), Err(PtraceError::InvalidAddress)));
    assert!(matches!(write_plan(0x7000, MAX_BUFFER_SIZE + 1), Err(PtraceError::BufferTooLarge)));
    assert!(write_plan(0x7000, MAX_BUFFER_SIZE).is_ok());
    assert!(matches!(string_plan(0), Err(PtraceError::InvalidAddress)));
    assert_eq!(string_plan(0x7000).unwrap(), MAX_STRING_LENGTH / 8 + 1);
    assert_eq!(
        PtraceError::PtraceOperation("traceme failed".to_string()).message(),
        "Ptrace operation failed: traceme failed"
    );
    assert_eq!(PtraceError::InvalidAddress.message(), "Invalid memory address");
}

#[test]
fn test_bridge_bookkeeping() {
    let mut b = WebSocketFileSystem::new("/tmp/cache".to_string());
    b.register_fd(7, "/test/file.txt");
    let f = b.get_file(7).expect("registered descriptor");
    assert_eq!(f.path, "/test/file.txt");
    assert_eq!(f.position, 0);
    b.update_fd_position(7, 42);
    assert_eq!(b.get_file(7).unwrap().position, 42);
    b.update_fd_position(8, 1); // unregistered: moves nothing
    assert!(b.get_file(8).is_none());
    assert!(b.close_file(7));
    assert!(!b.close_file(7));
    assert!(b.get_file(7).is_none());
    assert_eq!(b.cache_path(&"/test/file.txt".to_string()), "/tmp/cache/test/file.txt");
}

#[test]
fn test_fetch_once_no_second_request() {
    let mut b = WebSocketFileSystem::new("/tmp/cache".to_string());
    let path = "/test/fetched.txt".to_string();
    assert_eq!(b.open_action(&path), OpenAction::FetchRemote);
    b.note_fetched(&path);
    assert!(b.is_fetched(&path));
    assert_eq!(b.open_action(&path), OpenAction::UseCache);
    b.note_fetched(&path);
    assert_eq!(b.open_action(&path), OpenAction::UseCache);
    assert_eq!(b.open_action(&"/test/other.txt".to_string()), OpenAction::FetchRemote);
}

#[test]
fn test_pending_resolves_exactly_once() {
    let mut b = WebSocketFileSystem::new("/tmp/cache".to_string());
    let id = "req-1".to_string();
    assert!(b.insert_pending(&id));
    assert!(!b.insert_pending(&id), "a duplicate identifier is not recorded twice");
    assert!(b.take_pending(&id));
    assert!(!b.take_pending(&id), "a pending request resolves exactly once");
    let other = "req-2".to_string();
    assert!(b.insert_pending(&id));
    assert!(b.insert_pending(&other));
    assert!(b.take_pending(&other));
    assert!(b.take_pending(&id));
}
