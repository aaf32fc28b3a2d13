//! The syscall interception state machine.
//!
//! The tracee stops at every syscall boundary, strictly alternating between
//! entry and exit.  At an entry the machine decodes the syscall from the
//! register snapshot, consults the backing store, and records in the
//! context what the exit must inject; at the exit it yields the value for
//! the return register — synthetic descriptor or negated error code for an
//! open, achieved count for a read or write, new cursor for a seek, zero
//! for a close — and the context resets.  At most one context is live at
//! any time.  The embedding program moves registers and memory and resumes
//! the tracee; every decision is made here.

use vstd::prelude::*;
use crate::vfs::FileTable;
use crate::vfs::is_live;
use crate::vfs::spec_open_table;
use crate::vfs::spec_read_result;
use crate::vfs::spec_read_table;
use crate::vfs::spec_seek_pos;
use crate::vfs::spec_seek_table;
use crate::vfs::spec_close_table;
use crate::vfs::spec_write_table;

verus! {

/// Syscall number of `read`.
pub const SYS_READ: i64 = 0;

/// Syscall number of `write`.
pub const SYS_WRITE: i64 = 1;

/// Syscall number of `close`.
pub const SYS_CLOSE: i64 = 3;

/// Syscall number of `lseek`.
pub const SYS_LSEEK: i64 = 8;

/// Syscall number of `openat`.
pub const SYS_OPENAT: i64 = 257;

/// The "no such file" error code; its negation is injected when an open
/// of a recognized path fails.
pub const ENOENT: i64 = 2;

/// Snapshot of the tracee's syscall-relevant registers, as plain values.
/// The syscall number is read from the dedicated original-number slot,
/// which a return-value overwrite does not clobber; arguments follow the
/// platform calling convention.
#[derive(Clone, Copy, Debug)]
pub struct Regs {
    /// Original syscall number slot.
    pub orig_rax: u64,
    /// First argument register.
    pub rdi: u64,
    /// Second argument register.
    pub rsi: u64,
    /// Third argument register.
    pub rdx: u64,
    /// Return-value register.
    pub rax: u64,
}

/// One of the five filesystem calls in scope, with its decoded arguments,
/// or anything else.
pub enum SyscallClass {
    /// An openat: the pathname pointer stands in the second argument.
    Open { path_addr: u64 },
    /// A read into `buf_addr` of up to `count` bytes from `fd`.
    Read { fd: i32, buf_addr: u64, count: usize },
    /// A write out of `buf_addr` of `count` bytes to `fd`.
    Write { fd: i32, buf_addr: u64, count: usize },
    /// A seek of `fd` by `offset` from the anchor `whence`.
    Seek { fd: i32, offset: i64, whence: u64 },
    /// A close of `fd`.
    Close { fd: i32 },
    /// Any other syscall: never intercepted.
    Other,
}

/// The class and arguments the register snapshot carries.
pub open spec fn spec_classify(regs: Regs) -> SyscallClass {
    let nr = regs.orig_rax as i64;
    if nr == SYS_OPENAT {
        SyscallClass::Open { path_addr: regs.rsi }
    } else if nr == SYS_READ {
        SyscallClass::Read { fd: regs.rdi as i32, buf_addr: regs.rsi, count: regs.rdx as usize }
    } else if nr == SYS_WRITE {
        SyscallClass::Write { fd: regs.rdi as i32, buf_addr: regs.rsi, count: regs.rdx as usize }
    } else if nr == SYS_LSEEK {
        SyscallClass::Seek { fd: regs.rdi as i32, offset: regs.rsi as i64, whence: regs.rdx }
    } else if nr == SYS_CLOSE {
        SyscallClass::Close { fd: regs.rdi as i32 }
    } else {
        SyscallClass::Other
    }
}

/// Decodes the syscall and its arguments from the register snapshot.
pub fn classify(regs: &Regs) -> (r: SyscallClass)
    ensures
        r == spec_classify(*regs),
{
    let nr = regs.orig_rax as i64;
    if nr == SYS_OPENAT {
        SyscallClass::Open { path_addr: regs.rsi }
    } else if nr == SYS_READ {
        SyscallClass::Read { fd: regs.rdi as i32, buf_addr: regs.rsi, count: regs.rdx as usize }
    } else if nr == SYS_WRITE {
        SyscallClass::Write { fd: regs.rdi as i32, buf_addr: regs.rsi, count: regs.rdx as usize }
    } else if nr == SYS_LSEEK {
        SyscallClass::Seek { fd: regs.rdi as i32, offset: regs.rsi as i64, whence: regs.rdx }
    } else if nr == SYS_CLOSE {
        SyscallClass::Close { fd: regs.rdi as i32 }
    } else {
        SyscallClass::Other
    }
}

/// Ephemeral state spanning one syscall entry–exit pair.
pub struct SyscallContext {
    /// Whether the tracee stands between an entry and its exit.
    pub in_syscall: bool,
    /// Whether the pending syscall is intercepted.
    pub should_intercept: bool,
    /// The pathname captured at an open entry.
    pub pathname: Option<String>,
    /// The value the exit injects: synthetic descriptor or negated error
    /// code for an open, achieved count for a read or write, new cursor
    /// for a seek, zero for a close.
    pub carried: i64,
}

impl SyscallContext {
    /// No context is live: the next stop is an entry.
    pub open spec fn is_idle(self) -> bool {
        &&& !self.in_syscall
        &&& !self.should_intercept
        &&& self.pathname is None
        &&& self.carried == 0
    }

    /// An intercepted syscall is pending, its exit owing `carried`.
    pub open spec fn is_intercepting(self, carried: int) -> bool {
        &&& self.in_syscall
        &&& self.should_intercept
        &&& self.carried == carried
    }

    /// A syscall is pending and runs for real: the exit injects nothing.
    pub open spec fn is_passing(self) -> bool {
        &&& self.in_syscall
        &&& !self.should_intercept
    }

    /// The idle context.
    pub fn idle() -> (r: SyscallContext)
        ensures
            r.is_idle(),
    {
        SyscallContext { in_syscall: false, should_intercept: false, pathname: None, carried: 0 }
    }
}

/// What the backing store holds for a path at an open.
pub enum OpenOutcome {
    /// The store recognizes the path and supplies this content.
    Provided(Vec<u8>),
    /// The store claims the path but could not supply it: the exit
    /// injects a negated "no such file" code.
    Failed,
    /// The path is not the store's; the real call runs.
    NotVirtual,
}

/// The interception state machine: the in-memory backing store and the
/// context of the syscall in flight.
pub struct Interceptor {
    /// The virtual file table the intercepted calls run against.
    pub files: FileTable,
    /// The context of the syscall in flight, if one is.
    pub ctx: SyscallContext,
}

impl Interceptor {
    /// Machine invariant: a well-formed table.
    pub open spec fn wf(self) -> bool {
        self.files.wf()
    }

    /// A machine over an empty store, awaiting the first entry.
    pub fn new() -> (r: Interceptor)
        ensures
            r.wf(),
            r.ctx.is_idle(),
            r.files@ == Seq::<crate::vfs::FileModel>::empty(),
            r.files.spec_next_fd() == crate::vfs::FIRST_SYNTHETIC_FD,
    {
        Interceptor { files: FileTable::new(), ctx: SyscallContext::idle() }
    }

    /// Entry of an openat whose pathname was read: the store's outcome
    /// decides.  A provided file is opened — the exit injects the fresh
    /// synthetic descriptor; a failed fetch is intercepted with a negated
    /// "no such file" code; any other path runs for real.  The pathname is
    /// retained in the context for the intercepted cases.
    pub fn entry_open(&mut self, path: &String, outcome: OpenOutcome) -> (fd: Option<i32>)
        requires
            old(self).wf(),
            old(self).ctx.is_idle(),
            old(self).files.spec_next_fd() < i32::MAX,
        ensures
            final(self).wf(),
            final(self).ctx.in_syscall,
            match outcome {
                OpenOutcome::Provided(content) => {
                    let d = old(self).files.spec_next_fd();
                    &&& fd == Some(d)
                    &&& !is_live(old(self).files@, d)
                    &&& final(self).files@ == spec_open_table(old(self).files@, d, path@, content@)
                    &&& final(self).ctx.is_intercepting(d as int)
                    &&& final(self).ctx.pathname matches Some(p) && p@ == path@
                },
                OpenOutcome::Failed => {
                    &&& fd is None
                    &&& final(self).files@ == old(self).files@
                    &&& final(self).ctx.is_intercepting(-ENOENT)
                    &&& final(self).ctx.pathname matches Some(p) && p@ == path@
                },
                OpenOutcome::NotVirtual => {
                    &&& fd is None
                    &&& final(self).files@ == old(self).files@
                    &&& final(self).ctx.is_passing()
                },
            },
    {
        match outcome {
            OpenOutcome::Provided(content) => {
                let d = self.files.open(path.clone(), content);
                self.ctx = SyscallContext {
                    in_syscall: true,
                    should_intercept: true,
                    pathname: Some(path.clone()),
                    carried: d as i64,
                };
                Some(d)
            },
            OpenOutcome::Failed => {
                self.ctx = SyscallContext {
                    in_syscall: true,
                    should_intercept: true,
                    pathname: Some(path.clone()),
                    carried: -ENOENT,
                };
                None
            },
            OpenOutcome::NotVirtual => {
                self.ctx = SyscallContext {
                    in_syscall: true,
                    should_intercept: false,
                    pathname: None,
                    carried: 0,
                };
                None
            },
        }
    }

    /// Entry of a read: a recognized descriptor is served from the store —
    /// the returned bytes are written into the tracee's buffer now, and
    /// the exit injects their count; any other descriptor runs for real.
    pub fn entry_read(&mut self, fd: i32, count: usize) -> (r: Option<Vec<u8>>)
        requires
            old(self).wf(),
            old(self).ctx.is_idle(),
        ensures
            final(self).wf(),
            final(self).ctx.in_syscall,
            final(self).files@ == spec_read_table(old(self).files@, fd, count as int),
            match r {
                Some(v) => {
                    &&& is_live(old(self).files@, fd)
                    &&& Some(v@) == spec_read_result(old(self).files@, fd, count as int)
                    &&& final(self).ctx.is_intercepting((v@.len() as i64) as int)
                },
                None => {
                    &&& !is_live(old(self).files@, fd)
                    &&& final(self).ctx.is_passing()
                },
            },
    {
        match self.files.read(fd, count) {
            Some(v) => {
                let n = v.len();
                self.ctx = SyscallContext {
                    in_syscall: true,
                    should_intercept: true,
                    pathname: None,
                    carried: n as i64,
                };
                Some(v)
            },
            None => {
                self.ctx = SyscallContext {
                    in_syscall: true,
                    should_intercept: false,
                    pathname: None,
                    carried: 0,
                };
                None
            },
        }
    }

    /// Entry of a write: on a recognized descriptor the bytes read out of
    /// the tracee's buffer replace the stored content — whole-file
    /// overwrite — and the exit injects their count; any other descriptor
    /// runs for real.
    pub fn entry_write(&mut self, fd: i32, data: Vec<u8>) -> (r: bool)
        requires
            old(self).wf(),
            old(self).ctx.is_idle(),
        ensures
            final(self).wf(),
            final(self).ctx.in_syscall,
            r == is_live(old(self).files@, fd),
            final(self).files@ == spec_write_table(old(self).files@, fd, data@),
            r ==> final(self).ctx.is_intercepting((data@.len() as i64) as int),
            !r ==> final(self).ctx.is_passing(),
    {
        let n = data.len();
        match self.files.write(fd, data) {
            Some(_) => {
                self.ctx = SyscallContext {
                    in_syscall: true,
                    should_intercept: true,
                    pathname: None,
                    carried: n as i64,
                };
                true
            },
            None => {
                self.ctx = SyscallContext {
                    in_syscall: true,
                    should_intercept: false,
                    pathname: None,
                    carried: 0,
                };
                false
            },
        }
    }

    /// Entry of a seek: on a recognized descriptor the cursor is
    /// recomputed per the anchor and the exit injects where it rests; an
    /// unrecognized descriptor, anchor or target runs for real.
    pub fn entry_seek(&mut self, fd: i32, offset: i64, whence: u64) -> (r: bool)
        requires
            old(self).wf(),
            old(self).ctx.is_idle(),
        ensures
            final(self).wf(),
            final(self).ctx.in_syscall,
            final(self).files@ == spec_seek_table(old(self).files@, fd, offset as int, whence),
            match spec_seek_pos(old(self).files@, fd, offset as int, whence) {
                Some(p) => r && final(self).ctx.is_intercepting((p as i64) as int),
                None => !r && final(self).ctx.is_passing(),
            },
    {
        match self.files.seek(fd, offset, whence) {
            Some(p) => {
                self.ctx = SyscallContext {
                    in_syscall: true,
                    should_intercept: true,
                    pathname: None,
                    carried: p as i64,
                };
                true
            },
            None => {
                self.ctx = SyscallContext {
                    in_syscall: true,
                    should_intercept: false,
                    pathname: None,
                    carried: 0,
                };
                false
            },
        }
    }

    /// Entry of a close: a recognized descriptor leaves the table at once
    /// and the exit injects success; any other descriptor runs for real.
    pub fn entry_close(&mut self, fd: i32) -> (r: bool)
        requires
            old(self).wf(),
            old(self).ctx.is_idle(),
        ensures
            final(self).wf(),
            final(self).ctx.in_syscall,
            r == is_live(old(self).files@, fd),
            final(self).files@ == spec_close_table(old(self).files@, fd),
            r ==> final(self).ctx.is_intercepting(0),
            !r ==> final(self).ctx.is_passing(),
    {
        if self.files.close(fd) {
            self.ctx = SyscallContext {
                in_syscall: true,
                should_intercept: true,
                pathname: None,
                carried: 0,
            };
            true
        } else {
            self.ctx = SyscallContext {
                in_syscall: true,
                should_intercept: false,
                pathname: None,
                carried: 0,
            };
            false
        }
    }

    /// Entry of any other syscall: never intercepted.
    pub fn entry_other(&mut self)
        requires
            old(self).ctx.is_idle(),
        ensures
            final(self).files == old(self).files,
            final(self).ctx.is_passing(),
    {
        self.ctx = SyscallContext {
            in_syscall: true,
            should_intercept: false,
            pathname: None,
            carried: 0,
        };
    }

    /// Exit of the pending syscall: the value to place in the return
    /// register — exactly the carried value, reinterpreted as the
    /// register's word, only when the entry marked interception — and the
    /// context resets.  A negative carried value sets the register's top
    /// bit: the tracee sees an error code.
    pub fn on_exit(&mut self) -> (r: Option<u64>)
        requires
            old(self).ctx.in_syscall,
        ensures
            final(self).files == old(self).files,
            final(self).ctx.is_idle(),
            old(self).ctx.should_intercept ==> r == Some(old(self).ctx.carried as u64),
            !old(self).ctx.should_intercept ==> r is None,
    {
        let r = if self.ctx.should_intercept {
            Some(self.ctx.carried as u64)
        } else {
            None
        };
        self.ctx = SyscallContext::idle();
        r
    }
}

/// What the wait reported about the tracee.
#[derive(Clone, Copy, Debug, PartialEq, Eq, Structural)]
pub enum WaitEvent {
    /// A stop at a syscall boundary.
    SyscallStop,
    /// A stop by a signal that is not a syscall trap.
    SignalStop(i32),
    /// Normal termination with this exit status.
    Exited(i32),
    /// Termination by this fatal signal.
    Signaled(i32),
    /// Any other stop.
    OtherStop,
    /// The wait itself failed.
    WaitError,
}

/// What the trace loop does next.
#[derive(Clone, Copy, Debug, PartialEq, Eq, Structural)]
pub enum LoopAction {
    /// Handle a syscall entry, then resume to the next boundary.
    HandleEntry,
    /// Handle the pending syscall's exit, then resume.
    HandleExit,
    /// Re-inject the signal and resume.
    ResumeWithSignal(i32),
    /// Resume to the next stop.
    Resume,
    /// The trace is over; leave with this exit code.
    Finish(i32),
}

/// The loop's exact decision table: syscall stops strictly alternate
/// between entry and exit; a signal stop passes the signal through; a
/// normal exit propagates the child's status; a fatal signal leaves with
/// 128 plus the signal number; a wait failure leaves with 1.
pub fn wait_decision(event: &WaitEvent, in_syscall: bool) -> (r: LoopAction)
    requires
        *event matches WaitEvent::Signaled(sig) ==> 0 <= sig <= 64,
    ensures
        r == match *event {
            WaitEvent::SyscallStop => if in_syscall {
                LoopAction::HandleExit
            } else {
                LoopAction::HandleEntry
            },
            WaitEvent::SignalStop(sig) => LoopAction::ResumeWithSignal(sig),
            WaitEvent::Exited(status) => LoopAction::Finish(status),
            WaitEvent::Signaled(sig) => LoopAction::Finish((128 + sig) as i32),
            WaitEvent::OtherStop => LoopAction::Resume,
            WaitEvent::WaitError => LoopAction::Finish(1),
        },
{
    match *event {
        WaitEvent::SyscallStop => {
            if in_syscall {
                LoopAction::HandleExit
            } else {
                LoopAction::HandleEntry
            }
        },
        WaitEvent::SignalStop(sig) => LoopAction::ResumeWithSignal(sig),
        WaitEvent::Exited(status) => LoopAction::Finish(status),
        WaitEvent::Signaled(sig) => LoopAction::Finish(128 + sig),
        WaitEvent::OtherStop => LoopAction::Resume,
        WaitEvent::WaitError => LoopAction::Finish(1),
    }
}

} // verus!
