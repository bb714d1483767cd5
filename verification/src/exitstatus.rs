//! Decoding the status of a terminated or stopped child process.
//!
//! The status word comes from `wait`/`waitpid`; libc's `W*` functions take
//! it apart. The decision of what happened to the child is made here; the
//! caller prints it.

use vstd::prelude::*;

verus! {

/// libc's `WIFSTOPPED` on a status word. Its definition differs between
/// libc's platforms, so only the low seven bits are pinned down by the
/// contract of [`wifstopped`].
pub uninterp spec fn libc_wifstopped(status: i32) -> bool;

/// libc's `WSTOPSIG` on a status word. Its definition differs between
/// libc's platforms in the bits above the second byte.
pub uninterp spec fn libc_wstopsig(status: i32) -> i32;

/// Calls `libc::WIFEXITED`. libc defines it, on Linux and on macOS alike,
/// as "the low seven bits of the status are zero".
#[verifier::external_body]
fn wifexited(status: i32) -> (r: bool)
    ensures
        r == (status & 0x7f == 0),
{
    libc::WIFEXITED(status)
}

/// Calls `libc::WEXITSTATUS`: the second byte of the status.
#[verifier::external_body]
fn wexitstatus(status: i32) -> (r: i32)
    ensures
        r == (status >> 8) & 0xff,
{
    libc::WEXITSTATUS(status)
}

/// Calls `libc::WIFSIGNALED`: on Linux and on macOS, the low seven bits are
/// neither zero nor all set (Linux writes this as
/// `((status & 0x7f) + 1) as i8 >= 2`, macOS as two comparisons; both mean
/// the same). FreeBSD also excludes the status `0x13`, so the contract is
/// stated for Linux and macOS only.
#[verifier::external_body]
fn wifsignaled(status: i32) -> (r: bool)
    ensures
        r == (status & 0x7f != 0 && status & 0x7f != 0x7f),
{
    libc::WIFSIGNALED(status)
}

/// Calls `libc::WTERMSIG`: the low seven bits of the status.
#[verifier::external_body]
fn wtermsig(status: i32) -> (r: i32)
    ensures
        r == status & 0x7f,
{
    libc::WTERMSIG(status)
}

/// Calls `libc::WCOREDUMP`: bit 7 of the status.
#[verifier::external_body]
fn wcoredump(status: i32) -> (r: bool)
    ensures
        r == (status & 0x80 != 0),
{
    libc::WCOREDUMP(status)
}

/// Calls `libc::WIFSTOPPED`. On Linux and on macOS a stopped status has
/// all of its low seven bits set; what else libc asks of the status is left
/// unsaid.
#[verifier::external_body]
fn wifstopped(status: i32) -> (r: bool)
    ensures
        r == libc_wifstopped(status),
        r ==> status & 0x7f == 0x7f,
{
    libc::WIFSTOPPED(status)
}

/// Calls `libc::WSTOPSIG`. On Linux and on macOS the low byte of the
/// result is the second byte of the status; the higher bits are left unsaid.
#[verifier::external_body]
fn wstopsig(status: i32) -> (r: i32)
    ensures
        r == libc_wstopsig(status),
        r & 0xff == (status >> 8) & 0xff,
{
    libc::WSTOPSIG(status)
}

/// What a status word says about a child.
#[derive(Clone, Copy, Debug, PartialEq, Eq, Structural)]
pub enum ExitReport {
    /// Normal termination with this exit status.
    Exited { code: i32 },
    /// Termination by this signal, with or without a core file.
    Signaled { signo: i32, core_dumped: bool },
    /// Stopped by this signal.
    Stopped { signo: i32 },
    /// None of the above; nothing is reported.
    Unrecognized,
}

/// The parts of a status word that libc's `W*` functions give.
#[derive(Clone, Copy, Debug, PartialEq, Eq, Structural)]
pub struct StatusParts {
    pub exited: bool,
    pub exit_status: i32,
    pub signaled: bool,
    pub termsig: i32,
    pub core_dumped: bool,
    pub stopped: bool,
    pub stopsig: i32,
}

/// The report for the given parts: exit is checked first, then termination
/// by a signal, then stop.
pub open spec fn report_of_parts(p: StatusParts) -> ExitReport {
    if p.exited {
        ExitReport::Exited { code: p.exit_status }
    } else if p.signaled {
        ExitReport::Signaled { signo: p.termsig, core_dumped: p.core_dumped }
    } else if p.stopped {
        ExitReport::Stopped { signo: p.stopsig }
    } else {
        ExitReport::Unrecognized
    }
}

/// A normal exit is reported with its exit status; otherwise a termination
/// by a signal with that signal and whether a core was dumped; otherwise a
/// stop with its stop signal, whatever that signal is; and a status that
/// is none of these is not reported.
pub proof fn law_report_follows_the_parts(p: StatusParts)
    ensures
        p.exited ==> report_of_parts(p) == (ExitReport::Exited { code: p.exit_status }),
        !p.exited && p.signaled ==> report_of_parts(p) == (ExitReport::Signaled {
            signo: p.termsig,
            core_dumped: p.core_dumped,
        }),
        !p.exited && !p.signaled && p.stopped ==> report_of_parts(p) == (ExitReport::Stopped {
            signo: p.stopsig,
        }),
        !p.exited && !p.signaled && !p.stopped ==> report_of_parts(p) is Unrecognized,
{
}

/// A status that libc reports as stopped, whose low seven bits are then
/// all set, is reported as a stop by the signal that libc gives for it.
pub proof fn law_stopped_status_is_reported(status: i32)
    requires
        libc_wifstopped(status),
        status & 0x7f == 0x7f,
    ensures
        report_of_parts(parts_of_status(status)) == (ExitReport::Stopped {
            signo: libc_wstopsig(status),
        }),
{
}

/// The parts that libc's `W*` functions give for `status`.
pub open spec fn parts_of_status(status: i32) -> StatusParts {
    StatusParts {
        exited: status & 0x7f == 0,
        exit_status: (status >> 8) & 0xff,
        signaled: status & 0x7f != 0 && status & 0x7f != 0x7f,
        termsig: status & 0x7f,
        core_dumped: status & 0x80 != 0,
        stopped: libc_wifstopped(status),
        stopsig: libc_wstopsig(status),
    }
}

/// Chooses the report from the parts of a status word.
pub fn report_from_parts(p: StatusParts) -> (r: ExitReport)
    ensures
        r == report_of_parts(p),
{
    if p.exited {
        ExitReport::Exited { code: p.exit_status }
    } else if p.signaled {
        ExitReport::Signaled { signo: p.termsig, core_dumped: p.core_dumped }
    } else if p.stopped {
        ExitReport::Stopped { signo: p.stopsig }
    } else {
        ExitReport::Unrecognized
    }
}

/// Takes a status word apart with libc's `W*` functions.
pub fn status_parts(status: i32) -> (p: StatusParts)
    ensures
        p == parts_of_status(status),
        p.stopped ==> status & 0x7f == 0x7f,
{
    StatusParts {
        exited: wifexited(status),
        exit_status: wexitstatus(status),
        signaled: wifsignaled(status),
        termsig: wtermsig(status),
        core_dumped: wcoredump(status),
        stopped: wifstopped(status),
        stopsig: wstopsig(status),
    }
}

/// Describes what a status word returned by `wait` says about the child.
pub fn pr_exit(status: i32) -> (r: ExitReport)
    ensures
        r == report_of_parts(parts_of_status(status)),
        status & 0x7f == 0 ==> r == (ExitReport::Exited { code: (status >> 8) & 0xff }),
        status & 0x7f != 0 && status & 0x7f != 0x7f ==> r == (ExitReport::Signaled {
            signo: status & 0x7f,
            core_dumped: status & 0x80 != 0,
        }),
        status & 0x7f == 0x7f ==> (r is Stopped || r is Unrecognized),
        libc_wifstopped(status) ==> r == (ExitReport::Stopped { signo: libc_wstopsig(status) }),
{
    report_from_parts(status_parts(status))
}

/// Calls `libc::CLD_EXITED`, which libc defines as 1 on Linux and on macOS.
#[verifier::external_body]
fn cld_exited() -> (r: i32)
    ensures
        r == 1,
{
    libc::CLD_EXITED
}

/// Calls `libc::CLD_DUMPED`, which libc defines as 3 on Linux and on macOS.
#[verifier::external_body]
fn cld_dumped() -> (r: i32)
    ensures
        r == 3,
{
    libc::CLD_DUMPED
}

/// Calls `libc::CLD_STOPPED`, which libc defines as 5 on Linux and on macOS.
#[verifier::external_body]
fn cld_stopped() -> (r: i32)
    ensures
        r == 5,
{
    libc::CLD_STOPPED
}

/// What the `si_code` of a `SIGCHLD` signal's information says about the child.
#[derive(Clone, Copy, Debug, PartialEq, Eq, Structural)]
pub enum ChildEvent {
    /// Normal termination.
    Exited,
    /// Stopped.
    Stopped,
    /// Any other outcome; `core_dumped` tells whether a core file was written.
    Abnormal { core_dumped: bool },
}

/// Describes the `si_code` of the information that `waitid` fills in.
pub fn child_event(si_code: i32) -> (r: ChildEvent)
    ensures
        r == (if si_code == 1 {
            ChildEvent::Exited
        } else if si_code == 5 {
            ChildEvent::Stopped
        } else {
            ChildEvent::Abnormal { core_dumped: si_code == 3 }
        }),
{
    if si_code == cld_exited() {
        ChildEvent::Exited
    } else if si_code == cld_stopped() {
        ChildEvent::Stopped
    } else {
        ChildEvent::Abnormal { core_dumped: si_code == cld_dumped() }
    }
}

/// A status word made for a normal exit with `code` (the code in the second
/// byte, as libc's `W_EXITCODE(code, 0)` builds it) is reported as that exit.
pub proof fn law_exit_code_roundtrip(code: i32)
    requires
        0 <= code < 256,
    ensures
        report_of_parts(parts_of_status(code << 8u32)) == (ExitReport::Exited { code }),
{
    assert((0 <= code && code < 256) ==> ((code << 8u32) & 0x7f == 0 && ((code << 8u32) >> 8u32)
        & 0xff == code)) by (bit_vector);
}

/// A status word made for termination by signal `signo`, with the core bit
/// set or not, is reported as that termination.
pub proof fn law_termination_roundtrip(signo: i32, core: bool)
    requires
        1 <= signo < 0x7f,
    ensures
        report_of_parts(parts_of_status(if core { signo | 0x80 } else { signo })) == (
        ExitReport::Signaled { signo, core_dumped: core }),
{
    assert((1 <= signo && signo < 0x7f) ==> ((signo | 0x80) & 0x7f == signo && (signo | 0x80)
        & 0x80 != 0 && signo & 0x7f == signo && signo & 0x80 == 0)) by (bit_vector);
}

} // verus!
