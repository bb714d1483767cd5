//! Small decisions of process control: the close-on-exec flag
//! of a descriptor, the flags of an accounting record, the deadline of the
//! nice-value race, and the CPU times of a command.

use vstd::prelude::*;

verus! {

/// Calls `libc::FD_CLOEXEC`, which libc defines as 1 on Linux and on macOS.
#[verifier::external_body]
fn fd_cloexec() -> (r: i32)
    ensures
        r == 1,
{
    libc::FD_CLOEXEC
}

/// Whether the descriptor flags returned by `fcntl(fd, F_GETFD)` have the
/// close-on-exec flag set.
pub fn pr_flags(flags: i32) -> (set: bool)
    ensures
        set == (flags & 1 > 0),
{
    flags & fd_cloexec() > 0
}

/// Accounting flag: forked but not exec'd.
pub const AFORK: u8 = 0x01;
/// Accounting flag: used super-user permissions.
pub const ASU: u8 = 0x02;
/// Accounting flag: dumped core.
pub const ACORE: u8 = 0x08;
/// Accounting flag: killed by a signal.
pub const AXSIG: u8 = 0x10;

/// The column shown for `flag` of an accounting record whose flags are
/// `ac_flag`: `ch` when the flag is set, a blank otherwise.
pub fn flag2str<'a>(ac_flag: u8, flag: u8, ch: &'a str) -> (r: &'a str)
    ensures
        ac_flag & flag > 0 ==> r == ch,
        ac_flag & flag == 0 ==> r@ == " "@,
{
    if ac_flag & flag > 0 {
        ch
    } else {
        " "
    }
}

/// A time of day, in seconds and microseconds.
#[derive(Clone, Copy, Debug, PartialEq, Eq, Structural)]
pub struct TimeVal {
    pub tv_sec: i64,
    pub tv_usec: i64,
}

/// The deadline `secs` seconds after `start`.
pub fn deadline_after(start: TimeVal, secs: i64) -> (end: TimeVal)
    requires
        start.tv_sec + secs <= i64::MAX,
        start.tv_sec + secs >= i64::MIN,
    ensures
        end == (TimeVal { tv_sec: (start.tv_sec + secs) as i64, tv_usec: start.tv_usec }),
{
    TimeVal { tv_sec: start.tv_sec + secs, tv_usec: start.tv_usec }
}

/// Whether the counting loop is to stop at time `now`: both the seconds
/// and the microseconds have reached those of `end`.
pub fn checktime(now: TimeVal, end: TimeVal) -> (done: bool)
    ensures
        done == (now.tv_sec >= end.tv_sec && now.tv_usec >= end.tv_usec),
{
    now.tv_sec >= end.tv_sec && now.tv_usec >= end.tv_usec
}

/// The CPU times of a process and of its waited-for children, in clock ticks.
#[derive(Clone, Copy, Debug, PartialEq, Eq, Structural)]
pub struct Tms {
    pub tms_utime: i64,
    pub tms_stime: i64,
    pub tms_cutime: i64,
    pub tms_cstime: i64,
}

/// The ticks that passed between two readings.
pub open spec fn ticks_between(start: i64, end: i64) -> int {
    end - start
}

/// The ticks between two readings, added to the first, give the second.
pub proof fn law_ticks_add_up(start: i64, end: i64)
    ensures
        start + ticks_between(start, end) == end,
        ticks_between(start, start) == 0,
{
}

/// Whether every difference between two readings fits in an `i64`.
pub open spec fn tms_delta_fits(start: Tms, end: Tms) -> bool {
    &&& i64::MIN <= end.tms_utime - start.tms_utime <= i64::MAX
    &&& i64::MIN <= end.tms_stime - start.tms_stime <= i64::MAX
    &&& i64::MIN <= end.tms_cutime - start.tms_cutime <= i64::MAX
    &&& i64::MIN <= end.tms_cstime - start.tms_cstime <= i64::MAX
}

/// The CPU times spent between two readings, field by field.
pub fn pr_times(tmsstart: &Tms, tmsend: &Tms) -> (d: Tms)
    requires
        tms_delta_fits(*tmsstart, *tmsend),
    ensures
        d.tms_utime == ticks_between(tmsstart.tms_utime, tmsend.tms_utime),
        d.tms_stime == ticks_between(tmsstart.tms_stime, tmsend.tms_stime),
        d.tms_cutime == ticks_between(tmsstart.tms_cutime, tmsend.tms_cutime),
        d.tms_cstime == ticks_between(tmsstart.tms_cstime, tmsend.tms_cstime),
{
    Tms {
        tms_utime: tmsend.tms_utime - tmsstart.tms_utime,
        tms_stime: tmsend.tms_stime - tmsstart.tms_stime,
        tms_cutime: tmsend.tms_cutime - tmsstart.tms_cutime,
        tms_cstime: tmsend.tms_cstime - tmsstart.tms_cstime,
    }
}

/// The wall-clock ticks between two readings of `times`.
pub fn elapsed_ticks(start: i64, end: i64) -> (r: i64)
    requires
        i64::MIN <= end - start <= i64::MAX,
    ensures
        r == ticks_between(start, end),
{
    end - start
}

} // verus!
