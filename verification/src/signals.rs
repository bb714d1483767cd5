//! Small decisions of signal handling: which user signal or terminal
//! signal a handler got, how `abort` treats the current disposition of
//! `SIGABRT`, whether to catch `SIGTSTP`, and the shared counter that a
//! parent and its child take turns to increase.

use vstd::prelude::*;

verus! {

/// Calls `libc::SIGINT`, which libc defines as 2 on Linux and on macOS.
#[verifier::external_body]
fn sigint() -> (r: i32)
    ensures
        r == 2,
{
    libc::SIGINT
}

/// Calls `libc::SIGQUIT`, which libc defines as 3 on Linux and on macOS.
#[verifier::external_body]
fn sigquit() -> (r: i32)
    ensures
        r == 3,
{
    libc::SIGQUIT
}

/// Reads `libc::SIGUSR1`. Its number differs between libc's platforms (10
/// on most Linux targets, 16 on MIPS, 30 on macOS); the contract states
/// only that it is a signal number.
#[verifier::external_body]
fn sigusr1() -> (r: i32)
    ensures
        0 < r < 65,
{
    libc::SIGUSR1
}

/// Reads `libc::SIGUSR2`. Its number differs between libc's platforms (12
/// on most Linux targets, 17 on MIPS, 31 on macOS); the contract states
/// only that it is a signal number.
#[verifier::external_body]
fn sigusr2() -> (r: i32)
    ensures
        0 < r < 65,
{
    libc::SIGUSR2
}

/// One of the two user-defined signals.
#[derive(Clone, Copy, Debug, PartialEq, Eq, Structural)]
pub enum UserSignal {
    Usr1,
    Usr2,
}

/// Which user signal `signo` is, given the numbers of the two.
pub open spec fn user_signal_of(signo: i32, usr1: i32, usr2: i32) -> Option<UserSignal> {
    if signo == usr1 {
        Some(UserSignal::Usr1)
    } else if signo == usr2 {
        Some(UserSignal::Usr2)
    } else {
        None
    }
}

/// With two different numbers for the user signals, the first number is the
/// first user signal, the second is the second, and any other number is
/// neither.
pub proof fn law_user_signals_told_apart(signo: i32, usr1: i32, usr2: i32)
    requires
        usr1 != usr2,
    ensures
        user_signal_of(usr1, usr1, usr2) == Some(UserSignal::Usr1),
        user_signal_of(usr2, usr1, usr2) == Some(UserSignal::Usr2),
        signo != usr1 && signo != usr2 ==> user_signal_of(signo, usr1, usr2) is None,
{
}

/// Which user signal `signo` is, given the numbers of the two.
pub fn classify_user_signal(signo: i32, usr1: i32, usr2: i32) -> (r: Option<UserSignal>)
    ensures
        r == user_signal_of(signo, usr1, usr2),
{
    if signo == usr1 {
        Some(UserSignal::Usr1)
    } else if signo == usr2 {
        Some(UserSignal::Usr2)
    } else {
        None
    }
}

/// What a user-signal handler found: which user signal it got (`None` for
/// any other signal, on which the handler gives up), and the numbers of the
/// two user signals it told them apart by.
#[derive(Clone, Copy, Debug, PartialEq, Eq, Structural)]
pub struct UserSignalSeen {
    pub signal: Option<UserSignal>,
    pub usr1: i32,
    pub usr2: i32,
}

/// Which user signal a handler got, told apart by the platform's numbers
/// of `SIGUSR1` and `SIGUSR2`, which are returned with it.
pub fn sig_usr(signo: i32) -> (r: UserSignalSeen)
    ensures
        r.signal == user_signal_of(signo, r.usr1, r.usr2),
        0 < r.usr1 < 65,
        0 < r.usr2 < 65,
{
    let usr1 = sigusr1();
    let usr2 = sigusr2();
    UserSignalSeen { signal: classify_user_signal(signo, usr1, usr2), usr1, usr2 }
}

/// What the terminal-signal handler is to do.
#[derive(Clone, Copy, Debug, PartialEq, Eq, Structural)]
pub enum TerminalSignal {
    /// Interrupt: report it and keep waiting.
    Interrupt,
    /// Quit: report it and let the waiting loop end.
    Quit,
}

/// Which terminal signal a handler got; `None` for any other signal, on
/// which the handler gives up.
pub fn sig_int(signo: i32) -> (r: Option<TerminalSignal>)
    ensures
        r == (if signo == 2 {
            Some(TerminalSignal::Interrupt)
        } else if signo == 3 {
            Some(TerminalSignal::Quit)
        } else {
            None
        }),
{
    if signo == sigint() {
        Some(TerminalSignal::Interrupt)
    } else if signo == sigquit() {
        Some(TerminalSignal::Quit)
    } else {
        None
    }
}

/// Calls `libc::SIG_DFL`, which libc defines as 0 on Linux and on macOS.
#[verifier::external_body]
fn sig_dfl() -> (r: usize)
    ensures
        r == 0,
{
    libc::SIG_DFL
}

/// Calls `libc::SIG_IGN`, which libc defines as 1 on Linux and on macOS.
#[verifier::external_body]
fn sig_ign() -> (r: usize)
    ensures
        r == 1,
{
    libc::SIG_IGN
}

/// What `abort` does with the current handler of `SIGABRT`.
#[derive(Clone, Copy, Debug, PartialEq, Eq, Structural)]
pub struct AbortPlan {
    /// The signal is ignored; the default action is to be put back.
    pub reset_to_default: bool,
    /// The default action will run; the standard streams are to be flushed first.
    pub flush_first: bool,
}

/// Decides, from the current handler of `SIGABRT`, whether `abort` must put
/// back the default action (a caller may not ignore `SIGABRT`) and whether
/// it must flush the streams before the signal is sent (when the default
/// action, termination, is what will happen).
pub fn abort_plan(handler: usize) -> (p: AbortPlan)
    ensures
        p.reset_to_default == (handler == 1),
        p.flush_first == (handler == 0 || handler == 1),
{
    let ign = sig_ign();
    let dfl = sig_dfl();
    let reset_to_default = handler == ign;
    let now = if reset_to_default { dfl } else { handler };
    AbortPlan { reset_to_default, flush_first: now == dfl }
}

/// Whether a job-control aware program is to catch `SIGTSTP`: only when the
/// disposition it found was the default one (a shell that ignores it for
/// the program's sake must be obeyed).
pub fn catch_tstp(previous: usize) -> (catch: bool)
    ensures
        catch == (previous == 0),
{
    previous == sig_dfl()
}

/// Whether `s` is one or more ASCII decimal digits.
pub open spec fn all_digits(s: Seq<char>) -> bool {
    s.len() > 0 && forall|i: int| 0 <= i < s.len() ==> '0' <= #[trigger] s[i] <= '9'
}

/// The number that the decimal digits `s` write.
pub open spec fn digits_value(s: Seq<char>) -> int
    decreases s.len(),
{
    if s.len() == 0 {
        0
    } else {
        digits_value(s.drop_last()) * 10 + (s.last() as int - '0' as int)
    }
}

/// The value `str::parse::<i32>` gives for `s`, as its documentation states
/// it: an optional `+` or `-` followed by one or more ASCII digits, whose
/// value fits in an `i32`; anything else (an empty string, other
/// characters, a value out of range) has no value.
pub open spec fn parse_i32(s: Seq<char>) -> Option<i32> {
    let signed = s.len() > 0 && (s[0] == '+' || s[0] == '-');
    let digits = if signed { s.drop_first() } else { s };
    let v = if signed && s[0] == '-' { -digits_value(digits) } else { digits_value(digits) };
    if all_digits(digits) && i32::MIN <= v <= i32::MAX {
        Some(v as i32)
    } else {
        None
    }
}

/// The value of a string of decimal digits never falls when more digits
/// follow, and is never negative.
pub proof fn lemma_digits_value_grows(s: Seq<char>, k: int)
    requires
        0 <= k <= s.len(),
        forall|i: int| 0 <= i < s.len() ==> '0' <= #[trigger] s[i] <= '9',
    ensures
        0 <= digits_value(s.take(k)) <= digits_value(s),
    decreases s.len(),
{
    if s.len() > 0 {
        let t = s.drop_last();
        lemma_digits_value_grows(t, if k < s.len() { k } else { t.len() as int });
        assert(t.take(t.len() as int) =~= t);
        if k < s.len() {
            assert(t.take(k) =~= s.take(k));
        } else {
            assert(s.take(k) =~= s);
        }
    } else {
        assert(s.take(k) =~= s);
    }
}

/// Reads a decimal `i32` as `str::parse::<i32>` does: an optional `+` or
/// `-`, then one or more ASCII digits whose value fits in an `i32`.
#[verifier::loop_isolation(false)]
pub fn parse_decimal(s: &str) -> (r: Option<i32>)
    ensures
        r == parse_i32(s@),
{
    let n = s.unicode_len();
    if n == 0 {
        return None;
    }
    let first = s.get_char(0);
    let signed = first == '+' || first == '-';
    let start: usize = if signed { 1 } else { 0 };
    let ghost digits = s@.subrange(start as int, n as int);
    proof {
        if signed {
            assert(s@.drop_first() =~= digits);
        } else {
            assert(s@ =~= digits);
        }
    }
    if start == n {
        return None;
    }
    let mut value: i64 = 0;
    let mut i: usize = start;
    while i < n
        invariant
            start <= i <= n,
            forall|k: int| start <= k < i ==> '0' <= #[trigger] s@[k] <= '9',
            value == digits_value(s@.subrange(start as int, i as int)),
            0 <= value <= 2147483648,
        decreases n - i,
    {
        let c = s.get_char(i);
        if !('0' <= c && c <= '9') {
            assert(digits[i - start] == c);
            return None;
        }
        let d: i64 = (c as u32 - '0' as u32) as i64;
        proof {
            let before = s@.subrange(start as int, i as int);
            let after = s@.subrange(start as int, i + 1);
            assert(after.drop_last() =~= before);
            assert(after.last() == c);
        }
        value = value * 10 + d;
        i = i + 1;
        if value > 2147483648 {
            proof {
                if all_digits(digits) {
                    assert(digits.take(i - start) =~= s@.subrange(start as int, i as int));
                    lemma_digits_value_grows(digits, i - start);
                }
            }
            return None;
        }
    }
    proof {
        assert(s@.subrange(start as int, i as int) =~= digits);
        assert(all_digits(digits)) by {
            assert forall|k: int| 0 <= k < digits.len() implies '0' <= #[trigger] digits[k]
                <= '9' by {
                assert(digits[k] == s@[k + start]);
            }
        }
    }
    let v: i64 = if first == '-' { -value } else { value };
    if v < -2147483648 || v > 2147483647 {
        None
    } else {
        Some(v as i32)
    }
}

/// The counter after one increase.
pub fn increment_counter(counter: i32) -> (r: i32)
    requires
        counter < i32::MAX,
    ensures
        r == counter + 1,
{
    counter + 1
}

/// The counter stored as `text` after one increase; `None` when the text is
/// not a number or the counter cannot grow.
pub fn increase_file_counter(text: &str) -> (r: Option<i32>)
    ensures
        r == (match parse_i32(text@) {
            Some(n) => if n < i32::MAX {
                Some((n + 1) as i32)
            } else {
                None
            },
            None => None,
        }),
{
    match parse_decimal(text) {
        Some(n) => {
            if n < i32::MAX {
                Some(increment_counter(n))
            } else {
                None
            }
        },
        None => None,
    }
}

} // verus!
