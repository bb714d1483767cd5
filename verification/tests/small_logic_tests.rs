use apue::barrier::cmp;
use apue::process::{
    checktime, deadline_after, elapsed_ticks, flag2str, pr_flags, pr_times, TimeVal, Tms, ACORE,
    AFORK, ASU, AXSIG,
};
use apue::signals::{
    abort_plan, catch_tstp, classify_user_signal, increase_file_counter, increment_counter, parse_decimal, sig_int,
    sig_usr, TerminalSignal, UserSignal, UserSignalSeen,
};

#[test]
fn close_on_exec_flag() {
    assert!(pr_flags(libc::FD_CLOEXEC));
    assert!(!pr_flags(0));
    assert!(!pr_flags(2));
}

#[test]
fn accounting_flag_columns() {
    let flags = ACORE | AFORK;
    assert_eq!(flag2str(flags, ACORE, "D"), "D");
    assert_eq!(flag2str(flags, AXSIG, "X"), " ");
    assert_eq!(flag2str(flags, AFORK, "F"), "F");
    assert_eq!(flag2str(flags, ASU, "S"), " ");
}

#[test]
fn deadline_checks_seconds_and_microseconds() {
    let start = TimeVal { tv_sec: 100, tv_usec: 500 };
    let end = deadline_after(start, 10);
    assert_eq!(end, TimeVal { tv_sec: 110, tv_usec: 500 });
    assert!(!checktime(TimeVal { tv_sec: 109, tv_usec: 900 }, end));
    assert!(checktime(TimeVal { tv_sec: 110, tv_usec: 500 }, end));
    // both fields are compared on their own
    assert!(!checktime(TimeVal { tv_sec: 111, tv_usec: 100 }, end));
}

#[test]
fn cpu_time_deltas() {
    let start = Tms { tms_utime: 5, tms_stime: 7, tms_cutime: 0, tms_cstime: 1 };
    let end = Tms { tms_utime: 9, tms_stime: 7, tms_cutime: 30, tms_cstime: 4 };
    assert_eq!(
        pr_times(&start, &end),
        Tms { tms_utime: 4, tms_stime: 0, tms_cutime: 30, tms_cstime: 3 }
    );
    assert_eq!(elapsed_ticks(1000, 1250), 250);
}

#[test]
fn user_signals() {
    let seen = sig_usr(libc::SIGUSR1);
    assert_eq!(
        seen,
        UserSignalSeen { signal: Some(UserSignal::Usr1), usr1: libc::SIGUSR1, usr2: libc::SIGUSR2 }
    );
    assert_eq!(sig_usr(libc::SIGUSR2).signal, Some(UserSignal::Usr2));
    assert_eq!(sig_usr(libc::SIGHUP).signal, None);
    assert_eq!(classify_user_signal(30, 30, 31), Some(UserSignal::Usr1));
    assert_eq!(classify_user_signal(31, 30, 31), Some(UserSignal::Usr2));
    assert_eq!(classify_user_signal(10, 30, 31), None);
}

#[test]
fn terminal_signals() {
    assert_eq!(sig_int(libc::SIGINT), Some(TerminalSignal::Interrupt));
    assert_eq!(sig_int(libc::SIGQUIT), Some(TerminalSignal::Quit));
    assert_eq!(sig_int(libc::SIGTERM), None);
}

#[test]
fn abort_dispositions() {
    let ignored = abort_plan(libc::SIG_IGN);
    assert!(ignored.reset_to_default && ignored.flush_first);
    let default = abort_plan(libc::SIG_DFL);
    assert!(!default.reset_to_default && default.flush_first);
    let caught = abort_plan(0x4000);
    assert!(!caught.reset_to_default && !caught.flush_first);
}

#[test]
fn tstp_is_caught_only_from_default() {
    assert!(catch_tstp(libc::SIG_DFL));
    assert!(!catch_tstp(libc::SIG_IGN));
}

#[test]
fn counter_increases() {
    assert_eq!(increment_counter(41), 42);
    assert_eq!(increase_file_counter("0"), Some(1));
    assert_eq!(increase_file_counter("-5"), Some(-4));
    assert_eq!(increase_file_counter("abc"), None);
    assert_eq!(increase_file_counter(""), None);
    assert_eq!(increase_file_counter("2147483647"), None);
    assert_eq!(increase_file_counter("+7"), Some(8));
    assert_eq!(increase_file_counter("-"), None);
    assert_eq!(increase_file_counter(" 7"), None);
    assert_eq!(increase_file_counter("99999999999"), None);
}

#[test]
fn two_hundred_alternating_increases() {
    let mut text = String::from("0");
    for _ in 0..200 {
        let next = increase_file_counter(&text).unwrap();
        text = next.to_string();
    }
    assert_eq!(text, "200");
}

#[test]
fn comparison_of_characters() {
    assert_eq!(cmp(5, 5), 0);
    assert_eq!(cmp(1, 2), -1);
    assert_eq!(cmp(127, 16), 1);
    assert_eq!(cmp(-128, 1), -1);
}

#[test]
fn decimal_parsing_follows_std() {
    for text in [
        "0", "7", "+7", "-7", "007", "-0", "2147483647", "-2147483648", "2147483648", "-2147483649",
        "99999999999999999999", "", "+", "-", "+-1", "1a", " 1", "1 ", "\u{663}", "12\n",
    ] {
        assert_eq!(parse_decimal(text), text.parse::<i32>().ok(), "{:?}", text);
    }
    assert_eq!(parse_decimal("-2147483648"), Some(i32::MIN));
    assert_eq!(parse_decimal("+42"), Some(42));
    assert_eq!(parse_decimal("4x2"), None);
}
