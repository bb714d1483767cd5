use apue::exitstatus::{
    child_event, pr_exit, report_from_parts, status_parts, ChildEvent, ExitReport, StatusParts,
};

#[test]
fn normal_exit_seven() {
    // exit(7) is reported with the code in the second byte
    assert_eq!(pr_exit(7 << 8), ExitReport::Exited { code: 7 });
}

#[test]
fn abort_and_divide_by_zero() {
    assert_eq!(pr_exit(6), ExitReport::Signaled { signo: 6, core_dumped: false });
    assert_eq!(pr_exit(6 | 0x80), ExitReport::Signaled { signo: 6, core_dumped: true });
    assert_eq!(pr_exit(8 | 0x80), ExitReport::Signaled { signo: 8, core_dumped: true });
}

#[test]
fn stopped_child() {
    // a child stopped by SIGTSTP
    let status = (libc::SIGTSTP << 8) | 0x7f;
    assert_eq!(pr_exit(status), ExitReport::Stopped { signo: libc::SIGTSTP });
}

#[test]
fn continued_child_is_not_reported() {
    assert_eq!(pr_exit(0xffff), ExitReport::Unrecognized);
}

#[test]
fn status_parts_match_libc() {
    for status in [0, 7 << 8, 6, 0x86, 0x137f, 0xffff, 127 << 8] {
        let p = status_parts(status);
        assert_eq!(p.exited, libc::WIFEXITED(status));
        assert_eq!(p.exit_status, libc::WEXITSTATUS(status));
        assert_eq!(p.signaled, libc::WIFSIGNALED(status));
        assert_eq!(p.termsig, libc::WTERMSIG(status));
        assert_eq!(p.core_dumped, libc::WCOREDUMP(status));
        assert_eq!(p.stopped, libc::WIFSTOPPED(status));
        assert_eq!(p.stopsig, libc::WSTOPSIG(status));
    }
}

#[test]
fn parts_order_of_checks() {
    let p = StatusParts {
        exited: false,
        exit_status: 0,
        signaled: false,
        termsig: 0,
        core_dumped: false,
        stopped: true,
        stopsig: 19,
    };
    assert_eq!(report_from_parts(p), ExitReport::Stopped { signo: 19 });
    let q = StatusParts { exited: true, exit_status: 44, signaled: true, ..p };
    assert_eq!(report_from_parts(q), ExitReport::Exited { code: 44 });
    let r = StatusParts { stopped: false, ..p };
    assert_eq!(report_from_parts(r), ExitReport::Unrecognized);
}

#[test]
fn child_events_from_si_code() {
    assert_eq!(child_event(libc::CLD_EXITED), ChildEvent::Exited);
    assert_eq!(child_event(libc::CLD_STOPPED), ChildEvent::Stopped);
    assert_eq!(child_event(libc::CLD_DUMPED), ChildEvent::Abnormal { core_dumped: true });
    assert_eq!(child_event(libc::CLD_KILLED), ChildEvent::Abnormal { core_dumped: false });
}
