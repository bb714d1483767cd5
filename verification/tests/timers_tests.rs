use apue::timers::{dummy, Timeout, Timers};

const TESTME1: usize = 1;
const TESTME2: usize = 2;

#[test]
fn new_table_is_empty() {
    let t = Timers::new();
    assert!(t.timeouts().is_empty());
    assert_eq!(t.armed_s(), 0);
    dummy();
}

#[test]
fn program_session_fires_in_order() {
    let mut t = Timers::new();
    assert_eq!(t.set_timeout(TESTME2, 2, 0), 2);
    // set right away: the alarm still has its two seconds
    assert_eq!(t.set_timeout(TESTME1, 1, 2), 1);
    assert_eq!(
        t.timeouts(),
        vec![Timeout { function: TESTME1, timeout_s: 1 }, Timeout { function: TESTME2, timeout_s: 2 }]
    );
    let a = t.sig_alrm();
    assert_eq!(a.fired, vec![TESTME1]);
    assert_eq!(a.alarm_s, 1);
    let b = t.sig_alrm();
    assert_eq!(b.fired, vec![TESTME2]);
    assert_eq!(b.alarm_s, 0);
    assert!(t.timeouts().is_empty());
}

#[test]
fn timer_set_later_counts_from_its_own_start() {
    let mut t = Timers::new();
    assert_eq!(t.set_timeout(1, 10, 0), 10);
    // four seconds later the alarm has six left; a new five-second timer
    assert_eq!(t.set_timeout(2, 5, 6), 5);
    assert_eq!(
        t.timeouts(),
        vec![Timeout { function: 2, timeout_s: 5 }, Timeout { function: 1, timeout_s: 6 }]
    );
    let a = t.sig_alrm();
    assert_eq!(a.fired, vec![2]);
    assert_eq!(a.alarm_s, 1);
    let b = t.sig_alrm();
    assert_eq!(b.fired, vec![1]);
}

#[test]
fn many_timers_all_fire() {
    let mut t = Timers::new();
    for i in 0..40usize {
        let remaining = t.armed_s();
        t.set_timeout(i, 100 + i as u32, remaining);
    }
    assert_eq!(t.timeouts().len(), 40);
    let mut fired = Vec::new();
    while !t.timeouts().is_empty() {
        fired.extend(t.sig_alrm().fired);
    }
    assert_eq!(fired, (0..40usize).collect::<Vec<_>>());
}

#[test]
fn timers_due_together_fire_together_in_set_order() {
    let mut t = Timers::new();
    t.set_timeout(7, 5, 0);
    t.set_timeout(8, 5, 5);
    t.set_timeout(9, 3, 5);
    let a = t.sig_alrm();
    assert_eq!(a.fired, vec![9]);
    assert_eq!(a.alarm_s, 2);
    let b = t.sig_alrm();
    assert_eq!(b.fired, vec![7, 8]);
    assert_eq!(b.alarm_s, 0);
}

#[test]
fn table_stays_sorted_and_alarm_is_first() {
    let mut t = Timers::new();
    for (i, s) in [9u32, 3, 12, 3, 1, 40, 7].iter().enumerate() {
        let remaining = t.armed_s();
        let alarm = t.set_timeout(i, *s, remaining);
        let table = t.timeouts();
        assert_eq!(alarm, table[0].timeout_s);
        for w in table.windows(2) {
            assert!(w[0].timeout_s <= w[1].timeout_s);
        }
    }
    let mut fired = Vec::new();
    while !t.timeouts().is_empty() {
        fired.extend(t.sig_alrm().fired);
    }
    assert_eq!(fired, vec![4, 1, 3, 6, 0, 2, 5]);
}

#[test]
fn spurious_alarm_on_empty_table() {
    let mut t = Timers::new();
    let a = t.sig_alrm();
    assert!(a.fired.is_empty());
    assert_eq!(a.alarm_s, 0);
}

#[test]
fn every_timer_fires_once_at_its_own_deadline() {
    // (callback, second it is set at, seconds it waits)
    let plan = [(1usize, 0u32, 10u32), (2, 3, 4), (3, 3, 9), (4, 5, 2), (5, 6, 1)];
    let mut t = Timers::new();
    let mut now: u32 = 0;
    let mut armed_at: u32 = 0;
    for &(f, at, wait) in plan.iter() {
        now = at;
        let left = if t.armed_s() == 0 { 0 } else { t.armed_s() - (now - armed_at) };
        t.set_timeout(f, wait, left);
        armed_at = now;
    }
    let mut fired = Vec::new();
    while !t.timeouts().is_empty() {
        now = armed_at + t.armed_s();
        for f in t.sig_alrm().fired {
            fired.push((f, now));
        }
        armed_at = now;
    }
    let mut expected: Vec<(usize, u32)> = plan.iter().map(|&(f, at, wait)| (f, at + wait)).collect();
    expected.sort_by_key(|&(f, due)| (due, f));
    assert_eq!(fired, expected);
}
