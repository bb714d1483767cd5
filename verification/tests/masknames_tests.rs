use apue::masknames::pr_mask;

fn table() -> Vec<(i32, &'static str)> {
    vec![
        (1, "SIGHUP"),
        (2, "SIGINT"),
        (4, "SIGILL"),
        (5, "SIGTRAP"),
        (8, "SIGFPE"),
        (8, "SIGFPE"),
        (23, "SIGIO"),
        (32, "SIGLAST"),
    ]
}

#[test]
fn mask_with_ill_trap_io() {
    let mask: u32 = (1 << 3) | (1 << 4) | (1 << 22);
    assert_eq!(pr_mask(mask, &table()), vec!["SIGILL", "SIGTRAP", "SIGIO"]);
}

#[test]
fn empty_mask_names_nothing() {
    assert!(pr_mask(0, &table()).is_empty());
}

#[test]
fn unnamed_signals_are_skipped() {
    let mask: u32 = (1 << 2) | (1 << 1);
    assert_eq!(pr_mask(mask, &table()), vec!["SIGINT"]);
}

#[test]
fn top_bit_is_signal_thirty_two() {
    assert_eq!(pr_mask(0x8000_0001, &table()), vec!["SIGHUP", "SIGLAST"]);
}

#[test]
fn last_entry_for_a_number_wins() {
    let names = vec![(2, "first"), (2, "second")];
    assert_eq!(pr_mask(0b10, &names), vec!["second"]);
}
