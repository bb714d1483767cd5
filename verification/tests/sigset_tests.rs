use apue::sigset::{sigaddset, sigbad, sigdelset, sigemptyset, sigismember, NSIG};

#[test]
fn sigset_figure_session() {
    let mut sig = sigemptyset();
    sigaddset(&mut sig, 5);
    assert_eq!(format!("{:#b}", sig), "0b10000");
    sigdelset(&mut sig, 4);
    assert_eq!(format!("{:#b}", sig), "0b10000");
    assert!(sigismember(&sig, 5));
    sigdelset(&mut sig, 5);
    assert_eq!(format!("{:#b}", sig), "0b0");
}

#[test]
fn sigbad_bounds() {
    assert!(sigbad(0));
    assert!(sigbad(-3));
    assert!(sigbad(NSIG));
    assert!(sigbad(100));
    assert!(!sigbad(1));
    assert!(!sigbad(31));
}

#[test]
fn empty_set_has_no_member() {
    let sig = sigemptyset();
    assert_eq!(sig, 0);
    for s in 1..32i8 {
        assert!(!sigismember(&sig, s));
    }
}

#[test]
fn add_sets_only_its_bit() {
    let mut sig = sigemptyset();
    sigaddset(&mut sig, 1);
    sigaddset(&mut sig, 31);
    assert_eq!(sig, 0x4000_0001);
    for s in 2..31i8 {
        assert!(!sigismember(&sig, s));
    }
    assert!(sigismember(&sig, 1));
    assert!(sigismember(&sig, 31));
}

#[test]
fn delete_undoes_add() {
    let mut sig: u32 = 0b1010;
    sigaddset(&mut sig, 1);
    assert_eq!(sig, 0b1011);
    sigdelset(&mut sig, 1);
    assert_eq!(sig, 0b1010);
}

#[test]
fn add_undoes_delete_and_is_idempotent() {
    let mut sig: u32 = 0b1010;
    sigdelset(&mut sig, 2);
    assert_eq!(sig, 0b1000);
    sigaddset(&mut sig, 2);
    sigaddset(&mut sig, 2);
    assert_eq!(sig, 0b1010);
}

#[test]
fn adds_commute() {
    let mut a: u32 = 0x100;
    let mut b: u32 = 0x100;
    sigaddset(&mut a, 3);
    sigaddset(&mut a, 7);
    sigaddset(&mut b, 7);
    sigaddset(&mut b, 3);
    assert_eq!(a, b);
    assert_eq!(a, 0x144);
}

#[test]
fn high_bit_is_left_alone() {
    let mut sig: u32 = 0x8000_0000;
    sigaddset(&mut sig, 2);
    sigdelset(&mut sig, 31);
    assert_eq!(sig, 0x8000_0002);
}
