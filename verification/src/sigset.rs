//! A signal set kept as a bit vector: signal `n` (for `1 <= n < NSIG`)
//! is a member exactly when bit `n - 1` is set.

use vstd::prelude::*;

verus! {

/// Number of signal slots; valid signal numbers are `1 .. NSIG`.
pub const NSIG: i8 = 32;

/// A signal set, one bit per signal.
pub type sigset_t = u32;

/// The bit that stands for signal `signo`.
pub open spec fn signal_bit(signo: int) -> u32 {
    1u32 << ((signo - 1) as u32)
}

/// Whether `signo` lies outside the valid signal numbers.
pub open spec fn spec_sigbad(signo: int) -> bool {
    signo <= 0 || signo >= NSIG
}

/// Whether signal `signo` is a member of `set`.
pub open spec fn has_signal(set: u32, signo: int) -> bool {
    set & signal_bit(signo) != 0
}

/// The signals of a set, as a mathematical set of signal numbers.
pub open spec fn members(set: u32) -> Set<int> {
    Set::new(|s: int| 1 <= s < NSIG && has_signal(set, s))
}

proof fn lemma_or_bit(x: u32, a: u32, b: u32)
    requires
        a < 31,
        b < 31,
    ensures
        (x | (1u32 << a)) & (1u32 << b) != 0 <==> (a == b || x & (1u32 << b) != 0),
{
    assert((x | (1u32 << a)) & (1u32 << b) != 0 <==> (a == b || x & (1u32 << b) != 0))
        by (bit_vector)
        requires a < 31u32, b < 31u32;
}

proof fn lemma_and_not_bit(x: u32, a: u32, b: u32)
    requires
        a < 31,
        b < 31,
    ensures
        (x & !(1u32 << a)) & (1u32 << b) != 0 <==> (a != b && x & (1u32 << b) != 0),
{
    assert((x & !(1u32 << a)) & (1u32 << b) != 0 <==> (a != b && x & (1u32 << b) != 0))
        by (bit_vector)
        requires a < 31u32, b < 31u32;
}

proof fn lemma_zero_no_bit(b: u32)
    requires
        b < 31,
    ensures
        0u32 & (1u32 << b) == 0,
{
    assert(0u32 & (1u32 << b) == 0) by (bit_vector);
}

/// Returns the empty signal set.
pub fn sigemptyset() -> (set: sigset_t)
    ensures
        set == 0,
        members(set) == Set::<int>::empty(),
{
    proof {
        assert forall|s: int| 1 <= s < NSIG implies !has_signal(0, s) by {
            lemma_zero_no_bit((s - 1) as u32);
        }
        assert(members(0) =~= Set::<int>::empty());
    }
    0
}

/// Whether `signo` is not a valid signal number.
pub fn sigbad(signo: i8) -> (bad: bool)
    ensures
        bad == spec_sigbad(signo as int),
        bad == (signo <= 0 || signo >= 32),
{
    signo <= 0 || signo >= NSIG
}

/// Turns on the bit of signal `signo`.
pub fn sigaddset(set: &mut sigset_t, signo: i8)
    requires
        !spec_sigbad(signo as int),
    ensures
        *final(set) == *old(set) | signal_bit(signo as int),
        forall|s: int| 1 <= s < NSIG ==>
            (#[trigger] has_signal(*final(set), s) <==> (s == signo || has_signal(*old(set), s))),
        members(*final(set)) == members(*old(set)).insert(signo as int),
{
    let shift: u32 = (signo - 1) as u32;
    let ghost before = *set;
    *set = *set | (1u32 << shift);
    proof {
        assert forall|s: int| 1 <= s < NSIG implies
            (#[trigger] has_signal(*set, s) <==> (s == signo || has_signal(before, s))) by {
            lemma_or_bit(before, shift, (s - 1) as u32);
        }
        assert(members(*set) =~= members(before).insert(signo as int));
    }
}

/// Turns off the bit of signal `signo`.
pub fn sigdelset(set: &mut sigset_t, signo: i8)
    requires
        !spec_sigbad(signo as int),
    ensures
        *final(set) == *old(set) & !signal_bit(signo as int),
        forall|s: int| 1 <= s < NSIG ==>
            (#[trigger] has_signal(*final(set), s) <==> (s != signo && has_signal(*old(set), s))),
        members(*final(set)) == members(*old(set)).remove(signo as int),
{
    let shift: u32 = (signo - 1) as u32;
    let ghost before = *set;
    *set = *set & !(1u32 << shift);
    proof {
        assert forall|s: int| 1 <= s < NSIG implies
            (#[trigger] has_signal(*set, s) <==> (s != signo && has_signal(before, s))) by {
            lemma_and_not_bit(before, shift, (s - 1) as u32);
        }
        assert(members(*set) =~= members(before).remove(signo as int));
    }
}

/// Whether signal `signo` is a member of `set`.
pub fn sigismember(set: &sigset_t, signo: i8) -> (member: bool)
    requires
        !spec_sigbad(signo as int),
    ensures
        member == has_signal(*set, signo as int),
        member == members(*set).contains(signo as int),
{
    let shift: u32 = (signo - 1) as u32;
    *set & (1u32 << shift) != 0
}

/// A signal added to a set is a member of the result.
pub proof fn law_member_after_add(set: u32, signo: int)
    requires
        !spec_sigbad(signo),
    ensures
        has_signal(set | signal_bit(signo), signo),
{
    let a = (signo - 1) as u32;
    lemma_or_bit(set, a, a);
}

/// A signal deleted from a set is not a member of the result.
pub proof fn law_not_member_after_delete(set: u32, signo: int)
    requires
        !spec_sigbad(signo),
    ensures
        !has_signal(set & !signal_bit(signo), signo),
{
    let a = (signo - 1) as u32;
    lemma_and_not_bit(set, a, a);
}

/// Adding or deleting one signal leaves the membership of every other signal as it was.
pub proof fn law_others_unchanged(set: u32, signo: int, other: int)
    requires
        !spec_sigbad(signo),
        !spec_sigbad(other),
        signo != other,
    ensures
        has_signal(set | signal_bit(signo), other) == has_signal(set, other),
        has_signal(set & !signal_bit(signo), other) == has_signal(set, other),
{
    let a = (signo - 1) as u32;
    let b = (other - 1) as u32;
    lemma_or_bit(set, a, b);
    lemma_and_not_bit(set, a, b);
}

/// Deleting a signal that was added to a set where it was absent gives back the set.
pub proof fn law_delete_undoes_add(set: u32, signo: int)
    requires
        !spec_sigbad(signo),
        !has_signal(set, signo),
    ensures
        (set | signal_bit(signo)) & !signal_bit(signo) == set,
{
    let a = (signo - 1) as u32;
    assert(set & (1u32 << a) == 0u32 ==> (set | (1u32 << a)) & !(1u32 << a) == set) by (bit_vector)
        requires a < 31u32;
}

/// Adding back a signal that was deleted from a set where it was present gives back the set.
pub proof fn law_add_undoes_delete(set: u32, signo: int)
    requires
        !spec_sigbad(signo),
        has_signal(set, signo),
    ensures
        (set & !signal_bit(signo)) | signal_bit(signo) == set,
{
    let a = (signo - 1) as u32;
    assert(set & (1u32 << a) != 0u32 ==> (set & !(1u32 << a)) | (1u32 << a) == set) by (bit_vector)
        requires a < 31u32;
}

/// Adding a signal twice is the same as adding it once, and deleting twice
/// the same as deleting once.
pub proof fn law_idempotent(set: u32, signo: int)
    requires
        !spec_sigbad(signo),
    ensures
        (set | signal_bit(signo)) | signal_bit(signo) == set | signal_bit(signo),
        (set & !signal_bit(signo)) & !signal_bit(signo) == set & !signal_bit(signo),
{
    let a = (signo - 1) as u32;
    assert((set | (1u32 << a)) | (1u32 << a) == set | (1u32 << a)) by (bit_vector);
    assert((set & !(1u32 << a)) & !(1u32 << a) == set & !(1u32 << a)) by (bit_vector);
}

/// Adding two signals gives the same set in either order; so does deleting them.
pub proof fn law_commute(set: u32, a: int, b: int)
    requires
        !spec_sigbad(a),
        !spec_sigbad(b),
    ensures
        (set | signal_bit(a)) | signal_bit(b) == (set | signal_bit(b)) | signal_bit(a),
        (set & !signal_bit(a)) & !signal_bit(b) == (set & !signal_bit(b)) & !signal_bit(a),
{
    let x = (a - 1) as u32;
    let y = (b - 1) as u32;
    assert((set | (1u32 << x)) | (1u32 << y) == (set | (1u32 << y)) | (1u32 << x)) by (bit_vector);
    assert((set & !(1u32 << x)) & !(1u32 << y) == (set & !(1u32 << y)) & !(1u32 << x))
        by (bit_vector);
}

/// No signal is a member of the empty set.
pub proof fn law_empty_has_no_member(signo: int)
    requires
        !spec_sigbad(signo),
    ensures
        !has_signal(0, signo),
{
    lemma_zero_no_bit((signo - 1) as u32);
}

} // verus!
