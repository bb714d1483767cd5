//! Any number of timers on top of a single alarm.
//!
//! The pending timers are kept sorted by the seconds they have left, and
//! the single alarm is always armed for the first of them. When a timer is
//! added, the seconds that passed on the alarm are deducted from every
//! pending timer first, so that each timer counts from the moment it was
//! set. When the alarm goes off, its seconds are deducted from every
//! pending timer and all timers that are then due fire.

use vstd::prelude::*;

verus! {

/// One pending timer: the number of the callback to run and the seconds left.
#[derive(Clone, Copy, Debug, PartialEq, Eq, Structural)]
pub struct Timeout {
    pub function: usize,
    pub timeout_s: u32,
}

/// A callback that does nothing.
pub fn dummy() {
}

/// Whether the timeouts of `s` never decrease.
pub open spec fn sorted_by_timeout(s: Seq<Timeout>) -> bool {
    forall|i: int, j: int| 0 <= i < j < s.len() ==> s[i].timeout_s <= s[j].timeout_s
}

/// Inserts `x` into `s` after every entry whose timeout is not greater, so
/// that of two timers due at the same time the one set first runs first.
pub open spec fn insert_by_timeout(x: Timeout, s: Seq<Timeout>) -> Seq<Timeout>
    decreases s.len(),
{
    if s.len() == 0 {
        seq![x]
    } else if x.timeout_s < s[0].timeout_s {
        seq![x] + s
    } else {
        seq![s[0]] + insert_by_timeout(x, s.drop_first())
    }
}

/// Every timeout of `s` lowered by `by`.
pub open spec fn deduct(s: Seq<Timeout>, by: u32) -> Seq<Timeout> {
    Seq::new(
        s.len(),
        |i: int| Timeout { function: s[i].function, timeout_s: (s[i].timeout_s - by) as u32 },
    )
}

/// The seconds that passed on an alarm armed for `armed` seconds that has
/// `remaining` seconds left (none when it reads more than it was armed for).
pub open spec fn elapsed(armed: u32, remaining: u32) -> u32 {
    if remaining <= armed {
        (armed - remaining) as u32
    } else {
        0
    }
}

/// Inserting by timeout places `x` at some position of `s`.
pub proof fn lemma_insert_places(x: Timeout, s: Seq<Timeout>) -> (pos: int)
    ensures
        0 <= pos <= s.len(),
        insert_by_timeout(x, s) == s.insert(pos, x),
    decreases s.len(),
{
    if s.len() == 0 {
        assert(insert_by_timeout(x, s) =~= s.insert(0, x));
        0
    } else if x.timeout_s < s[0].timeout_s {
        assert(insert_by_timeout(x, s) =~= s.insert(0, x));
        0
    } else {
        let p = lemma_insert_places(x, s.drop_first());
        assert(insert_by_timeout(x, s) =~= s.insert(p + 1, x));
        p + 1
    }
}

/// Inserting by timeout at a known position.
proof fn lemma_insert_at(x: Timeout, s: Seq<Timeout>, pos: int)
    requires
        0 <= pos <= s.len(),
        forall|k: int| 0 <= k < pos ==> s[k].timeout_s <= x.timeout_s,
        pos < s.len() ==> x.timeout_s < s[pos].timeout_s,
    ensures
        insert_by_timeout(x, s) == s.insert(pos, x),
    decreases pos,
{
    if pos == 0 {
        assert(insert_by_timeout(x, s) =~= s.insert(0, x));
    } else {
        let t = s.drop_first();
        lemma_insert_at(x, t, pos - 1);
        assert(insert_by_timeout(x, s) =~= s.insert(pos, x));
    }
}

/// Inserting by timeout into a sorted sequence keeps it sorted and adds
/// exactly the inserted entry.
pub proof fn lemma_insert_sorted(x: Timeout, s: Seq<Timeout>)
    requires
        sorted_by_timeout(s),
    ensures
        sorted_by_timeout(insert_by_timeout(x, s)),
        insert_by_timeout(x, s).to_multiset() == s.to_multiset().insert(x),
        insert_by_timeout(x, s).len() == s.len() + 1,
    decreases s.len(),
{
    broadcast use vstd::seq_lib::group_to_multiset_ensures;

    let pos = lemma_insert_places(x, s);
    if s.len() == 0 {
    } else if x.timeout_s < s[0].timeout_s {
        let r = seq![x] + s;
        assert forall|i: int, j: int| 0 <= i < j < r.len() implies r[i].timeout_s
            <= r[j].timeout_s by {
            if i == 0 {
                assert(r[j] == s[j - 1]);
            } else {
                assert(r[i] == s[i - 1] && r[j] == s[j - 1]);
            }
        }
    } else {
        let t = s.drop_first();
        lemma_insert_sorted(x, t);
        let ins = insert_by_timeout(x, t);
        let p = lemma_insert_places(x, t);
        let r = seq![s[0]] + ins;
        assert forall|k: int| 0 <= k < ins.len() implies s[0].timeout_s
            <= #[trigger] ins[k].timeout_s by {
            if k < p {
                assert(ins[k] == t[k]);
            } else if k == p {
                assert(ins[k] == x);
            } else {
                assert(ins[k] == t[k - 1]);
            }
        }
        assert forall|i: int, j: int| 0 <= i < j < r.len() implies r[i].timeout_s
            <= r[j].timeout_s by {
            if i == 0 {
                assert(r[j] == ins[j - 1]);
            } else {
                assert(r[i] == ins[i - 1] && r[j] == ins[j - 1]);
            }
        }
    }
}

/// Deducting the same seconds from every entry keeps the order.
pub proof fn lemma_deduct_sorted(s: Seq<Timeout>, by: u32)
    requires
        sorted_by_timeout(s),
        forall|i: int| 0 <= i < s.len() ==> by <= #[trigger] s[i].timeout_s,
    ensures
        sorted_by_timeout(deduct(s, by)),
{
    let d = deduct(s, by);
    assert forall|i: int, j: int| 0 <= i < j < d.len() implies d[i].timeout_s
        <= d[j].timeout_s by {
        assert(by <= s[i].timeout_s && by <= s[j].timeout_s);
    }
}

/// Adding a timer when the alarm, armed for `armed` seconds, has
/// `remaining` left deducts exactly the `armed - remaining` seconds that
/// passed from every pending timer (nothing when the alarm reads more than
/// it was armed for), and adds the new timer: one entry more than before.
pub proof fn law_set_deducts_the_seconds_that_passed(
    s: Seq<Timeout>,
    armed: u32,
    remaining: u32,
    x: Timeout,
)
    ensures
        remaining <= armed ==> elapsed(armed, remaining) == armed - remaining,
        remaining > armed ==> elapsed(armed, remaining) == 0,
        insert_by_timeout(x, deduct(s, elapsed(armed, remaining))).len() == s.len() + 1,
        insert_by_timeout(x, deduct(s, elapsed(armed, remaining))).contains(x),
        remaining <= armed ==> forall|i: int|
            0 <= i < s.len() ==> insert_by_timeout(x, deduct(s, elapsed(armed, remaining))).contains(
                Timeout {
                    function: (#[trigger] s[i]).function,
                    timeout_s: (s[i].timeout_s - (armed - remaining)) as u32,
                },
            ),
        remaining > armed ==> forall|i: int|
            0 <= i < s.len() ==> insert_by_timeout(
                x,
                deduct(s, elapsed(armed, remaining)),
            ).contains(#[trigger] s[i]),
{
    let e = elapsed(armed, remaining);
    let d = deduct(s, e);
    let p = lemma_insert_places(x, d);
    let r = insert_by_timeout(x, d);
    assert(r[p] == x);
    assert forall|i: int| 0 <= i < s.len() implies r.contains(d[i]) by {
        let j = if i < p { i } else { i + 1 };
        assert(r[j] == d[i]);
    }
    if remaining > armed {
        assert forall|i: int| 0 <= i < s.len() implies r.contains(#[trigger] s[i]) by {
            assert(d[i] == s[i]);
        }
    } else {
        assert forall|i: int| 0 <= i < s.len() implies r.contains(
            Timeout {
                function: (#[trigger] s[i]).function,
                timeout_s: (s[i].timeout_s - (armed - remaining)) as u32,
            },
        ) by {
            assert(r.contains(d[i]));
        }
    }
}

/// Adding a timer after `e` seconds have passed keeps every pending timer,
/// each with exactly `e` seconds fewer left (so each still falls due at the
/// moment it was set for), and adds the new one.
pub proof fn law_set_keeps_every_deadline(s: Seq<Timeout>, e: u32, x: Timeout)
    requires
        sorted_by_timeout(s),
        forall|i: int| 0 <= i < s.len() ==> e <= #[trigger] s[i].timeout_s,
    ensures
        insert_by_timeout(x, deduct(s, e)).contains(x),
        forall|i: int|
            0 <= i < s.len() ==> insert_by_timeout(x, deduct(s, e)).contains(
                Timeout { function: s[i].function, timeout_s: (s[i].timeout_s - e) as u32 },
            ),
{
    let d = deduct(s, e);
    let p = lemma_insert_places(x, d);
    let r = insert_by_timeout(x, d);
    assert(r[p] == x);
    assert forall|i: int| 0 <= i < s.len() implies r.contains(
        Timeout { function: s[i].function, timeout_s: (s[i].timeout_s - e) as u32 },
    ) by {
        let j = if i < p { i } else { i + 1 };
        assert(r[j] == d[i]);
    }
}

/// The number of timers at the front of `s` that are due (no seconds left).
pub open spec fn due_count(s: Seq<Timeout>) -> nat
    decreases s.len(),
{
    if s.len() > 0 && s[0].timeout_s == 0 {
        1 + due_count(s.drop_first())
    } else {
        0
    }
}

/// The due timers at the front of `s` are exactly the first `n`.
pub proof fn lemma_due_count(s: Seq<Timeout>)
    ensures
        due_count(s) <= s.len(),
        forall|i: int| 0 <= i < due_count(s) ==> #[trigger] s[i].timeout_s == 0,
        due_count(s) < s.len() ==> s[due_count(s) as int].timeout_s != 0,
    decreases s.len(),
{
    if s.len() > 0 && s[0].timeout_s == 0 {
        let t = s.drop_first();
        lemma_due_count(t);
        assert forall|i: int| 0 <= i < due_count(s) implies #[trigger] s[i].timeout_s == 0 by {
            if i > 0 {
                assert(s[i] == t[i - 1]);
            }
        }
        if due_count(s) < s.len() {
            assert(s[due_count(s) as int] == t[due_count(t) as int]);
        }
    }
}

/// When the first `n` timers of `s` are due and the next one is not, `n`
/// is the number of due timers at the front.
pub proof fn lemma_due_count_is(s: Seq<Timeout>, n: int)
    requires
        0 <= n <= s.len(),
        forall|i: int| 0 <= i < n ==> #[trigger] s[i].timeout_s == 0,
        n < s.len() ==> s[n].timeout_s != 0,
    ensures
        due_count(s) == n,
    decreases n,
{
    if n > 0 {
        let t = s.drop_first();
        assert forall|i: int| 0 <= i < n - 1 implies #[trigger] t[i].timeout_s == 0 by {
            assert(t[i] == s[i + 1]);
        }
        if n - 1 < t.len() {
            assert(t[n - 1] == s[n]);
        }
        lemma_due_count_is(t, n - 1);
    }
}

/// A callback together with the second, counted from now, at which it runs.
pub open spec fn firing_of(t: Timeout) -> (usize, int) {
    (t.function, t.timeout_s as int)
}

/// Each timer of `s` with the second, counted from now, at which it is due.
pub open spec fn schedule(s: Seq<Timeout>) -> Seq<(usize, int)> {
    s.map_values(|t: Timeout| firing_of(t))
}

/// What handling the alarm again and again does to the pending timers `s`,
/// each time arming it for the first of them: the callbacks run, in order,
/// each with the second (counted from now) at which it runs.
pub open spec fn firings(s: Seq<Timeout>) -> Seq<(usize, int)>
    decreases s.len(),
{
    if s.len() == 0 {
        Seq::empty()
    } else {
        let a = s[0].timeout_s;
        let d = deduct(s, a);
        let n = due_count(d);
        proof {
            lemma_due_count(d);
            assert(d[0].timeout_s == 0);
        }
        Seq::new(n, |i: int| (d[i].function, a as int)) + firings(d.skip(n as int)).map_values(
            |f: (usize, int)| (f.0, f.1 + a),
        )
    }
}

/// Every pending timer fires exactly once, at the second it is due, and the
/// timers fire in the order in which they are pending.
pub proof fn law_every_timer_fires_once(s: Seq<Timeout>)
    requires
        sorted_by_timeout(s),
    ensures
        firings(s) == schedule(s),
    decreases s.len(),
{
    if s.len() > 0 {
        let a = s[0].timeout_s;
        let d = deduct(s, a);
        lemma_due_count(d);
        let n = due_count(d) as int;
        assert(d[0].timeout_s == 0);
        assert forall|i: int| 0 <= i < s.len() implies a <= #[trigger] s[i].timeout_s by {
            if i > 0 {
                assert(s[0].timeout_s <= s[i].timeout_s);
            }
        }
        lemma_deduct_sorted(s, a);
        let rest = d.skip(n);
        assert(sorted_by_timeout(rest)) by {
            assert forall|i: int, j: int| 0 <= i < j < rest.len() implies rest[i].timeout_s
                <= rest[j].timeout_s by {
                assert(rest[i] == d[i + n] && rest[j] == d[j + n]);
            }
        }
        law_every_timer_fires_once(rest);
        let front = Seq::new(n as nat, |i: int| (d[i].function, a as int));
        let back = firings(rest).map_values(|f: (usize, int)| (f.0, f.1 + a));
        let want = schedule(s);
        assert(firings(s) == front + back);
        assert forall|i: int| 0 <= i < want.len() implies #[trigger] (front + back)[i]
            == want[i] by {
            assert(a <= s[i].timeout_s);
            if i < n {
                assert(d[i].timeout_s == 0);
            } else {
                assert(rest[i - n] == d[i]);
            }
        }
        assert(front + back =~= want);
    }
}

/// Adding a timer after `e` seconds have passed on the alarm, and then
/// handling the alarm until nothing is pending, runs every timer that was
/// pending exactly once, at its own deadline (`e` seconds nearer than it
/// was), and the new timer exactly once, `timeout_s` seconds from now.
pub proof fn law_set_then_every_timer_fires_once(s: Seq<Timeout>, e: u32, x: Timeout)
    requires
        sorted_by_timeout(s),
        forall|i: int| 0 <= i < s.len() ==> e <= #[trigger] s[i].timeout_s,
    ensures
        exists|pos: int|
            0 <= pos <= s.len() && firings(insert_by_timeout(x, deduct(s, e)))
                == #[trigger] schedule(deduct(s, e)).insert(
                pos,
                firing_of(x),
            ),
{
    let d = deduct(s, e);
    lemma_deduct_sorted(s, e);
    lemma_insert_sorted(x, d);
    let pos = lemma_insert_places(x, d);
    law_every_timer_fires_once(insert_by_timeout(x, d));
    assert(schedule(d.insert(pos, x)) =~= schedule(d).insert(pos, firing_of(x)));
    assert(firings(insert_by_timeout(x, d)) == schedule(d).insert(pos, firing_of(x)));
}

/// Places `x` in the sorted vector `s`.
fn insert_sorted(s: &mut Vec<Timeout>, x: Timeout)
    ensures
        final(s)@ == insert_by_timeout(x, old(s)@),
{
    let mut pos: usize = 0;
    while pos < s.len() && s[pos].timeout_s <= x.timeout_s
        invariant
            pos <= s.len(),
            forall|k: int| 0 <= k < pos ==> s@[k].timeout_s <= x.timeout_s,
        decreases s.len() - pos,
    {
        pos = pos + 1;
    }
    proof {
        lemma_insert_at(x, s@, pos as int);
    }
    s.insert(pos, x);
}

/// Returns `v` with `by` seconds deducted from every entry.
fn deducted(v: &Vec<Timeout>, by: u32) -> (r: Vec<Timeout>)
    requires
        forall|i: int| 0 <= i < v@.len() ==> by <= #[trigger] v@[i].timeout_s,
    ensures
        r@ == deduct(v@, by),
{
    let mut r: Vec<Timeout> = Vec::new();
    let mut i: usize = 0;
    while i < v.len()
        invariant
            i <= v@.len(),
            forall|k: int| 0 <= k < v@.len() ==> by <= #[trigger] v@[k].timeout_s,
            r@ =~= deduct(v@, by).take(i as int),
        decreases v@.len() - i,
    {
        let e = v[i];
        r.push(Timeout { function: e.function, timeout_s: e.timeout_s - by });
        i = i + 1;
    }
    assert(deduct(v@, by).take(v@.len() as int) =~= deduct(v@, by));
    r
}

/// What the alarm handler asks of its caller: run the callbacks `fired`,
/// in this order, and arm the alarm for `alarm_s` seconds (none when 0).
#[derive(Debug)]
pub struct AlarmAction {
    pub alarm_s: u32,
    pub fired: Vec<usize>,
}

/// The pending timers and the seconds the alarm was last armed for.
pub struct Timers {
    pending: Vec<Timeout>,
    armed_s: u32,
}

impl Timers {
    /// The pending timers, soonest first.
    pub closed spec fn pending(&self) -> Seq<Timeout> {
        self.pending@
    }

    /// The seconds the alarm was last armed for; 0 when nothing is pending.
    pub closed spec fn armed(&self) -> u32 {
        self.armed_s
    }

    /// The pending timers are sorted and the alarm is armed for the first
    /// of them, or for nothing when none is pending.
    pub open spec fn wf(&self) -> bool {
        &&& sorted_by_timeout(self.pending())
        &&& self.pending().len() > 0 ==> self.armed() == self.pending()[0].timeout_s
        &&& self.pending().len() == 0 ==> self.armed() == 0
    }

    /// No timer pending and no alarm armed.
    pub fn new() -> (t: Timers)
        ensures
            t.wf(),
            t.pending() == Seq::<Timeout>::empty(),
            t.armed() == 0,
    {
        Timers { pending: Vec::new(), armed_s: 0 }
    }

    /// The seconds the alarm was last armed for.
    pub fn armed_s(&self) -> (r: u32)
        ensures
            r == self.armed(),
    {
        self.armed_s
    }

    /// A copy of the pending timers, soonest first.
    pub fn timeouts(&self) -> (r: Vec<Timeout>)
        ensures
            r@ == self.pending(),
    {
        let mut r: Vec<Timeout> = Vec::new();
        let mut i: usize = 0;
        while i < self.pending.len()
            invariant
                i <= self.pending@.len(),
                r@ =~= self.pending@.take(i as int),
            decreases self.pending@.len() - i,
        {
            r.push(self.pending[i]);
            i = i + 1;
        }
        assert(self.pending@.take(self.pending@.len() as int) =~= self.pending@);
        r
    }

    /// Registers `function` to run in `timeout_s` seconds. `remaining_s` is
    /// what the alarm had left when it was read (and cancelled); the seconds
    /// that passed since it was armed are deducted from every pending timer
    /// first. Returns the seconds to arm the alarm for: those of the first
    /// pending timer.
    pub fn set_timeout(&mut self, function: usize, timeout_s: u32, remaining_s: u32) -> (alarm_s: u32)
        requires
            old(self).wf(),
        ensures
            final(self).wf(),
            final(self).pending() == insert_by_timeout(
                Timeout { function, timeout_s },
                deduct(old(self).pending(), elapsed(old(self).armed(), remaining_s)),
            ),
            final(self).pending().to_multiset() == deduct(
                old(self).pending(),
                elapsed(old(self).armed(), remaining_s),
            ).to_multiset().insert(Timeout { function, timeout_s }),
            alarm_s == final(self).armed(),
            alarm_s == final(self).pending()[0].timeout_s,
    {
        let e: u32 = if remaining_s <= self.armed_s {
            self.armed_s - remaining_s
        } else {
            0
        };
        proof {
            assert forall|i: int| 0 <= i < self.pending@.len() implies e
                <= #[trigger] self.pending@[i].timeout_s by {
                if i > 0 {
                    assert(self.pending@[0].timeout_s <= self.pending@[i].timeout_s);
                }
            }
            lemma_deduct_sorted(self.pending@, e);
        }
        let mut next = deducted(&self.pending, e);
        proof {
            lemma_insert_sorted(Timeout { function, timeout_s }, next@);
        }
        insert_sorted(&mut next, Timeout { function, timeout_s });
        self.pending = next;
        self.armed_s = self.pending[0].timeout_s;
        self.armed_s
    }

    /// Handles the expiry of the alarm: the armed seconds are deducted from
    /// every pending timer, every timer that is then due is taken out and
    /// fired, soonest first, and the alarm is to be armed for the first timer
    /// left. Handled again and again, the alarm runs the timers as
    /// [`firings`] describes: each exactly once, when it is due.
    pub fn sig_alrm(&mut self) -> (action: AlarmAction)
        requires
            old(self).wf(),
        ensures
            final(self).wf(),
            ({
                let d = deduct(old(self).pending(), old(self).armed());
                let n = action.fired@.len() as int;
                &&& n == due_count(d)
                &&& n <= d.len()
                &&& forall|i: int| 0 <= i < n ==> d[i].timeout_s == 0 && #[trigger] action.fired@[i]
                    == d[i].function
                &&& n < d.len() ==> d[n].timeout_s > 0
                &&& old(self).pending().len() > 0 ==> n >= 1
                &&& final(self).pending() == d.skip(n)
            }),
            action.alarm_s == final(self).armed(),
    {
        let armed = self.armed_s;
        proof {
            assert forall|i: int| 0 <= i < self.pending@.len() implies armed
                <= #[trigger] self.pending@[i].timeout_s by {
                if i > 0 {
                    assert(self.pending@[0].timeout_s <= self.pending@[i].timeout_s);
                }
            }
            lemma_deduct_sorted(self.pending@, armed);
        }
        let d = deducted(&self.pending, armed);
        let mut fired: Vec<usize> = Vec::new();
        let mut n: usize = 0;
        while n < d.len() && d[n].timeout_s == 0
            invariant
                n <= d@.len(),
                fired@.len() == n,
                forall|i: int| 0 <= i < n ==> (#[trigger] d@[i]).timeout_s == 0,
                forall|i: int| 0 <= i < n ==> #[trigger] fired@[i] == d@[i].function,
            decreases d@.len() - n,
        {
            let ghost before = fired@;
            fired.push(d[n].function);
            proof {
                assert forall|i: int| 0 <= i < n + 1 implies #[trigger] fired@[i]
                    == d@[i].function by {
                    if i < n {
                        assert(fired@[i] == before[i]);
                    }
                }
            }
            n = n + 1;
        }
        proof {
            if self.pending@.len() > 0 {
                assert(d@[0].timeout_s == 0);
            }
            lemma_due_count_is(d@, n as int);
        }
        let mut rest: Vec<Timeout> = Vec::new();
        let mut k: usize = n;
        while k < d.len()
            invariant
                n <= k <= d@.len(),
                rest@ =~= d@.subrange(n as int, k as int),
            decreases d@.len() - k,
        {
            rest.push(d[k]);
            k = k + 1;
        }
        proof {
            assert(rest@ =~= d@.skip(n as int));
            assert forall|i: int, j: int| 0 <= i < j < rest@.len() implies rest@[i].timeout_s
                <= rest@[j].timeout_s by {
                assert(rest@[i] == d@[i + n] && rest@[j] == d@[j + n]);
            }
        }
        self.pending = rest;
        self.armed_s = if self.pending.len() > 0 {
            self.pending[0].timeout_s
        } else {
            0
        };
        AlarmAction { alarm_s: self.armed_s, fired }
    }
}

} // verus!
