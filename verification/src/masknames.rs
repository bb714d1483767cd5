//! Naming the signals of a signal mask, one bit at a time.
//!
//! Bit `k - 1` of the mask stands for signal `k`; the loop visits the bits
//! from the lowest up and stops as soon as no higher bit is set.

use vstd::prelude::*;

verus! {

/// The name given to signal `signo` by `names`: the last entry for that
/// number wins, as when the entries are inserted into a map one by one.
pub open spec fn name_of(names: Seq<(i32, &str)>, signo: int) -> Option<&str>
    decreases names.len(),
{
    if names.len() == 0 {
        None
    } else if names.last().0 == signo {
        Some(names.last().1)
    } else {
        name_of(names.drop_last(), signo)
    }
}

/// A signal has a name exactly when some entry is for it, and then its name
/// is that of the last entry for it.
pub proof fn law_last_entry_names(names: Seq<(i32, &str)>, signo: int)
    ensures
        name_of(names, signo) is None <==> forall|i: int|
            0 <= i < names.len() ==> (#[trigger] names[i]).0 != signo,
        name_of(names, signo) is Some ==> exists|i: int|
            0 <= i < names.len() && (#[trigger] names[i]).0 == signo && names[i].1 == name_of(
                names,
                signo,
            ).unwrap() && forall|j: int| i < j < names.len() ==> names[j].0 != signo,
    decreases names.len(),
{
    if names.len() > 0 {
        let t = names.drop_last();
        law_last_entry_names(t, signo);
        let l = names.len() - 1;
        if names.last().0 == signo {
            assert(names[l] == names.last());
        } else {
            assert forall|i: int| 0 <= i < t.len() implies names[i] == t[i] by {}
            if name_of(t, signo) is Some {
                let i = choose|i: int|
                    0 <= i < t.len() && (#[trigger] t[i]).0 == signo && t[i].1 == name_of(
                        t,
                        signo,
                    ).unwrap() && forall|j: int| i < j < t.len() ==> t[j].0 != signo;
                assert(names[i] == t[i]);
                assert forall|j: int| i < j < names.len() implies names[j].0 != signo by {
                    if j < t.len() {
                        assert(names[j] == t[j]);
                    }
                }
            } else {
                assert forall|i: int| 0 <= i < names.len() implies (#[trigger] names[i]).0
                    != signo by {
                    if i < t.len() {
                        assert(names[i] == t[i]);
                    }
                }
            }
        }
    }
}

/// Whether bit `b` of `mask` is set.
pub open spec fn bit_set(mask: u32, b: int) -> bool {
    0 <= b < 32 && (mask >> (b as u32)) & 1 == 1
}

/// The names of the signals `signo .. 32` whose bits are set in `mask` and
/// that have a name, in increasing order.
pub open spec fn mask_names_from(mask: u32, names: Seq<(i32, &str)>, signo: int) -> Seq<&str>
    decreases 33 - signo,
{
    if signo > 32 || signo < 1 {
        Seq::empty()
    } else {
        let rest = mask_names_from(mask, names, signo + 1);
        if bit_set(mask, signo - 1) && name_of(names, signo) is Some {
            seq![name_of(names, signo).unwrap()] + rest
        } else {
            rest
        }
    }
}

/// The names of a mask's signals from signal `k` on are the name of `k`,
/// when its bit is set and it has a name, followed by the names from
/// `k + 1` on; past signal 32 there are none. So every named member gives
/// its name, in increasing order, whatever unnamed members lie below it.
pub proof fn law_mask_names_step(mask: u32, names: Seq<(i32, &str)>, k: int)
    requires
        1 <= k <= 32,
    ensures
        mask_names_from(mask, names, k) == (if bit_set(mask, k - 1) && name_of(names, k) is Some {
            seq![name_of(names, k).unwrap()]
        } else {
            Seq::<&str>::empty()
        }) + mask_names_from(mask, names, k + 1),
        mask_names_from(mask, names, 33) == Seq::<&str>::empty(),
{
    let rest = mask_names_from(mask, names, k + 1);
    assert(Seq::<&str>::empty() + rest =~= rest);
}

/// Every signal from `k` to 32 whose bit is set and that has a name gives
/// that name to the names of the mask from `k` on.
pub proof fn law_named_member_is_listed(mask: u32, names: Seq<(i32, &str)>, k: int, m: int)
    requires
        1 <= k <= m <= 32,
        bit_set(mask, m - 1),
        name_of(names, m) is Some,
    ensures
        mask_names_from(mask, names, k).contains(name_of(names, m).unwrap()),
    decreases m - k,
{
    let rest = mask_names_from(mask, names, k + 1);
    if k == m {
        let r = mask_names_from(mask, names, k);
        assert(r[0] == name_of(names, m).unwrap());
    } else {
        law_named_member_is_listed(mask, names, k + 1, m);
        let w = choose|i: int| 0 <= i < rest.len() && rest[i] == name_of(names, m).unwrap();
        let r = mask_names_from(mask, names, k);
        if bit_set(mask, k - 1) && name_of(names, k) is Some {
            assert(r[w + 1] == rest[w]);
        } else {
            assert(r[w] == rest[w]);
        }
    }
}

/// Looks up the name of `signo`.
fn lookup<'a>(names: &Vec<(i32, &'a str)>, signo: i32) -> (r: Option<&'a str>)
    ensures
        r == name_of(names@, signo as int),
{
    let mut i: usize = names.len();
    assert(names@.take(i as int) =~= names@);
    while i > 0
        invariant
            i <= names.len(),
            name_of(names@, signo as int) == name_of(names@.take(i as int), signo as int),
        decreases i,
    {
        let entry = names[i - 1];
        proof {
            let t = names@.take(i as int);
            assert(t.drop_last() =~= names@.take(i - 1));
            assert(t.last() == entry);
        }
        if entry.0 == signo {
            return Some(entry.1);
        }
        i = i - 1;
    }
    None
}

proof fn lemma_shift_step(x: u32, s: u32)
    requires
        s < 32,
    ensures
        (x >> s) >> 1u32 == x >> ((s + 1) as u32),
{
    assert((x >> s) >> 1u32 == x >> ((s + 1) as u32)) by (bit_vector)
        requires s < 32u32;
}

proof fn lemma_high_bits_clear(x: u32, s: u32, t: u32)
    requires
        s <= t < 32,
        x >> s == 0,
    ensures
        (x >> t) & 1 == 0,
{
    assert((x >> s == 0u32 && s <= t && t < 32u32) ==> (x >> t) & 1u32 == 0u32) by (bit_vector);
}

proof fn lemma_no_more_names(mask: u32, names: Seq<(i32, &str)>, signo: int)
    requires
        1 <= signo <= 32,
        mask >> ((signo - 1) as u32) == 0,
    ensures
        mask_names_from(mask, names, signo) == Seq::<&str>::empty(),
    decreases 33 - signo,
{
    lemma_high_bits_clear(mask, (signo - 1) as u32, (signo - 1) as u32);
    if signo < 32 {
        lemma_high_bits_clear(mask, (signo - 1) as u32, signo as u32);
        assert(mask >> (signo as u32) == 0) by {
            let s = (signo - 1) as u32;
            assert((mask >> s == 0u32 && s < 31u32) ==> mask >> ((s + 1) as u32) == 0u32)
                by (bit_vector);
        }
        lemma_no_more_names(mask, names, signo + 1);
    } else {
        assert(mask_names_from(mask, names, signo + 1) == Seq::<&str>::empty());
    }
}

/// The names of the signals in `sigcur`, lowest signal first; signals
/// without a name in `names` are skipped.
pub fn pr_mask<'a>(sigcur: u32, names: &Vec<(i32, &'a str)>) -> (r: Vec<&'a str>)
    ensures
        r@ == mask_names_from(sigcur, names@, 1),
{
    let mut cur: u32 = sigcur;
    let mut shift: i32 = 1;
    let mut out: Vec<&'a str> = Vec::new();
    assert(sigcur >> 0u32 == sigcur) by (bit_vector);
    while cur != 0
        invariant
            1 <= shift <= 33,
            shift <= 32 ==> cur == sigcur >> ((shift - 1) as u32),
            shift == 33 ==> cur == 0,
            out@ + mask_names_from(sigcur, names@, shift as int) == mask_names_from(sigcur, names@, 1),
        decreases 33 - shift,
    {
        let ghost s = (shift - 1) as u32;
        let ghost before = out@;
        if cur & 1 == 1 {
            if let Some(signame) = lookup(names, shift) {
                out.push(signame);
            }
        }
        proof {
            assert(bit_set(sigcur, shift - 1) == (cur & 1 == 1));
            let rest = mask_names_from(sigcur, names@, shift + 1);
            if bit_set(sigcur, shift - 1) && name_of(names@, shift as int) is Some {
                assert(out@ + rest =~= before + mask_names_from(sigcur, names@, shift as int));
            } else {
                assert(out@ + rest =~= before + mask_names_from(sigcur, names@, shift as int));
            }
        }
        cur = cur >> 1;
        proof {
            if shift < 32 {
                lemma_shift_step(sigcur, s);
            } else {
                assert(cur == 0) by {
                    let c = sigcur >> 31u32;
                    assert((c >> 31u32) >> 1u32 == 0u32) by (bit_vector);
                    assert((sigcur >> 31u32) >> 1u32 == 0u32) by (bit_vector);
                }
            }
        }
        shift = shift + 1;
    }
    proof {
        if shift <= 32 {
            lemma_no_more_names(sigcur, names@, shift as int);
        }
        assert(out@ + Seq::<&str>::empty() =~= out@);
    }
    out
}

} // verus!
