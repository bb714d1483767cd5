//! A hash table of reference-counted objects, keyed by identifier: each
//! object sits in the bucket that its identifier hashes to. Allocation
//! appends a new object to its bucket and hands it out, lookup takes a
//! reference to the first object with the identifier, and dropping the
//! last reference takes the object out of its bucket. The table and the
//! objects are changed through `&mut`, which gives each call exclusive
//! access.

use vstd::prelude::*;
use crate::refcount::Foo;

verus! {

/// Number of buckets.
pub const NHASH: i64 = 29;

/// The bucket of identifier `id`.
pub open spec fn spec_hash(id: int) -> int {
    id % (NHASH as int)
}

/// Whether `id` has a bucket: the remainder of `id` by [`NHASH`], taken
/// towards zero, is not negative.
pub open spec fn hashable(id: int) -> bool {
    id >= 0 || id % (NHASH as int) == 0
}

/// Every identifier has one of the [`NHASH`] buckets; identifiers that
/// differ by [`NHASH`] share a bucket, and an identifier below [`NHASH`]
/// has the bucket of its own number.
pub proof fn law_bucket_of_id(id: int)
    ensures
        0 <= spec_hash(id) < NHASH,
        spec_hash(id + NHASH) == spec_hash(id),
        0 <= id < NHASH ==> spec_hash(id) == id,
{
    assert((id + 29) % 29 == id % 29) by (nonlinear_arith);
}

/// The bucket of identifier `id`.
pub fn hash(id: i64) -> (h: usize)
    requires
        hashable(id as int),
    ensures
        h == spec_hash(id as int),
        h < NHASH,
{
    if id >= 0 {
        (id % NHASH) as usize
    } else {
        0
    }
}

/// The objects of `s` whose identifier is not `id`, in their order.
pub open spec fn without_id(s: Seq<Foo>, id: i64) -> Seq<Foo>
    decreases s.len(),
{
    if s.len() == 0 {
        s
    } else {
        let rest = without_id(s.drop_last(), id);
        if s.last().f_id != id {
            rest.push(s.last())
        } else {
            rest
        }
    }
}

/// Taking the objects with identifier `id` out of a bucket keeps every
/// object with another identifier, in its order, and nothing else: it is
/// the bucket filtered by "identifier differs from `id`".
pub proof fn law_without_id_keeps_the_others(s: Seq<Foo>, id: i64)
    ensures
        without_id(s, id) == s.filter(|f: Foo| f.f_id != id),
        forall|j: int| 0 <= j < s.len() && s[j].f_id != id ==> without_id(s, id).contains(s[j]),
        forall|j: int| 0 <= j < without_id(s, id).len() ==> without_id(s, id)[j].f_id != id,
        without_id(s, id).len() <= s.len(),
        (forall|j: int| 0 <= j < s.len() ==> s[j].f_id != id) ==> without_id(s, id) == s,
    decreases s.len(),
{
    reveal(Seq::filter);
    let pred = |f: Foo| f.f_id != id;
    if s.len() > 0 {
        law_without_id_keeps_the_others(s.drop_last(), id);
    }
    assert(without_id(s, id) == s.filter(pred));
    s.filter_lemma(pred);
    if forall|j: int| 0 <= j < s.len() ==> s[j].f_id != id {
        if s.len() > 0 {
            assert(s.drop_last().push(s.last()) =~= s);
        }
    }
}

/// Keeps the objects of `ll` whose identifier is not `id`.
pub(crate) fn filter_out(ll: &Vec<Foo>, id: i64) -> (r: Vec<Foo>)
    ensures
        r@ == without_id(ll@, id),
{
    let mut r: Vec<Foo> = Vec::new();
    let mut i: usize = 0;
    while i < ll.len()
        invariant
            i <= ll.len(),
            r@ == without_id(ll@.take(i as int), id),
        decreases ll.len() - i,
    {
        proof {
            assert(ll@.take(i + 1).drop_last() =~= ll@.take(i as int));
        }
        if ll[i].f_id != id {
            r.push(ll[i]);
        }
        i = i + 1;
    }
    assert(ll@.take(ll.len() as int) =~= ll@);
    r
}

/// A table of [`NHASH`] empty buckets.
pub(crate) fn empty_buckets() -> (fh: Vec<Vec<Foo>>)
    ensures
        fh@.len() == NHASH,
        forall|i: int| 0 <= i < NHASH ==> (#[trigger] fh@[i])@ == Seq::<Foo>::empty(),
{
    let mut fh: Vec<Vec<Foo>> = Vec::new();
    let mut i: usize = 0;
    while i < NHASH as usize
        invariant
            i <= NHASH,
            fh@.len() == i,
            forall|k: int| 0 <= k < i ==> (#[trigger] fh@[k])@ == Seq::<Foo>::empty(),
        decreases NHASH - i,
    {
        fh.push(Vec::new());
        i = i + 1;
    }
    fh
}

/// Whether `k` is the position of the first object of `s` with identifier `id`.
pub open spec fn is_first_with_id(s: Seq<Foo>, id: i64, k: int) -> bool {
    &&& 0 <= k < s.len()
    &&& s[k].f_id == id
    &&& forall|j: int| 0 <= j < k ==> s[j].f_id != id
}

/// The position of the first object of `s` with identifier `id`.
pub open spec fn first_index(s: Seq<Foo>, id: i64) -> int {
    choose|k: int| is_first_with_id(s, id, k)
}

/// The first position with a given identifier is unique.
pub proof fn lemma_first_index(s: Seq<Foo>, id: i64, k: int)
    requires
        is_first_with_id(s, id, k),
    ensures
        first_index(s, id) == k,
{
    let c = first_index(s, id);
    assert(is_first_with_id(s, id, c));
    if c < k {
        assert(s[c].f_id != id);
    } else if k < c {
        assert(s[k].f_id != id);
    }
}

/// Index of the first object of `s` with identifier `id`, if any.
pub(crate) fn first_with_id(s: &Vec<Foo>, id: i64) -> (r: Option<usize>)
    ensures
        match r {
            Some(k) => k < s@.len() && s@[k as int].f_id == id && forall|j: int|
                0 <= j < k ==> s@[j].f_id != id,
            None => forall|j: int| 0 <= j < s@.len() ==> s@[j].f_id != id,
        },
{
    let mut k: usize = 0;
    while k < s.len()
        invariant
            k <= s@.len(),
            forall|j: int| 0 <= j < k ==> s@[j].f_id != id,
        decreases s.len() - k,
    {
        if s[k].f_id == id {
            return Some(k);
        }
        k = k + 1;
    }
    None
}

/// After an object with identifier `id` is appended to a bucket, a lookup of
/// `id` in that bucket finds an object: the first one with that identifier,
/// which is the new one exactly when no older object had it.
pub proof fn law_alloc_then_find(b: Seq<Foo>, id: i64)
    ensures
        ({
            let grown = b.push(Foo { f_count: 1, f_id: id });
            let k = first_index(grown, id);
            &&& is_first_with_id(grown, id, k)
            &&& (forall|j: int| 0 <= j < b.len() ==> b[j].f_id != id) ==> k == b.len()
        }),
{
    let grown = b.push(Foo { f_count: 1, f_id: id });
    if exists|j: int| 0 <= j < b.len() && b[j].f_id == id {
        let w = choose|j: int| 0 <= j < b.len() && b[j].f_id == id;
        lemma_first_exists(grown, id, w);
    } else {
        assert(is_first_with_id(grown, id, b.len() as int));
        lemma_first_index(grown, id, b.len() as int);
    }
}

/// When some object has identifier `id`, there is a first one.
proof fn lemma_first_exists(s: Seq<Foo>, id: i64, w: int)
    requires
        0 <= w < s.len(),
        s[w].f_id == id,
    ensures
        is_first_with_id(s, id, first_index(s, id)),
    decreases w,
{
    if forall|j: int| 0 <= j < w ==> s[j].f_id != id {
        assert(is_first_with_id(s, id, w));
    } else {
        let v = choose|j: int| 0 <= j < w && s[j].f_id == id;
        lemma_first_exists(s, id, v);
    }
}

/// The hash table.
pub struct Hashmap {
    fh: Vec<Vec<Foo>>,
}

impl Hashmap {
    /// The objects of each bucket.
    pub closed spec fn buckets(&self) -> Seq<Seq<Foo>> {
        Seq::new(self.fh@.len(), |i: int| self.fh@[i]@)
    }

    /// A table of [`NHASH`] empty buckets.
    pub fn new() -> (t: Hashmap)
        ensures
            t.buckets() == Seq::new(NHASH as nat, |i: int| Seq::<Foo>::empty()),
    {
        let t = Hashmap { fh: empty_buckets() };
        assert(t.buckets() =~= Seq::new(NHASH as nat, |i: int| Seq::<Foo>::empty()));
        t
    }

    /// Number of buckets.
    pub fn bucket_count(&self) -> (n: usize)
        ensures
            n == self.buckets().len(),
    {
        self.fh.len()
    }

    /// Appends a new object with identifier `id` and one reference to the
    /// bucket of `id` and hands it out.
    pub fn foo_alloc(&mut self, id: i64) -> (r: Option<&mut Foo>)
        requires
            hashable(id as int),
            old(self).buckets().len() == NHASH,
        ensures
            match r {
                Some(f) => {
                    let h = spec_hash(id as int);
                    &&& *f == (Foo { f_count: 1, f_id: id })
                    &&& final(self).buckets() == old(self).buckets().update(
                        h,
                        old(self).buckets()[h].push(*final(f)),
                    )
                },
                None => false,
            },
    {
        let h = hash(id);
        let foo = Foo { f_count: 1, f_id: id };
        let ghost before = self.fh@[h as int]@;
        assert(before == old(self).buckets()[h as int]);
        self.fh[h].push(foo);
        let last = self.fh[h].len() - 1;
        proof {
            assert(last == before.len());
            assert forall|y: Foo| #[trigger] before.push(foo).update(last as int, y) == before.push(y) by {
                assert(before.push(foo).update(last as int, y) =~= before.push(y));
            }
        }
        let f = &mut self.fh[h][last];
        Some(f)
    }

    /// Adds a reference to an object.
    pub fn foo_hold(foo: &mut Foo)
        requires
            old(foo).f_count < i64::MAX,
        ensures
            *final(foo) == crate::refcount::held(*old(foo)),
            final(foo).f_id == old(foo).f_id,
            final(foo).f_count == old(foo).f_count + 1,
    {
        foo.f_count = foo.f_count + 1;
    }

    /// Finds the first object with identifier `id` in its bucket, adds a
    /// reference to it and hands it out.
    pub fn foo_find(&mut self, id: i64) -> (r: Option<&mut Foo>)
        requires
            hashable(id as int),
            old(self).buckets().len() == NHASH,
            forall|k: int| is_first_with_id(old(self).buckets()[spec_hash(id as int)], id, k)
                ==> #[trigger] old(self).buckets()[spec_hash(id as int)][k].f_count < i64::MAX,
        ensures
            ({
                let h = spec_hash(id as int);
                let b = old(self).buckets()[h];
                let k = first_index(b, id);
                match r {
                    Some(f) => {
                        &&& is_first_with_id(b, id, k)
                        &&& *f == crate::refcount::held(b[k])
                        &&& f.f_id == id
                        &&& f.f_count == b[k].f_count + 1
                        &&& final(self).buckets() == old(self).buckets().update(
                            h,
                            b.update(k, *final(f)),
                        )
                    },
                    None => (forall|j: int| 0 <= j < b.len() ==> b[j].f_id != id)
                        && final(self).buckets() == old(self).buckets(),
                }
            }),
    {
        let h = hash(id);
        let ghost b = self.fh@[h as int]@;
        assert(b == old(self).buckets()[h as int]);
        match first_with_id(&self.fh[h], id) {
            Some(k) => {
                proof {
                    lemma_first_index(b, id, k as int);
                    assert(b[k as int].f_count < i64::MAX);
                }
                let f = &mut self.fh[h][k];
                Hashmap::foo_hold(f);
                Some(f)
            },
            None => None,
        }
    }

    /// Drops a reference to an object. When it was the last one, the
    /// objects with its identifier are taken out of its bucket (the count is
    /// left for the caller, who destroys the object).
    pub fn foo_rele(&mut self, foo: &mut Foo)
        requires
            old(self).buckets().len() == NHASH,
            old(foo).f_count == 1 ==> hashable(old(foo).f_id as int),
            old(foo).f_count != 1 ==> old(foo).f_count > i64::MIN,
        ensures
            old(foo).f_count == 1 ==> {
                let h = spec_hash(old(foo).f_id as int);
                &&& *final(foo) == *old(foo)
                &&& final(self).buckets() == old(self).buckets().update(
                    h,
                    without_id(old(self).buckets()[h], old(foo).f_id),
                )
            },
            final(foo).f_id == old(foo).f_id,
            old(foo).f_count != 1 ==> final(foo).f_count == old(foo).f_count - 1,
            old(foo).f_count != 1 ==> *final(foo) == crate::refcount::released(*old(foo))
                && final(self).buckets() == old(self).buckets(),
    {
        if foo.f_count == 1 {
            let h = hash(foo.f_id);
            let kept = filter_out(&self.fh[h], foo.f_id);
            self.fh.set(h, kept);
            proof {
                assert(self.buckets() =~= old(self).buckets().update(
                    h as int,
                    without_id(old(self).buckets()[h as int], foo.f_id),
                ));
            }
        } else {
            foo.f_count = foo.f_count - 1;
        }
    }
}

} // verus!
