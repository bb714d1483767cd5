//! A hash table of reference-counted objects whose counts are kept through
//! the table itself: taking a reference goes through the table, and a
//! release first drops the reference and then, when none is left, takes
//! the object out of its bucket. Allocation appends a new object to its
//! bucket and hands it out, and lookup takes a reference to the first
//! object with the identifier.

use vstd::prelude::*;
use crate::refcount::Foo;
use crate::foo_table::{NHASH, hash, filter_out, empty_buckets, first_with_id};

verus! {

/// The hash table.
pub struct Hashmap {
    fh: Vec<Vec<Foo>>,
}

impl Hashmap {
    /// The objects of each bucket.
    pub closed spec fn buckets(&self) -> Seq<Seq<Foo>> {
        Seq::new(self.fh@.len(), |i: int| self.fh@[i]@)
    }

    /// A table of [`NHASH`] empty buckets.
    pub fn new() -> (t: Hashmap)
        ensures
            t.buckets() == Seq::new(NHASH as nat, |i: int| Seq::<Foo>::empty()),
    {
        let t = Hashmap { fh: empty_buckets() };
        assert(t.buckets() =~= Seq::new(NHASH as nat, |i: int| Seq::<Foo>::empty()));
        t
    }

    /// Number of buckets.
    pub fn bucket_count(&self) -> (n: usize)
        ensures
            n == self.buckets().len(),
    {
        self.fh.len()
    }

    /// Appends a new object with identifier `id` and one reference to the
    /// bucket of `id` and hands it out.
    pub fn foo_alloc(&mut self, id: i64) -> (r: Option<&mut Foo>)
        requires
            crate::foo_table::hashable(id as int),
            old(self).buckets().len() == NHASH,
        ensures
            match r {
                Some(f) => {
                    let h = crate::foo_table::spec_hash(id as int);
                    &&& *f == (Foo { f_count: 1, f_id: id })
                    &&& final(self).buckets() == old(self).buckets().update(
                        h,
                        old(self).buckets()[h].push(*final(f)),
                    )
                },
                None => false,
            },
    {
        let h = hash(id);
        let foo = Foo { f_count: 1, f_id: id };
        let ghost before = self.fh@[h as int]@;
        assert(before == old(self).buckets()[h as int]);
        self.fh[h].push(foo);
        let last = self.fh[h].len() - 1;
        proof {
            assert(last == before.len());
            assert forall|y: Foo| #[trigger] before.push(foo).update(last as int, y) == before.push(y) by {
                assert(before.push(foo).update(last as int, y) =~= before.push(y));
            }
        }
        let f = &mut self.fh[h][last];
        Some(f)
    }

    /// Adds a reference to an object.
    pub fn foo_hold(&mut self, foo: &mut Foo)
        requires
            old(foo).f_count < i64::MAX,
        ensures
            *final(foo) == crate::refcount::held(*old(foo)),
            final(foo).f_id == old(foo).f_id,
            final(foo).f_count == old(foo).f_count + 1,
            final(self).buckets() == old(self).buckets(),
    {
        foo.f_count = foo.f_count + 1;
    }

    /// Finds the first object with identifier `id` in its bucket, adds a
    /// reference to it and hands it out.
    pub fn foo_find(&mut self, id: i64) -> (r: Option<&mut Foo>)
        requires
            crate::foo_table::hashable(id as int),
            old(self).buckets().len() == NHASH,
            forall|k: int|
                crate::foo_table::is_first_with_id(
                    old(self).buckets()[crate::foo_table::spec_hash(id as int)],
                    id,
                    k,
                ) ==> #[trigger] old(self).buckets()[crate::foo_table::spec_hash(
                    id as int,
                )][k].f_count < i64::MAX,
        ensures
            ({
                let h = crate::foo_table::spec_hash(id as int);
                let b = old(self).buckets()[h];
                let k = crate::foo_table::first_index(b, id);
                match r {
                    Some(f) => {
                        &&& crate::foo_table::is_first_with_id(b, id, k)
                        &&& *f == crate::refcount::held(b[k])
                        &&& f.f_id == id
                        &&& f.f_count == b[k].f_count + 1
                        &&& final(self).buckets() == old(self).buckets().update(
                            h,
                            b.update(k, *final(f)),
                        )
                    },
                    None => (forall|j: int| 0 <= j < b.len() ==> b[j].f_id != id)
                        && final(self).buckets() == old(self).buckets(),
                }
            }),
    {
        let h = hash(id);
        let ghost b = self.fh@[h as int]@;
        assert(b == old(self).buckets()[h as int]);
        match first_with_id(&self.fh[h], id) {
            Some(k) => {
                proof {
                    crate::foo_table::lemma_first_index(b, id, k as int);
                    assert(b[k as int].f_count < i64::MAX);
                }
                let f = &mut self.fh[h][k];
                f.f_count = f.f_count + 1;
                Some(f)
            },
            None => None,
        }
    }

    /// Drops a reference to an object. When none is left, the objects with
    /// its identifier are taken out of its bucket.
    pub fn foo_rele(&mut self, foo: &mut Foo)
        requires
            old(self).buckets().len() == NHASH,
            old(foo).f_count > i64::MIN,
            old(foo).f_count == 1 ==> crate::foo_table::hashable(old(foo).f_id as int),
        ensures
            *final(foo) == crate::refcount::released(*old(foo)),
            final(foo).f_id == old(foo).f_id,
            final(foo).f_count == old(foo).f_count - 1,
            old(foo).f_count == 1 ==> {
                let h = crate::foo_table::spec_hash(old(foo).f_id as int);
                final(self).buckets() == old(self).buckets().update(
                    h,
                    crate::foo_table::without_id(old(self).buckets()[h], old(foo).f_id),
                )
            },
            old(foo).f_count != 1 ==> final(self).buckets() == old(self).buckets(),
    {
        foo.f_count = foo.f_count - 1;
        if foo.f_count == 0 {
            let h = hash(foo.f_id);
            let kept = filter_out(&self.fh[h], foo.f_id);
            self.fh.set(h, kept);
            proof {
                assert(self.buckets() =~= old(self).buckets().update(
                    h as int,
                    crate::foo_table::without_id(old(self).buckets()[h as int], foo.f_id),
                ));
            }
        }
    }
}

} // verus!
