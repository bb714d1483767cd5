//! A reference-counted object: allocating it with one reference, taking
//! and dropping references, and telling when the last one goes.

use vstd::prelude::*;

verus! {

/// An object with a reference count and an identifier.
#[derive(Clone, Copy, Debug, PartialEq, Eq, Structural)]
pub struct Foo {
    pub f_count: i64,
    pub f_id: i64,
}

/// Allocates an object with identifier `id` and one reference, held by the caller.
pub fn foo_alloc(id: i64) -> (r: Option<Foo>)
    ensures
        r == Some(Foo { f_count: 1, f_id: id }),
{
    let fp = Foo { f_count: 1, f_id: id };
    Some(fp)
}

/// The object with one reference more.
pub open spec fn held(fp: Foo) -> Foo {
    Foo { f_count: (fp.f_count + 1) as i64, f_id: fp.f_id }
}

/// The object with one reference less.
pub open spec fn released(fp: Foo) -> Foo {
    Foo { f_count: (fp.f_count - 1) as i64, f_id: fp.f_id }
}

/// Adds a reference to the object.
pub fn foo_hold(fp: &mut Foo)
    requires
        old(fp).f_count < i64::MAX,
    ensures
        *final(fp) == held(*old(fp)),
        final(fp).f_count == old(fp).f_count + 1,
        final(fp).f_id == old(fp).f_id,
{
    fp.f_count = fp.f_count + 1;
}

/// Drops a reference to the object; returns whether it was the last one, in
/// which case the object's lock is to be destroyed.
pub fn foo_rele(fp: &mut Foo) -> (last: bool)
    requires
        old(fp).f_count > i64::MIN,
    ensures
        *final(fp) == released(*old(fp)),
        final(fp).f_count == old(fp).f_count - 1,
        final(fp).f_id == old(fp).f_id,
        last == (old(fp).f_count == 1),
{
    fp.f_count = fp.f_count - 1;
    fp.f_count == 0
}

/// Taking a reference adds exactly one to the count and dropping one takes
/// exactly one away; neither touches the identifier.
pub proof fn law_hold_and_release_keep_identity(fp: Foo)
    ensures
        held(fp).f_id == fp.f_id,
        released(fp).f_id == fp.f_id,
        fp.f_count < i64::MAX ==> held(fp).f_count == fp.f_count + 1,
        fp.f_count > i64::MIN ==> released(fp).f_count == fp.f_count - 1,
{
}

/// Taking a reference and then dropping it leaves the object as it was; when
/// the object had a reference already, that drop is not the last one.
pub proof fn law_hold_then_rele(fp: Foo)
    requires
        fp.f_count < i64::MAX,
    ensures
        released(held(fp)) == fp,
        fp.f_count > 0 ==> held(fp).f_count != 1,
{
}

/// Dropping a reference and then taking one back leaves the object as it was.
pub proof fn law_rele_then_hold(fp: Foo)
    requires
        fp.f_count > i64::MIN,
    ensures
        held(released(fp)) == fp,
{
}

} // verus!
