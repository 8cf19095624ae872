//! Laws of detached copies and snapshots.
use vstd::prelude::*;

use crate::bindings::BindV;
use crate::heap::{
    all_copyable, array_snapshot, detached, detached_fields, detached_within, extends,
    fields_snapshot, law_copies_are_detached, lemma_detached_grows, object_snapshot,
    record_snapshot, snapshot, snapshot_within, values_snapshot, FieldsV, HeapV,
};
use crate::value::ValV;

verus! {

/// A walk from a value ends: it passes through at most `depth` storages, and each is there.
pub open spec fn ends_within(h: HeapV, v: ValV, depth: nat) -> bool
    decreases depth, 1nat, v, 0nat,
{
    match v {
        ValV::Arr(id) => array_ends(h, id, depth),
        ValV::Opt { value, .. } => match value {
            Some(x) => ends_within(h, *x, depth),
            None => true,
        },
        ValV::AffineOptBoolArray(value) => match value {
            Some(id) => array_ends(h, id, depth),
            None => true,
        },
        ValV::AffineOptClass { value, .. } => match value {
            Some(id) => object_ends(h, id, depth),
            None => true,
        },
        ValV::Obj { fields, .. } => object_ends(h, fields, depth),
        ValV::Record { fields, .. } => fields_end(h, fields, fields.len(), depth),
        _ => true,
    }
}

pub open spec fn array_ends(h: HeapV, id: usize, depth: nat) -> bool
    decreases depth, 0nat, ValV::Unit, 0nat,
{
    depth > 0 && match h.array(id) {
        Some(a) => values_end(h, a.values, a.values.len(), (depth - 1) as nat),
        None => false,
    }
}

pub open spec fn object_ends(h: HeapV, id: usize, depth: nat) -> bool
    decreases depth, 0nat, ValV::Unit, 0nat,
{
    depth > 0 && match h.object(id) {
        Some(f) => fields_end(h, f, f.len(), (depth - 1) as nat),
        None => false,
    }
}

pub open spec fn values_end(h: HeapV, s: Seq<ValV>, n: nat, depth: nat) -> bool
    decreases depth, 1nat, s, n,
{
    n == 0 || n > s.len() || (values_end(h, s, (n - 1) as nat, depth) && ends_within(
        h,
        s[n - 1],
        depth,
    ))
}

pub open spec fn fields_end(h: HeapV, s: FieldsV, n: nat, depth: nat) -> bool
    decreases depth, 1nat, s, n,
{
    n == 0 || n > s.len() || (fields_end(h, s, (n - 1) as nat, depth) && ends_within(
        h,
        s[n - 1].value,
        depth,
    ))
}

/// Every storage that a value leads to is there, and the walk to it ends within as many storages
/// as the heap has: none leads back to itself.
pub open spec fn grounded(h: HeapV, v: ValV) -> bool {
    ends_within(h, v, h.depth())
}

/// In a heap that only gained storage, and with more depth, a walk ends where it ended and finds
/// the same.
proof fn lemma_stable(h: HeapV, g: HeapV, v: ValV, d: nat, e: nat)
    requires
        extends(h, g),
        d <= e,
        ends_within(h, v, d),
    ensures
        ends_within(g, v, e),
        snapshot_within(g, v, e) == snapshot_within(h, v, d),
    decreases d, 1nat, v, 0nat,
{
    match v {
        ValV::Arr(id) => lemma_array_stable(h, g, id, d, e),
        ValV::Opt { value, .. } => {
            if let Some(x) = value {
                lemma_stable(h, g, *x, d, e);
            }
        },
        ValV::AffineOptBoolArray(value) => {
            if let Some(id) = value {
                lemma_array_stable(h, g, id, d, e);
            }
        },
        ValV::AffineOptClass { value, .. } => {
            if let Some(id) = value {
                lemma_object_stable(h, g, id, d, e);
            }
        },
        ValV::Obj { fields, .. } => lemma_object_stable(h, g, fields, d, e),
        ValV::Record { fields, .. } => lemma_fields_stable(h, g, fields, fields.len(), d, e),
        _ => {},
    }
}

proof fn lemma_array_stable(h: HeapV, g: HeapV, id: usize, d: nat, e: nat)
    requires
        extends(h, g),
        d <= e,
        array_ends(h, id, d),
    ensures
        array_ends(g, id, e),
        array_snapshot(g, id, e) == array_snapshot(h, id, d),
    decreases d, 0nat, ValV::Unit, 0nat,
{
    let a = h.arrays[id as int];
    assert(g.arrays[id as int] == a);
    lemma_values_stable(h, g, a.values, a.values.len(), (d - 1) as nat, (e - 1) as nat);
}

proof fn lemma_object_stable(h: HeapV, g: HeapV, id: usize, d: nat, e: nat)
    requires
        extends(h, g),
        d <= e,
        object_ends(h, id, d),
    ensures
        object_ends(g, id, e),
        object_snapshot(g, id, e) == object_snapshot(h, id, d),
    decreases d, 0nat, ValV::Unit, 0nat,
{
    let f = h.objects[id as int];
    assert(g.objects[id as int] == f);
    lemma_fields_stable(h, g, f, f.len(), (d - 1) as nat, (e - 1) as nat);
}

proof fn lemma_values_stable(h: HeapV, g: HeapV, s: Seq<ValV>, n: nat, d: nat, e: nat)
    requires
        extends(h, g),
        d <= e,
        n <= s.len(),
        values_end(h, s, n, d),
    ensures
        values_end(g, s, n, e),
        values_snapshot(g, s, n, e) == values_snapshot(h, s, n, d),
    decreases d, 1nat, s, n,
{
    if n > 0 {
        lemma_values_stable(h, g, s, (n - 1) as nat, d, e);
        lemma_stable(h, g, s[n - 1], d, e);
    }
}

proof fn lemma_fields_stable(h: HeapV, g: HeapV, s: FieldsV, n: nat, d: nat, e: nat)
    requires
        extends(h, g),
        d <= e,
        n <= s.len(),
        fields_end(h, s, n, d),
    ensures
        fields_end(g, s, n, e),
        fields_snapshot(g, s, n, e) == fields_snapshot(h, s, n, d),
        record_snapshot(g, s, n, e) == record_snapshot(h, s, n, d),
    decreases d, 1nat, s, n,
{
    if n > 0 {
        lemma_fields_stable(h, g, s, (n - 1) as nat, d, e);
        lemma_stable(h, g, s[n - 1].value, d, e);
    }
}

/// What stands after the first `n` fields plays no part in them.
proof fn lemma_fields_prefix(h: HeapV, s: FieldsV, b: BindV<ValV>, n: nat, d: nat)
    requires
        n <= s.len(),
    ensures
        fields_end(h, s.push(b), n, d) == fields_end(h, s, n, d),
        fields_snapshot(h, s.push(b), n, d) == fields_snapshot(h, s, n, d),
        record_snapshot(h, s.push(b), n, d) == record_snapshot(h, s, n, d),
    decreases n,
{
    if n > 0 {
        assert(s.push(b)[n - 1] == s[n - 1]);
        lemma_fields_prefix(h, s, b, (n - 1) as nat, d);
    }
}

proof fn lemma_extends_twice(a: HeapV, b: HeapV, c: HeapV)
    requires
        extends(a, b),
        extends(b, c),
    ensures
        extends(a, c),
{
    assert forall|i: int| 0 <= i < a.arrays.len() implies #[trigger] c.arrays[i] == a.arrays[i] by {
        assert(b.arrays[i] == a.arrays[i]);
    }
    assert forall|i: int| 0 <= i < a.objects.len() implies #[trigger] c.objects[i]
        == a.objects[i] by {
        assert(b.objects[i] == a.objects[i]);
    }
}

/// A copy within `k` storages extends the heap, and a contract can say the same of it.
proof fn lemma_copy_snapshot(h: HeapV, v: ValV, k: nat, d: nat)
    requires
        ends_within(h, v, d),
        detached_within(h, v, k) matches Some((g, _)) && g.storable(),
    ensures
        ({
            let (g, x) = detached_within(h, v, k)->Some_0;
            &&& extends(h, g)
            &&& ends_within(g, x, d)
            &&& snapshot_within(g, x, d) == snapshot_within(h, v, d)
        }),
    decreases k, 1nat, v, 0nat,
{
    let (g, x) = detached_within(h, v, k)->Some_0;
    match v {
        ValV::Arr(id) => {
            let a = h.arrays[id as int];
            let fresh = h.arrays.len() as usize;
            assert(g.arrays[fresh as int] == a);
            assert(extends(h, g));
            assert(array_ends(h, id, d));
            lemma_values_stable(
                h,
                g,
                a.values,
                a.values.len(),
                (d - 1) as nat,
                (d - 1) as nat,
            );
            assert(array_ends(g, fresh, d));
            assert(array_snapshot(g, fresh, d) == array_snapshot(h, id, d));
        },
        ValV::Opt { value, .. } => {
            if let Some(y) = value {
                lemma_copy_snapshot(h, *y, k, d);
            }
        },
        ValV::Obj { fields, .. } => {
            let f = h.objects[fields as int];
            assert(object_ends(h, fields, d));
            let (g1, copied) = detached_fields(h, f, f.len(), (k - 1) as nat)->Some_0;
            lemma_copied_fields(h, f, f.len(), (k - 1) as nat, (d - 1) as nat);
            let fresh = g1.objects.len() as usize;
            assert(g.objects[fresh as int] == copied);
            assert(extends(g1, g));
            lemma_extends_twice(h, g1, g);
            lemma_fields_stable(g1, g, copied, f.len(), (d - 1) as nat, (d - 1) as nat);
            assert(object_ends(g, fresh, d));
            assert(object_snapshot(g, fresh, d) == object_snapshot(h, fields, d));
        },
        ValV::Record { fields, .. } => {
            lemma_copied_fields(h, fields, fields.len(), k, d);
        },
        _ => {
            assert(g == h && x == v);
        },
    }
}

proof fn lemma_copied_fields(h: HeapV, s: FieldsV, n: nat, k: nat, d: nat)
    requires
        n <= s.len(),
        fields_end(h, s, n, d),
        detached_fields(h, s, n, k) matches Some((g, _)) && g.storable(),
    ensures
        ({
            let (g, copied) = detached_fields(h, s, n, k)->Some_0;
            &&& extends(h, g)
            &&& copied.len() == n
            &&& fields_end(g, copied, n, d)
            &&& fields_snapshot(g, copied, n, d) == fields_snapshot(h, s, n, d)
            &&& record_snapshot(g, copied, n, d) == record_snapshot(h, s, n, d)
        }),
    decreases k, 1nat, s, n,
{
    if n > 0 {
        let m = (n - 1) as nat;
        let (g1, front) = detached_fields(h, s, m, k)->Some_0;
        let (g, x) = detached_within(g1, s[n - 1].value, k)->Some_0;
        lemma_detached_grows(g1, s[n - 1].value, k);
        lemma_copied_fields(h, s, m, k, d);
        lemma_stable(h, g1, s[n - 1].value, d, d);
        lemma_copy_snapshot(g1, s[n - 1].value, k, d);
        lemma_extends_twice(h, g1, g);
        let last = BindV { name: s[n - 1].name, value: x };
        lemma_fields_stable(g1, g, front, m, d, d);
        lemma_fields_prefix(g, front, last, m, d);
        assert(front.push(last)[n - 1] == last);
    }
}

/// A copy is of the same kind as what was copied: an array keeps its payload and its elements, an
/// object its class, and anything without storage is itself.
pub open spec fn same_kind(h: HeapV, v: ValV, g: HeapV, x: ValV) -> bool {
    match v {
        ValV::Arr(id) => x matches ValV::Arr(fresh) && g.array(fresh) == h.array(id),
        ValV::Obj { class, .. } => x matches ValV::Obj { class: c, .. } && c == class,
        ValV::Opt { payload, value } => x matches ValV::Opt { payload: p, value: y } && p == payload
            && (y is Some) == (value is Some),
        ValV::Record { record, .. } => x matches ValV::Record { record: r, .. } && r == record,
        _ => x == v,
    }
}

/// A deep copy has the same snapshot as what was copied, is of the same kind, and leaves what was
/// there as it was.
pub proof fn law_copies_have_the_same_snapshot(h: HeapV, v: ValV)
    requires
        grounded(h, v),
        detached(h, v) matches Some((g, _)) && g.storable(),
    ensures
        ({
            let (g, x) = detached(h, v)->Some_0;
            &&& snapshot(g, x) == snapshot(h, v)
            &&& snapshot(g, v) == snapshot(h, v)
            &&& same_kind(h, v, g, x)
            &&& extends(h, g)
        }),
{
    let (g, x) = detached(h, v)->Some_0;
    law_copies_are_detached(h, v);
    lemma_copy_snapshot(h, v, h.depth(), h.depth());
    lemma_stable(g, g, x, h.depth(), g.depth());
    lemma_stable(h, g, v, h.depth(), g.depth());
}

/// A value can be copied within a depth: it owns nothing that a copy would own a second time, and
/// every object that it leads to is there.
pub open spec fn free_within(h: HeapV, v: ValV, depth: nat) -> bool
    decreases depth, 1nat, v, 0nat,
{
    match v {
        ValV::Arr(id) => h.array(id) matches Some(a) && all_copyable(a.values),
        ValV::Opt { value, .. } => match value {
            Some(x) => free_within(h, *x, depth),
            None => true,
        },
        ValV::AffineOptBoolArray(_) | ValV::AffineOptClass { .. } => false,
        ValV::Obj { fields, .. } => depth > 0 && match h.object(fields) {
            Some(f) => free_fields(h, f, f.len(), (depth - 1) as nat),
            None => false,
        },
        ValV::Record { fields, .. } => free_fields(h, fields, fields.len(), depth),
        _ => true,
    }
}

pub open spec fn free_fields(h: HeapV, s: FieldsV, n: nat, depth: nat) -> bool
    decreases depth, 1nat, s, n,
{
    n == 0 || n > s.len() || (free_fields(h, s, (n - 1) as nat, depth) && free_within(
        h,
        s[n - 1].value,
        depth,
    ))
}

proof fn lemma_free(h: HeapV, g: HeapV, v: ValV, d: nat)
    requires
        extends(h, g),
        free_within(h, v, d),
    ensures
        detached_within(g, v, d) matches Some((e, _)) && extends(h, e),
    decreases d, 1nat, v, 0nat,
{
    match v {
        ValV::Opt { value, .. } => {
            if let Some(x) = value {
                lemma_free(h, g, *x, d);
            }
        },
        ValV::Arr(id) => {
            assert(g.arrays[id as int] == h.arrays[id as int]);
        },
        ValV::Obj { fields, .. } => {
            let f = h.objects[fields as int];
            assert(g.objects[fields as int] == f);
            lemma_free_fields(h, g, f, f.len(), (d - 1) as nat);
        },
        ValV::Record { fields, .. } => lemma_free_fields(h, g, fields, fields.len(), d),
        _ => {},
    }
}

proof fn lemma_free_fields(h: HeapV, g: HeapV, s: FieldsV, n: nat, d: nat)
    requires
        extends(h, g),
        free_fields(h, s, n, d),
    ensures
        detached_fields(g, s, n, d) matches Some((e, _)) && extends(h, e),
    decreases d, 1nat, s, n,
{
    if 0 < n && n <= s.len() {
        lemma_free_fields(h, g, s, (n - 1) as nat, d);
        let e = detached_fields(g, s, (n - 1) as nat, d)->Some_0.0;
        lemma_free(h, e, s[n - 1].value, d);
    }
}

/// A value that owns nothing a copy would own a second time is copied.
pub proof fn law_free_values_are_copied(h: HeapV, v: ValV)
    requires
        free_within(h, v, h.depth()),
    ensures
        detached(h, v) is Some,
{
    lemma_free(h, h, v, h.depth());
}

} // verus!
