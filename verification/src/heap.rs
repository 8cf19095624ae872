//! Shared storage, detached copies of it, and the snapshots that the monitor sees.
use vstd::prelude::*;

use crate::ast::Ty;
use crate::bindings::{BindV, Binding};
use crate::repr::{copy_vec, group_views, opt_view, views, Repr};
use crate::value::{
    copyable, lemma_record_view, ArrV, RtArray, RtVal, ValV,
};

verus! {

broadcast use group_views;

pub type FieldsV = Seq<BindV<ValV>>;

/// The fields of one object.
#[derive(Debug)]
pub struct ObjectFields {
    pub fields: Vec<Binding<RtVal>>,
}

impl View for ObjectFields {
    type V = FieldsV;

    open spec fn view(&self) -> FieldsV {
        views(self.fields@)
    }
}

/// The keys that one resource map holds.
#[derive(Debug)]
pub struct KeySet {
    pub keys: Vec<i128>,
}

impl View for KeySet {
    type V = Seq<i128>;

    open spec fn view(&self) -> Seq<i128> {
        self.keys@
    }
}

/// Everything that more than one place may name.
#[derive(Debug)]
pub struct Heap {
    pub arrays: Vec<RtArray>,
    pub objects: Vec<ObjectFields>,
    pub maps: Vec<KeySet>,
}

pub ghost struct HeapV {
    pub arrays: Seq<ArrV>,
    pub objects: Seq<FieldsV>,
    pub maps: Seq<Seq<i128>>,
}

impl View for Heap {
    type V = HeapV;

    open spec fn view(&self) -> HeapV {
        HeapV {
            arrays: views(self.arrays@),
            objects: views(self.objects@),
            maps: views(self.maps@),
        }
    }
}

impl HeapV {
    /// The storage that an index names.
    pub open spec fn array(self, id: usize) -> Option<ArrV> {
        if id < self.arrays.len() {
            Some(self.arrays[id as int])
        } else {
            None
        }
    }

    pub open spec fn object(self, id: usize) -> Option<FieldsV> {
        if id < self.objects.len() {
            Some(self.objects[id as int])
        } else {
            None
        }
    }

    pub open spec fn map(self, id: usize) -> Option<Seq<i128>> {
        if id < self.maps.len() {
            Some(self.maps[id as int])
        } else {
            None
        }
    }

    pub open spec fn with_array(self, a: ArrV) -> HeapV {
        HeapV { arrays: self.arrays.push(a), ..self }
    }

    pub open spec fn set_array(self, id: usize, a: ArrV) -> HeapV {
        HeapV { arrays: self.arrays.update(id as int, a), ..self }
    }

    pub open spec fn with_object(self, f: FieldsV) -> HeapV {
        HeapV { objects: self.objects.push(f), ..self }
    }

    pub open spec fn set_object(self, id: usize, f: FieldsV) -> HeapV {
        HeapV { objects: self.objects.update(id as int, f), ..self }
    }

    pub open spec fn with_map(self) -> HeapV {
        HeapV { maps: self.maps.push(Seq::empty()), ..self }
    }

    pub open spec fn set_map(self, id: usize, keys: Seq<i128>) -> HeapV {
        HeapV { maps: self.maps.update(id as int, keys), ..self }
    }

    /// The indices of the heap fit a machine word.
    pub open spec fn storable(self) -> bool {
        self.arrays.len() <= usize::MAX && self.objects.len() <= usize::MAX
    }

    /// How many storages a chain of distinct storages can pass through.
    pub open spec fn depth(self) -> nat {
        self.arrays.len() + self.objects.len() + 1
    }
}

pub open spec fn empty_heap() -> HeapV {
    HeapV { arrays: Seq::empty(), objects: Seq::empty(), maps: Seq::empty() }
}

/// How many fields all objects hold together.
pub open spec fn total_fields(objects: Seq<FieldsV>) -> nat
    decreases objects.len(),
{
    if objects.len() == 0 {
        0
    } else {
        total_fields(objects.drop_last()) + objects.last().len()
    }
}

pub proof fn lemma_total_update(objects: Seq<FieldsV>, i: int, f: FieldsV)
    requires
        0 <= i < objects.len(),
    ensures
        total_fields(objects.update(i, f)) + objects[i].len() == total_fields(objects) + f.len(),
    decreases objects.len(),
{
    let t = objects.update(i, f);
    if i == objects.len() - 1 {
        assert(t.drop_last() =~= objects.drop_last());
    } else {
        assert(t.drop_last() =~= objects.drop_last().update(i, f));
        lemma_total_update(objects.drop_last(), i, f);
    }
}

impl Heap {
    pub fn new() -> (r: Heap)
        ensures
            r@ == empty_heap(),
    {
        Heap { arrays: Vec::new(), objects: Vec::new(), maps: Vec::new() }
    }

    pub fn array(&self, id: usize) -> (r: Option<&RtArray>)
        ensures
            match self@.array(id) {
                Some(a) => r matches Some(x) && x@ == a,
                None => r is None,
            },
    {
        if id < self.arrays.len() {
            Some(&self.arrays[id])
        } else {
            None
        }
    }

    pub fn object(&self, id: usize) -> (r: Option<&Vec<Binding<RtVal>>>)
        ensures
            match self@.object(id) {
                Some(f) => r matches Some(x) && views(x@) == f,
                None => r is None,
            },
    {
        if id < self.objects.len() {
            Some(&self.objects[id].fields)
        } else {
            None
        }
    }

    /// New storage for an array.
    pub fn add_array(&mut self, array: RtArray) -> (id: usize)
        ensures
            id == old(self)@.arrays.len(),
            final(self)@ == old(self)@.with_array(array@),
    {
        let id = self.arrays.len();
        self.arrays.push(array);
        id
    }

    /// New storage for the fields of an object.
    pub fn add_object(&mut self, fields: Vec<Binding<RtVal>>) -> (id: usize)
        ensures
            id == old(self)@.objects.len(),
            final(self)@ == old(self)@.with_object(views(fields@)),
    {
        let id = self.objects.len();
        self.objects.push(ObjectFields { fields });
        id
    }

    /// A new empty key set.
    pub fn add_map(&mut self) -> (id: usize)
        ensures
            id == old(self)@.maps.len(),
            final(self)@ == old(self)@.with_map(),
    {
        let id = self.maps.len();
        self.maps.push(KeySet { keys: Vec::new() });
        id
    }
}

// ------------------------------------------------------------------------------------------
// Snapshots
// ------------------------------------------------------------------------------------------

/// What a contract can say of a value.
#[allow(inconsistent_fields)]
#[derive(Debug)]
pub enum SpecVal {
    Int(i128),
    Bool(bool),
    Arr(SpecArray),
    Opt { payload: Option<Ty>, value: Option<Box<SpecVal>> },
    AffineOpt { value: Option<Box<SpecVal>> },
    Obj(Vec<Binding<SpecVal>>),
}

#[derive(Debug)]
pub struct SpecArray {
    pub payload: Ty,
    pub values: Vec<SpecVal>,
}

#[allow(inconsistent_fields)]
pub ghost enum SpecV {
    Int(i128),
    Bool(bool),
    Arr { payload: Ty, values: Seq<SpecV> },
    Opt { payload: Option<Ty>, value: Option<Box<SpecV>> },
    AffineOpt { value: Option<Box<SpecV>> },
    Obj(Seq<BindV<SpecV>>),
}

pub open spec fn spec_view(v: SpecVal) -> SpecV
    decreases v, 0nat,
{
    match v {
        SpecVal::Int(n) => SpecV::Int(n),
        SpecVal::Bool(b) => SpecV::Bool(b),
        SpecVal::Arr(a) => SpecV::Arr {
            payload: a.payload,
            values: spec_values_view(a.values@, a.values@.len()),
        },
        SpecVal::Opt { payload, value } => SpecV::Opt {
            payload,
            value: match value {
                Some(x) => Some(Box::new(spec_view(*x))),
                None => None,
            },
        },
        SpecVal::AffineOpt { value } => SpecV::AffineOpt {
            value: match value {
                Some(x) => Some(Box::new(spec_view(*x))),
                None => None,
            },
        },
        SpecVal::Obj(fields) => SpecV::Obj(spec_fields_view(fields@, fields@.len())),
    }
}

pub open spec fn spec_values_view(s: Seq<SpecVal>, n: nat) -> Seq<SpecV>
    decreases s, n,
{
    if n == 0 || n > s.len() {
        Seq::empty()
    } else {
        spec_values_view(s, (n - 1) as nat).push(spec_view(s[n - 1]))
    }
}

pub open spec fn spec_fields_view(s: Seq<Binding<SpecVal>>, n: nat) -> Seq<BindV<SpecV>>
    decreases s, n,
{
    if n == 0 || n > s.len() {
        Seq::empty()
    } else {
        spec_fields_view(s, (n - 1) as nat).push(
            BindV { name: s[n - 1].name@, value: spec_view(s[n - 1].value) },
        )
    }
}

impl View for SpecVal {
    type V = SpecV;

    open spec fn view(&self) -> SpecV {
        spec_view(*self)
    }
}

proof fn lemma_spec_values_view(s: Seq<SpecVal>, n: nat)
    requires
        n <= s.len(),
    ensures
        spec_values_view(s, n) == views(s).take(n as int),
    decreases n,
{
    if n > 0 {
        lemma_spec_values_view(s, (n - 1) as nat);
        assert(views(s).take(n as int) =~= views(s).take(n - 1).push(views(s)[n - 1]));
    } else {
        assert(views(s).take(0) =~= Seq::empty());
    }
}

proof fn lemma_spec_fields_view(s: Seq<Binding<SpecVal>>, n: nat)
    requires
        n <= s.len(),
    ensures
        spec_fields_view(s, n) == views(s).take(n as int),
    decreases n,
{
    if n > 0 {
        lemma_spec_fields_view(s, (n - 1) as nat);
        assert(views(s).take(n as int) =~= views(s).take(n - 1).push(views(s)[n - 1]));
    } else {
        assert(views(s).take(0) =~= Seq::empty());
    }
}

pub broadcast proof fn lemma_spec_view(v: SpecVal)
    ensures
        v is Arr ==> #[trigger] v@ == (SpecV::Arr {
            payload: v->Arr_0.payload,
            values: views(v->Arr_0.values@),
        }),
        v is Obj ==> v@ == SpecV::Obj(views(v->Obj_0@)),
{
    match v {
        SpecVal::Arr(a) => {
            lemma_spec_values_view(a.values@, a.values@.len());
            assert(views(a.values@).take(a.values@.len() as int) =~= views(a.values@));
        },
        SpecVal::Obj(f) => {
            lemma_spec_fields_view(f@, f@.len());
            assert(views(f@).take(f@.len() as int) =~= views(f@));
        },
        _ => {},
    }
}

impl Repr for SpecVal {
    fn copy(&self) -> (r: Self) {
        self.duplicate()
    }

    fn same(&self, other: &Self) -> (r: bool) {
        self.same_spec(other)
    }
}

impl SpecVal {
    pub fn duplicate(&self) -> (r: SpecVal)
        ensures
            r@ == self@,
        decreases self,
    {
        broadcast use lemma_spec_view;

        match self {
            SpecVal::Int(n) => SpecVal::Int(*n),
            SpecVal::Bool(b) => SpecVal::Bool(*b),
            SpecVal::Arr(a) => {
                let mut out: Vec<SpecVal> = Vec::new();
                let n: usize = a.values.len();
                let mut i: usize = 0;
                while i < n
                    invariant
                        self matches SpecVal::Arr(x) && x == *a,
                        n == a.values@.len(),
                        i <= n,
                        views(out@) == views(a.values@).take(i as int),
                    decreases n - i,
                {
                    out.push(a.values[i].duplicate());
                    assert(views(a.values@).take(i + 1) =~= views(a.values@).take(i as int).push(
                        views(a.values@)[i as int],
                    ));
                    i = i + 1;
                }
                assert(views(a.values@).take(n as int) =~= views(a.values@));
                SpecVal::Arr(SpecArray { payload: a.payload.clone(), values: out })
            },
            SpecVal::Opt { payload, value } => {
                let p = match payload {
                    Some(t) => Some(t.clone()),
                    None => None,
                };
                let inner = match value {
                    Some(x) => Some(Box::new(x.duplicate())),
                    None => None,
                };
                SpecVal::Opt { payload: p, value: inner }
            },
            SpecVal::AffineOpt { value } => {
                let inner = match value {
                    Some(x) => Some(Box::new(x.duplicate())),
                    None => None,
                };
                SpecVal::AffineOpt { value: inner }
            },
            SpecVal::Obj(fields) => {
                let mut out: Vec<Binding<SpecVal>> = Vec::new();
                let n: usize = fields.len();
                let mut i: usize = 0;
                while i < n
                    invariant
                        self matches SpecVal::Obj(x) && x == *fields,
                        n == fields@.len(),
                        i <= n,
                        views(out@) == views(fields@).take(i as int),
                    decreases n - i,
                {
                    out.push(
                        Binding { name: fields[i].name.clone(), value: fields[i].value.duplicate() },
                    );
                    assert(views(fields@).take(i + 1) =~= views(fields@).take(i as int).push(
                        views(fields@)[i as int],
                    ));
                    i = i + 1;
                }
                assert(views(fields@).take(n as int) =~= views(fields@));
                SpecVal::Obj(out)
            },
        }
    }

    pub fn same_spec(&self, other: &SpecVal) -> (r: bool)
        ensures
            r == (self@ == other@),
        decreases self,
    {
        broadcast use lemma_spec_view;

        match (self, other) {
            (SpecVal::Int(a), SpecVal::Int(b)) => *a == *b,
            (SpecVal::Bool(a), SpecVal::Bool(b)) => *a == *b,
            (SpecVal::Arr(a), SpecVal::Arr(b)) => {
                if !a.payload.same_ty(&b.payload) {
                    return false;
                }
                if a.values.len() != b.values.len() {
                    assert(views(a.values@).len() != views(b.values@).len());
                    return false;
                }
                let n: usize = a.values.len();
                let mut i: usize = 0;
                while i < n
                    invariant
                        self matches SpecVal::Arr(x) && x == *a,
                        other matches SpecVal::Arr(x) && x == *b,
                        n == a.values@.len(),
                        n == b.values@.len(),
                        i <= n,
                        forall|k: int| 0 <= k < i ==> views(a.values@)[k] == views(b.values@)[k],
                    decreases n - i,
                {
                    broadcast use lemma_spec_view;

                    if !a.values[i].same_spec(&b.values[i]) {
                        assert(views(a.values@)[i as int] != views(b.values@)[i as int]);
                        return false;
                    }
                    i = i + 1;
                }
                assert(views(a.values@) =~= views(b.values@));
                true
            },
            (
                SpecVal::Opt { payload: p, value: a },
                SpecVal::Opt { payload: q, value: b },
            ) => {
                let payloads = match (p, q) {
                    (Some(s), Some(t)) => s.same_ty(t),
                    (None, None) => true,
                    _ => false,
                };
                payloads && match (a, b) {
                    (Some(x), Some(y)) => x.same_spec(y),
                    (None, None) => true,
                    _ => false,
                }
            },
            (SpecVal::AffineOpt { value: a }, SpecVal::AffineOpt { value: b }) => match (a, b) {
                (Some(x), Some(y)) => x.same_spec(y),
                (None, None) => true,
                _ => false,
            },
            (SpecVal::Obj(f), SpecVal::Obj(g)) => {
                if f.len() != g.len() {
                    assert(views(f@).len() != views(g@).len());
                    return false;
                }
                let n: usize = f.len();
                let mut i: usize = 0;
                while i < n
                    invariant
                        self matches SpecVal::Obj(x) && x == *f,
                        other matches SpecVal::Obj(x) && x == *g,
                        n == f@.len(),
                        n == g@.len(),
                        i <= n,
                        forall|k: int| 0 <= k < i ==> views(f@)[k] == views(g@)[k],
                    decreases n - i,
                {
                    broadcast use lemma_spec_view;

                    let named = f[i].name == g[i].name;
                    if !named || !f[i].value.same_spec(&g[i].value) {
                        assert(views(f@)[i as int] != views(g@)[i as int]);
                        return false;
                    }
                    i = i + 1;
                }
                assert(views(f@) =~= views(g@));
                true
            },
            _ => false,
        }
    }
}

/// What a contract can say of a value, through at most `depth` storages. Pointers, resource
/// shadows and the unit value have no snapshot, and neither has an array or a record that holds
/// such a value; an object leaves such fields out.
pub open spec fn snapshot_within(h: HeapV, v: ValV, depth: nat) -> Option<SpecV>
    decreases depth, 1nat, v, 0nat,
{
    match v {
        ValV::Int(n) => Some(SpecV::Int(n)),
        ValV::Bool(b) => Some(SpecV::Bool(b)),
        ValV::Arr(id) => array_snapshot(h, id, depth),
        ValV::Opt { payload, value } => match value {
            Some(x) => match snapshot_within(h, *x, depth) {
                Some(s) => Some(SpecV::Opt { payload: Some(payload), value: Some(Box::new(s)) }),
                None => None,
            },
            None => Some(SpecV::Opt { payload: Some(payload), value: None }),
        },
        ValV::AffineOptBoolArray(value) => match value {
            Some(id) => match array_snapshot(h, id, depth) {
                Some(s) => Some(SpecV::AffineOpt { value: Some(Box::new(s)) }),
                None => None,
            },
            None => Some(SpecV::AffineOpt { value: None }),
        },
        ValV::AffineOptClass { value, .. } => match value {
            Some(id) => match object_snapshot(h, id, depth) {
                Some(s) => Some(SpecV::AffineOpt { value: Some(Box::new(s)) }),
                None => None,
            },
            None => Some(SpecV::AffineOpt { value: None }),
        },
        ValV::Obj { fields, .. } => object_snapshot(h, fields, depth),
        ValV::Record { fields, .. } => match record_snapshot(h, fields, fields.len(), depth) {
            Some(s) => Some(SpecV::Obj(s)),
            None => None,
        },
        ValV::PtrOpt(_) | ValV::Ptr(..) | ValV::ResMap(_) | ValV::Unit => None,
    }
}

pub open spec fn array_snapshot(h: HeapV, id: usize, depth: nat) -> Option<SpecV>
    decreases depth, 0nat, ValV::Unit, 0nat,
{
    if depth == 0 {
        None
    } else {
        match h.array(id) {
            None => None,
            Some(a) => match values_snapshot(h, a.values, a.values.len(), (depth - 1) as nat) {
                Some(values) => Some(SpecV::Arr { payload: a.payload, values }),
                None => None,
            },
        }
    }
}

pub open spec fn object_snapshot(h: HeapV, id: usize, depth: nat) -> Option<SpecV>
    decreases depth, 0nat, ValV::Unit, 0nat,
{
    if depth == 0 {
        None
    } else {
        match h.object(id) {
            None => None,
            Some(f) => Some(SpecV::Obj(fields_snapshot(h, f, f.len(), (depth - 1) as nat))),
        }
    }
}

/// The snapshots of the first `n` values; none where one of them has none.
pub open spec fn values_snapshot(h: HeapV, s: Seq<ValV>, n: nat, depth: nat) -> Option<Seq<SpecV>>
    decreases depth, 1nat, s, n,
{
    if n == 0 || n > s.len() {
        Some(Seq::empty())
    } else {
        match values_snapshot(h, s, (n - 1) as nat, depth) {
            None => None,
            Some(front) => match snapshot_within(h, s[n - 1], depth) {
                None => None,
                Some(x) => Some(front.push(x)),
            },
        }
    }
}

/// The snapshots of the first `n` fields of a record; none where one of them has none.
pub open spec fn record_snapshot(h: HeapV, s: FieldsV, n: nat, depth: nat) -> Option<
    Seq<BindV<SpecV>>,
>
    decreases depth, 1nat, s, n,
{
    if n == 0 || n > s.len() {
        Some(Seq::empty())
    } else {
        match record_snapshot(h, s, (n - 1) as nat, depth) {
            None => None,
            Some(front) => match snapshot_within(h, s[n - 1].value, depth) {
                None => None,
                Some(x) => Some(front.push(BindV { name: s[n - 1].name, value: x })),
            },
        }
    }
}

/// The snapshots of those of the first `n` fields that have one.
pub open spec fn fields_snapshot(h: HeapV, s: FieldsV, n: nat, depth: nat) -> Seq<BindV<SpecV>>
    decreases depth, 1nat, s, n,
{
    if n == 0 || n > s.len() {
        Seq::empty()
    } else {
        let front = fields_snapshot(h, s, (n - 1) as nat, depth);
        match snapshot_within(h, s[n - 1].value, depth) {
            None => front,
            Some(x) => front.push(BindV { name: s[n - 1].name, value: x }),
        }
    }
}

/// What a contract can say of a value.
pub open spec fn snapshot(h: HeapV, v: ValV) -> Option<SpecV> {
    snapshot_within(h, v, h.depth())
}

impl Heap {
    fn array_snapshot(&self, id: usize, depth: u128) -> (r: Option<SpecVal>)
        ensures
            opt_view(r) == array_snapshot(self@, id, depth as nat),
        decreases depth, 0nat, RtVal::Unit,
    {
        broadcast use lemma_spec_view;

        if depth == 0 || id >= self.arrays.len() {
            return None;
        }
        let a = &self.arrays[id];
        assert(self@.arrays[id as int] == a@);
        let mut out: Vec<SpecVal> = Vec::new();
        let n: usize = a.values.len();
        let mut i: usize = 0;
        while i < n
            invariant
                depth > 0,
                id < self.arrays@.len(),
                a@ == self@.arrays[id as int],
                self@.array(id) == Some(a@),
                n == a.values@.len(),
                i <= n,
                values_snapshot(self@, a@.values, i as nat, (depth - 1) as nat) == Some(
                    views(out@),
                ),
            decreases n - i,
        {
            assert(a@.values[i as int] == a.values@[i as int]@);
            match self.snapshot_within(&a.values[i], depth - 1) {
                Some(x) => {
                    out.push(x);
                },
                None => {
                    proof {
                        lemma_values_absent(
                            self@,
                            a@.values,
                            (i + 1) as nat,
                            n as nat,
                            (depth - 1) as nat,
                        );
                    }
                    return None;
                },
            }
            i = i + 1;
        }
        Some(SpecVal::Arr(SpecArray { payload: a.payload.clone(), values: out }))
    }

    fn object_snapshot(&self, id: usize, depth: u128) -> (r: Option<SpecVal>)
        ensures
            opt_view(r) == object_snapshot(self@, id, depth as nat),
        decreases depth, 0nat, RtVal::Unit,
    {
        broadcast use lemma_spec_view;

        if depth == 0 || id >= self.objects.len() {
            return None;
        }
        let fields = &self.objects[id].fields;
        assert(self@.objects[id as int] == views(fields@));
        let mut out: Vec<Binding<SpecVal>> = Vec::new();
        let n: usize = fields.len();
        let mut i: usize = 0;
        while i < n
            invariant
                depth > 0,
                n == fields@.len(),
                i <= n,
                fields_snapshot(self@, views(fields@), i as nat, (depth - 1) as nat) == views(
                    out@,
                ),
            decreases n - i,
        {
            assert(views(fields@)[i as int] == fields@[i as int]@);
            match self.snapshot_within(&fields[i].value, depth - 1) {
                Some(x) => {
                    out.push(Binding { name: fields[i].name.clone(), value: x });
                },
                None => {},
            }
            i = i + 1;
        }
        Some(SpecVal::Obj(out))
    }

    fn snapshot_within(&self, v: &RtVal, depth: u128) -> (r: Option<SpecVal>)
        ensures
            opt_view(r) == snapshot_within(self@, v@, depth as nat),
        decreases depth, 1nat, v,
    {
        broadcast use {lemma_spec_view, lemma_record_view};

        match v {
            RtVal::Int(n) => Some(SpecVal::Int(*n)),
            RtVal::Bool(b) => Some(SpecVal::Bool(*b)),
            RtVal::Arr(id) => self.array_snapshot(*id, depth),
            RtVal::Opt { payload, value } => match value {
                Some(x) => match self.snapshot_within(x, depth) {
                    Some(s) => Some(
                        SpecVal::Opt { payload: Some(payload.clone()), value: Some(Box::new(s)) },
                    ),
                    None => None,
                },
                None => Some(SpecVal::Opt { payload: Some(payload.clone()), value: None }),
            },
            RtVal::AffineOptBoolArray(value) => match value {
                Some(id) => match self.array_snapshot(*id, depth) {
                    Some(s) => Some(SpecVal::AffineOpt { value: Some(Box::new(s)) }),
                    None => None,
                },
                None => Some(SpecVal::AffineOpt { value: None }),
            },
            RtVal::AffineOptClass { value, .. } => match value {
                Some(id) => match self.object_snapshot(*id, depth) {
                    Some(s) => Some(SpecVal::AffineOpt { value: Some(Box::new(s)) }),
                    None => None,
                },
                None => Some(SpecVal::AffineOpt { value: None }),
            },
            RtVal::Obj { fields, .. } => self.object_snapshot(*fields, depth),
            RtVal::Record { fields, .. } => {
                let mut out: Vec<Binding<SpecVal>> = Vec::new();
                let n: usize = fields.len();
                let mut i: usize = 0;
                while i < n
                    invariant
                        v matches RtVal::Record { fields: f, .. } && f == *fields,
                        n == fields@.len(),
                        i <= n,
                        record_snapshot(self@, views(fields@), i as nat, depth as nat) == Some(
                            views(out@),
                        ),
                    decreases n - i,
                {
                    broadcast use lemma_record_view;

                    assert(views(fields@)[i as int] == fields@[i as int]@);
                    match self.snapshot_within(&fields[i].value, depth) {
                        Some(x) => {
                            out.push(Binding { name: fields[i].name.clone(), value: x });
                        },
                        None => {
                            proof {
                                lemma_record_absent(
                                    self@,
                                    views(fields@),
                                    (i + 1) as nat,
                                    n as nat,
                                    depth as nat,
                                );
                            }
                            return None;
                        },
                    }
                    i = i + 1;
                }
                Some(SpecVal::Obj(out))
            },
            RtVal::PtrOpt(_) | RtVal::Ptr(..) | RtVal::ResMap(_) | RtVal::Unit => None,
        }
    }

    /// What a contract can say of a value. The result shares nothing with the heap.
    pub fn spec_of(&self, v: &RtVal) -> (r: Option<SpecVal>)
        ensures
            opt_view(r) == snapshot(self@, v@),
    {
        self.snapshot_within(v, self.depth())
    }

    pub fn depth(&self) -> (r: u128)
        ensures
            r == self@.depth(),
    {
        self.arrays.len() as u128 + self.objects.len() as u128 + 1
    }
}

proof fn lemma_values_absent(h: HeapV, s: Seq<ValV>, k: nat, n: nat, depth: nat)
    requires
        k <= n <= s.len(),
        values_snapshot(h, s, k, depth) is None,
    ensures
        values_snapshot(h, s, n, depth) is None,
    decreases n,
{
    if k < n {
        lemma_values_absent(h, s, k, (n - 1) as nat, depth);
    }
}

proof fn lemma_record_absent(h: HeapV, s: FieldsV, k: nat, n: nat, depth: nat)
    requires
        k <= n <= s.len(),
        record_snapshot(h, s, k, depth) is None,
    ensures
        record_snapshot(h, s, n, depth) is None,
    decreases n,
{
    if k < n {
        lemma_record_absent(h, s, k, (n - 1) as nat, depth);
    }
}

// ------------------------------------------------------------------------------------------
// Detached copies
// ------------------------------------------------------------------------------------------

pub open spec fn all_copyable(s: Seq<ValV>) -> bool {
    forall|i: int| 0 <= i < s.len() ==> copyable(#[trigger] s[i])
}

/// A copy of a value that shares no storage with it, and the heap that holds it, through at most
/// `depth` storages. An owning option has no copy.
pub open spec fn detached_within(h: HeapV, v: ValV, depth: nat) -> Option<(HeapV, ValV)>
    decreases depth, 1nat, v, 0nat,
{
    match v {
        ValV::Arr(id) => match h.array(id) {
            Some(a) if all_copyable(a.values) => Some(
                (h.with_array(a), ValV::Arr(h.arrays.len() as usize)),
            ),
            _ => None,
        },
        ValV::Opt { payload, value } => match value {
            Some(x) => match detached_within(h, *x, depth) {
                Some((h, x)) => Some((h, ValV::Opt { payload, value: Some(Box::new(x)) })),
                None => None,
            },
            None => Some((h, v)),
        },
        ValV::AffineOptBoolArray(_) | ValV::AffineOptClass { .. } => None,
        ValV::Obj { class, fields } => if depth == 0 {
            None
        } else {
            match h.object(fields) {
                None => None,
                Some(f) => match detached_fields(h, f, f.len(), (depth - 1) as nat) {
                    None => None,
                    Some((h, copies)) => Some(
                        (
                            h.with_object(copies),
                            ValV::Obj { class, fields: h.objects.len() as usize },
                        ),
                    ),
                },
            }
        },
        ValV::Record { record, fields } => match detached_fields(h, fields, fields.len(), depth) {
            None => None,
            Some((h, copies)) => Some((h, ValV::Record { record, fields: copies })),
        },
        _ => Some((h, v)),
    }
}

/// Detached copies of the first `n` fields, in order.
pub open spec fn detached_fields(h: HeapV, s: FieldsV, n: nat, depth: nat) -> Option<
    (HeapV, FieldsV),
>
    decreases depth, 1nat, s, n,
{
    if n == 0 || n > s.len() {
        Some((h, Seq::empty()))
    } else {
        match detached_fields(h, s, (n - 1) as nat, depth) {
            None => None,
            Some((h, front)) => match detached_within(h, s[n - 1].value, depth) {
                None => None,
                Some((h, x)) => Some((h, front.push(BindV { name: s[n - 1].name, value: x }))),
            },
        }
    }
}

/// A copy of a value that shares no storage with it.
pub open spec fn detached(h: HeapV, v: ValV) -> Option<(HeapV, ValV)> {
    detached_within(h, v, h.depth())
}

/// What a copy leaves behind.
pub open spec fn copies(r: Option<RtVal>, after: HeapV, s: Option<(HeapV, ValV)>) -> bool {
    match s {
        Some((h, v)) => after == h && (r matches Some(x) && x@ == v),
        None => r is None,
    }
}

pub open spec fn copies_fields(
    r: Option<Vec<Binding<RtVal>>>,
    after: HeapV,
    s: Option<(HeapV, FieldsV)>,
) -> bool {
    match s {
        Some((h, f)) => after == h && (r matches Some(x) && views(x@) == f),
        None => r is None,
    }
}

/// The heap only gains storage.
pub open spec fn extends(a: HeapV, b: HeapV) -> bool {
    &&& a.arrays.len() <= b.arrays.len()
    &&& a.objects.len() <= b.objects.len()
    &&& a.maps == b.maps
    &&& forall|i: int| 0 <= i < a.arrays.len() ==> #[trigger] b.arrays[i] == a.arrays[i]
    &&& forall|i: int| 0 <= i < a.objects.len() ==> #[trigger] b.objects[i] == a.objects[i]
}

impl Heap {
    fn detach_within(&mut self, v: &RtVal, depth: u128) -> (r: Option<RtVal>)
        ensures
            copies(r, final(self)@, detached_within(old(self)@, v@, depth as nat)),
            extends(old(self)@, final(self)@),
        decreases depth, 1nat, v,
    {
        broadcast use lemma_record_view;

        match v {
            RtVal::Arr(id) => {
                let id = *id;
                if id >= self.arrays.len() {
                    return None;
                }
                assert(self@.arrays[id as int] == self.arrays@[id as int]@);
                let n: usize = self.arrays[id].values.len();
                let mut i: usize = 0;
                while i < n
                    invariant
                        self@ == old(self)@,
                        id < self.arrays@.len(),
                        self@.arrays[id as int] == self.arrays@[id as int]@,
                        n == self.arrays@[id as int].values@.len(),
                        i <= n,
                        v@ == ValV::Arr(id),
                        forall|k: int|
                            0 <= k < i ==> copyable(#[trigger] self@.arrays[id as int].values[k]),
                    decreases n - i,
                {
                    assert(self@.arrays[id as int].values[i as int]
                        == self.arrays@[id as int].values@[i as int]@);
                    if !self.arrays[id].values[i].is_copyable() {
                        return None;
                    }
                    i = i + 1;
                }
                let copied = self.arrays[id].copy();
                let fresh = self.add_array(copied);
                Some(RtVal::Arr(fresh))
            },
            RtVal::Opt { payload, value } => match value {
                Some(x) => match self.detach_within(x, depth) {
                    Some(y) => Some(
                        RtVal::Opt { payload: payload.clone(), value: Some(Box::new(y)) },
                    ),
                    None => None,
                },
                None => Some(RtVal::Opt { payload: payload.clone(), value: None }),
            },
            RtVal::AffineOptBoolArray(_) | RtVal::AffineOptClass { .. } => None,
            RtVal::Obj { class, fields } => {
                if depth == 0 || *fields >= self.objects.len() {
                    return None;
                }
                let source = copy_vec(&self.objects[*fields].fields);
                assert(self@.objects[*fields as int] == views(source@));
                match self.detach_fields(&source, depth - 1) {
                    None => None,
                    Some(copied) => {
                        let fresh = self.add_object(copied);
                        Some(RtVal::Obj { class: *class, fields: fresh })
                    },
                }
            },
            RtVal::Record { record, fields } => {
                match self.detach_fields(fields, depth) {
                    None => None,
                    Some(copied) => Some(RtVal::Record { record: *record, fields: copied }),
                }
            },
            _ => Some(v.duplicate()),
        }
    }

    fn detach_fields(&mut self, s: &Vec<Binding<RtVal>>, depth: u128) -> (r: Option<
        Vec<Binding<RtVal>>,
    >)
        ensures
            copies_fields(
                r,
                final(self)@,
                detached_fields(old(self)@, views(s@), s@.len(), depth as nat),
            ),
            extends(old(self)@, final(self)@),
        decreases depth, 1nat, s,
    {
        let mut out: Vec<Binding<RtVal>> = Vec::new();
        let n: usize = s.len();
        let mut i: usize = 0;
        while i < n
            invariant
                n == s@.len(),
                i <= n,
                extends(old(self)@, self@),
                detached_fields(old(self)@, views(s@), i as nat, depth as nat) == Some(
                    (self@, views(out@)),
                ),
            decreases n - i,
        {
            assert(views(s@)[i as int] == s@[i as int]@);
            match self.detach_within(&s[i].value, depth) {
                Some(x) => {
                    out.push(Binding { name: s[i].name.clone(), value: x });
                },
                None => {
                    proof {
                        lemma_detached_absent(
                            old(self)@,
                            views(s@),
                            (i + 1) as nat,
                            n as nat,
                            depth as nat,
                        );
                    }
                    return None;
                },
            }
            i = i + 1;
        }
        Some(out)
    }

    /// A copy of a value that shares no storage with it; none, and no new storage, where the value
    /// owns what a copy would own a second time.
    pub fn deep_copy(&mut self, v: &RtVal) -> (r: Option<RtVal>)
        ensures
            copies(r, final(self)@, detached(old(self)@, v@)),
            r is None ==> final(self)@ == old(self)@,
            extends(old(self)@, final(self)@),
    {
        let depth = self.depth();
        let arrays: usize = self.arrays.len();
        let objects: usize = self.objects.len();
        match self.detach_within(v, depth) {
            Some(x) => Some(x),
            None => {
                proof {
                    assert(self.arrays@.len() == self@.arrays.len());
                    assert(self.objects@.len() == self@.objects.len());
                    assert forall|i: int| 0 <= i < arrays implies #[trigger] self.arrays@[i]@
                        == old(self)@.arrays[i] by {
                        assert(self@.arrays[i] == self.arrays@[i]@);
                    }
                    assert forall|i: int| 0 <= i < objects implies #[trigger] self.objects@[i]@
                        == old(self)@.objects[i] by {
                        assert(self@.objects[i] == self.objects@[i]@);
                    }
                }
                self.arrays.truncate(arrays);
                self.objects.truncate(objects);
                assert(self@.arrays =~= old(self)@.arrays);
                assert(self@.objects =~= old(self)@.objects);
                None
            },
        }
    }
}

proof fn lemma_detached_absent(h: HeapV, s: FieldsV, k: nat, n: nat, depth: nat)
    requires
        k <= n <= s.len(),
        detached_fields(h, s, k, depth) is None,
    ensures
        detached_fields(h, s, n, depth) is None,
    decreases n,
{
    if k < n {
        lemma_detached_absent(h, s, k, (n - 1) as nat, depth);
    }
}

// ------------------------------------------------------------------------------------------
// Laws
// ------------------------------------------------------------------------------------------

/// Every storage that a value names directly or through its own parts is one of the heap's, from
/// the given indices on.
pub open spec fn fresh_from(v: ValV, arrays: nat, objects: nat) -> bool
    decreases v, 0nat,
{
    match v {
        ValV::Arr(id) => id >= arrays,
        ValV::Obj { fields, .. } => fields >= objects,
        ValV::Opt { value, .. } => match value {
            Some(x) => fresh_from(*x, arrays, objects),
            None => true,
        },
        ValV::Record { fields, .. } => fields_fresh(fields, fields.len(), arrays, objects),
        _ => true,
    }
}

pub open spec fn fields_fresh(s: FieldsV, n: nat, arrays: nat, objects: nat) -> bool
    decreases s, n,
{
    n == 0 || n > s.len() || (fresh_from(s[n - 1].value, arrays, objects) && fields_fresh(
        s,
        (n - 1) as nat,
        arrays,
        objects,
    ))
}

/// Every object of the heap from index `objects` on holds values that name no older storage.
pub open spec fn new_objects_fresh(h: HeapV, arrays: nat, objects: nat) -> bool {
    forall|i: int|
        objects <= i < h.objects.len() ==> fields_fresh(
            #[trigger] h.objects[i],
            h.objects[i].len(),
            arrays,
            objects,
        )
}

proof fn lemma_fields_fresh_push(
    s: FieldsV,
    b: BindV<ValV>,
    n: nat,
    arrays: nat,
    objects: nat,
)
    requires
        n <= s.len(),
    ensures
        fields_fresh(s.push(b), n, arrays, objects) == fields_fresh(s, n, arrays, objects),
    decreases n,
{
    if n > 0 {
        lemma_fields_fresh_push(s, b, (n - 1) as nat, arrays, objects);
        assert(s.push(b)[n - 1] == s[n - 1]);
    }
}

proof fn lemma_detached(h: HeapV, v: ValV, depth: nat, arrays: nat, objects: nat)
    requires
        arrays <= h.arrays.len(),
        objects <= h.objects.len(),
        new_objects_fresh(h, arrays, objects),
    ensures
        detached_within(h, v, depth) matches Some((g, x)) ==> g.storable() ==> {
            &&& extends(h, g)
            &&& fresh_from(x, arrays, objects)
            &&& new_objects_fresh(g, arrays, objects)
        },
    decreases depth, 1nat, v, 0nat,
{
    match v {
        ValV::Arr(_) => {
            lemma_detached_grows(h, v, depth);
        },
        ValV::Opt { value, .. } => {
            if let Some(x) = value {
                lemma_detached(h, *x, depth, arrays, objects);
            }
        },
        ValV::Obj { fields, .. } => {
            if depth > 0 && h.object(fields) is Some {
                let f = h.objects[fields as int];
                lemma_detached_fields(h, f, f.len(), (depth - 1) as nat, arrays, objects);
            }
        },
        ValV::Record { fields, .. } => {
            lemma_detached_fields(h, fields, fields.len(), depth, arrays, objects);
        },
        _ => {},
    }
}

proof fn lemma_detached_fields(
    h: HeapV,
    s: FieldsV,
    n: nat,
    depth: nat,
    arrays: nat,
    objects: nat,
)
    requires
        arrays <= h.arrays.len(),
        objects <= h.objects.len(),
        n <= s.len(),
        new_objects_fresh(h, arrays, objects),
    ensures
        detached_fields(h, s, n, depth) matches Some((g, copied)) ==> g.storable() ==> {
            &&& extends(h, g)
            &&& copied.len() == n
            &&& fields_fresh(copied, n, arrays, objects)
            &&& new_objects_fresh(g, arrays, objects)
        },
    decreases depth, 1nat, s, n,
{
    if n > 0 {
        match detached_fields(h, s, (n - 1) as nat, depth) {
            Some((g, front)) => {
                lemma_detached_grows(g, s[n - 1].value, depth);
                lemma_detached_fields(h, s, (n - 1) as nat, depth, arrays, objects);
                if g.storable() {
                    lemma_detached(g, s[n - 1].value, depth, arrays, objects);
                    match detached_within(g, s[n - 1].value, depth) {
                        Some((_, x)) => {
                            lemma_fields_fresh_push(
                                front,
                                BindV { name: s[n - 1].name, value: x },
                                (n - 1) as nat,
                                arrays,
                                objects,
                            );
                        },
                        None => {},
                    }
                }
            },
            None => {},
        }
    }
}

/// Copying never makes the heap smaller.
pub proof fn lemma_detached_grows(h: HeapV, v: ValV, depth: nat)
    ensures
        detached_within(h, v, depth) matches Some((g, _)) ==> h.arrays.len() <= g.arrays.len()
            && h.objects.len() <= g.objects.len(),
    decreases depth, 1nat, v, 0nat,
{
    match v {
        ValV::Opt { value, .. } => {
            if let Some(x) = value {
                lemma_detached_grows(h, *x, depth);
            }
        },
        ValV::Obj { fields, .. } => {
            if depth > 0 && h.object(fields) is Some {
                let f = h.objects[fields as int];
                lemma_detached_fields_grow(h, f, f.len(), (depth - 1) as nat);
            }
        },
        ValV::Record { fields, .. } => {
            lemma_detached_fields_grow(h, fields, fields.len(), depth);
        },
        _ => {},
    }
}

proof fn lemma_detached_fields_grow(h: HeapV, s: FieldsV, n: nat, depth: nat)
    ensures
        detached_fields(h, s, n, depth) matches Some((g, _)) ==> h.arrays.len() <= g.arrays.len()
            && h.objects.len() <= g.objects.len(),
    decreases depth, 1nat, s, n,
{
    if n > 0 && n <= s.len() {
        lemma_detached_fields_grow(h, s, (n - 1) as nat, depth);
        match detached_fields(h, s, (n - 1) as nat, depth) {
            Some((g, _)) => {
                lemma_detached_grows(g, s[n - 1].value, depth);
            },
            None => {},
        }
    }
}

/// A deep copy is detached: the storage that was there is untouched, and neither the copy nor any
/// object made for it names storage that was there before.
pub proof fn law_copies_are_detached(h: HeapV, v: ValV)
    requires
        detached(h, v) matches Some((g, _)) && g.storable(),
    ensures
        ({
            let (g, x) = detached(h, v)->Some_0;
            &&& extends(h, g)
            &&& fresh_from(x, h.arrays.len(), h.objects.len())
            &&& new_objects_fresh(g, h.arrays.len(), h.objects.len())
        }),
{
    lemma_detached(h, v, h.depth(), h.arrays.len(), h.objects.len());
}

} // verus!
