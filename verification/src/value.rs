//! Runtime values, arrays and the heap that holds shared storage.
//!
//! Arrays, objects and resource-map shadows are shared between the places that name them. They
//! live in a heap, and a value names them by their index there: two values that hold one index
//! are two names of one storage.
use vstd::prelude::*;

use crate::ast::{IntTy, Ty};
use crate::bindings::{BindV, Binding};
use crate::drops::{ErrV, PlanError};
use crate::repr::{copy_vec, group_views, views, Repr};
use crate::span::Span;
use crate::text::{cat2, owned};

verus! {

broadcast use group_views;

// ------------------------------------------------------------------------------------------
// Traps
// ------------------------------------------------------------------------------------------

/// Why execution stopped. Where `undef` is set, the machine gives the program no behavior at
/// all, and the message says which rule it broke.
#[derive(Debug)]
pub struct Trap {
    pub message: String,
    pub span: Span,
    pub undef: bool,
}

pub ghost struct TrapV {
    pub message: Seq<char>,
    pub span: Span,
    pub undef: bool,
}

impl View for Trap {
    type V = TrapV;

    open spec fn view(&self) -> TrapV {
        TrapV { message: self.message@, span: self.span, undef: self.undef }
    }
}

pub open spec fn trap(span: Span, message: Seq<char>) -> TrapV {
    TrapV { message, span, undef: false }
}

pub open spec fn undefined(span: Span, message: Seq<char>) -> TrapV {
    TrapV { message, span, undef: true }
}

/// A state that no admitted program reaches.
pub open spec fn stuck(span: Span, what: Seq<char>) -> TrapV {
    undefined(span, "internal.interp.unreachable: "@ + what)
}

pub open spec fn plan_message(message: Seq<char>) -> Seq<char> {
    "internal control plan rejected the checked body: "@ + message
}

/// A refusal of the retained plan, met at run time.
pub open spec fn plan_trap(e: ErrV) -> TrapV {
    undefined(e.span, plan_message(e.message))
}

impl Trap {
    pub fn defined(span: Span, message: String) -> (r: Trap)
        ensures
            r@ == trap(span, message@),
    {
        Trap { message, span, undef: false }
    }

    pub fn undefined(span: Span, message: String) -> (r: Trap)
        ensures
            r@ == undefined(span, message@),
    {
        Trap { message, span, undef: true }
    }

    pub fn stuck(span: Span, what: &str) -> (r: Trap)
        ensures
            r@ == stuck(span, what@),
    {
        Trap::undefined(span, cat2("internal.interp.unreachable: ", what))
    }
}

pub fn control_plan_message(error: &PlanError) -> (r: String)
    ensures
        r@ == plan_message(error@.message),
{
    cat2("internal control plan rejected the checked body: ", error.message.as_str())
}

pub fn control_plan_trap(error: PlanError) -> (r: Trap)
    ensures
        r@ == plan_trap(error@),
{
    Trap::undefined(error.span, control_plan_message(&error))
}

// ------------------------------------------------------------------------------------------
// Values
// ------------------------------------------------------------------------------------------

#[allow(inconsistent_fields)]
#[derive(Debug)]
pub enum RtVal {
    Int(i128),
    Bool(bool),
    /// An array, by its index in the heap.
    Arr(usize),
    /// A copyable option. It keeps its payload type when it is empty, for the monitor.
    Opt { payload: Ty, value: Option<Box<RtVal>> },
    /// The option that owns a Boolean array. Its slot is the place itself, so that a take
    /// empties the place.
    AffineOptBoolArray(Option<usize>),
    /// The option that owns an object.
    AffineOptClass { class: usize, value: Option<usize> },
    PtrOpt(Option<(i128, i128)>),
    /// A plain copyable record.
    Record { record: usize, fields: Vec<Binding<RtVal>> },
    /// An object, by the index of its fields in the heap.
    Obj { class: usize, fields: usize },
    /// An allocation and a byte offset in it.
    Ptr(i128, i128),
    /// The key set of an erased resource map, by its index in the heap.
    ResMap(usize),
    Unit,
}

#[allow(inconsistent_fields)]
pub ghost enum ValV {
    Int(i128),
    Bool(bool),
    Arr(usize),
    Opt { payload: Ty, value: Option<Box<ValV>> },
    AffineOptBoolArray(Option<usize>),
    AffineOptClass { class: usize, value: Option<usize> },
    PtrOpt(Option<(i128, i128)>),
    Record { record: usize, fields: Seq<BindV<ValV>> },
    Obj { class: usize, fields: usize },
    Ptr(i128, i128),
    ResMap(usize),
    Unit,
}

pub open spec fn val_view(v: RtVal) -> ValV
    decreases v, 0nat,
{
    match v {
        RtVal::Int(n) => ValV::Int(n),
        RtVal::Bool(b) => ValV::Bool(b),
        RtVal::Arr(a) => ValV::Arr(a),
        RtVal::Opt { payload, value } => ValV::Opt {
            payload,
            value: match value {
                Some(x) => Some(Box::new(val_view(*x))),
                None => None,
            },
        },
        RtVal::AffineOptBoolArray(a) => ValV::AffineOptBoolArray(a),
        RtVal::AffineOptClass { class, value } => ValV::AffineOptClass { class, value },
        RtVal::PtrOpt(p) => ValV::PtrOpt(p),
        RtVal::Record { record, fields } => ValV::Record {
            record,
            fields: fields_view(fields@, fields@.len()),
        },
        RtVal::Obj { class, fields } => ValV::Obj { class, fields },
        RtVal::Ptr(a, o) => ValV::Ptr(a, o),
        RtVal::ResMap(m) => ValV::ResMap(m),
        RtVal::Unit => ValV::Unit,
    }
}

/// The first `n` fields of a record.
pub open spec fn fields_view(fields: Seq<Binding<RtVal>>, n: nat) -> Seq<BindV<ValV>>
    decreases fields, n,
{
    if n == 0 || n > fields.len() {
        Seq::empty()
    } else {
        fields_view(fields, (n - 1) as nat).push(
            BindV {
                name: fields[n - 1].name@,
                value: val_view(fields[n - 1].value),
            },
        )
    }
}

impl View for RtVal {
    type V = ValV;

    open spec fn view(&self) -> ValV {
        val_view(*self)
    }
}

pub proof fn lemma_fields_view(fields: Seq<Binding<RtVal>>, n: nat)
    requires
        n <= fields.len(),
    ensures
        fields_view(fields, n) == views(fields).take(n as int),
    decreases n,
{
    if n > 0 {
        lemma_fields_view(fields, (n - 1) as nat);
        assert(views(fields).take(n as int) =~= views(fields).take(n - 1).push(
            views(fields)[n - 1],
        ));
    } else {
        assert(views(fields).take(0) =~= Seq::empty());
    }
}

/// The view of a record holds the views of its fields.
pub broadcast proof fn lemma_record_view(v: RtVal)
    requires
        v is Record,
    ensures
        #[trigger] v@ == (ValV::Record { record: v->record, fields: views(v->Record_fields@) }),
{
    let fields = v->Record_fields@;
    lemma_fields_view(fields, fields.len());
    assert(views(fields).take(fields.len() as int) =~= views(fields));
}

/// Whether a value may be copied: nothing inside it owns what a copy would own a second time.
pub open spec fn copyable(v: ValV) -> bool
    decreases v, 0nat,
{
    match v {
        ValV::Opt { value, .. } => match value {
            Some(x) => copyable(*x),
            None => true,
        },
        ValV::AffineOptBoolArray(_) | ValV::AffineOptClass { .. } => false,
        ValV::Record { fields, .. } => fields_copyable(fields, fields.len()),
        _ => true,
    }
}

pub open spec fn fields_copyable(fields: Seq<BindV<ValV>>, n: nat) -> bool
    decreases fields, n,
{
    n == 0 || n > fields.len() || (copyable(fields[n - 1].value) && fields_copyable(
        fields,
        (n - 1) as nat,
    ))
}

/// Whether a value belongs to the domain of a payload. A payload with no runtime value is
/// inhabited by nothing.
pub open spec fn inhabits(v: ValV, payload: Ty) -> bool {
    match (v, payload) {
        (ValV::Int(_), Ty::Int(integer)) => !(integer is TParam),
        (ValV::Bool(_), Ty::Bool) => true,
        (ValV::Record { record, .. }, Ty::Record(declared)) => record == declared,
        _ => false,
    }
}

impl Repr for RtVal {
    fn copy(&self) -> (r: Self) {
        self.duplicate()
    }

    fn same(&self, other: &Self) -> (r: bool) {
        self.same_value(other)
    }
}

impl RtVal {
    /// A value with the same view.
    pub fn duplicate(&self) -> (r: RtVal)
        ensures
            r@ == self@,
        decreases self, 0nat,
    {
        broadcast use lemma_record_view;

        match self {
            RtVal::Int(n) => RtVal::Int(*n),
            RtVal::Bool(b) => RtVal::Bool(*b),
            RtVal::Arr(a) => RtVal::Arr(*a),
            RtVal::Opt { payload, value } => {
                let inner = match value {
                    Some(x) => Some(Box::new(x.duplicate())),
                    None => None,
                };
                RtVal::Opt { payload: payload.clone(), value: inner }
            },
            RtVal::AffineOptBoolArray(a) => RtVal::AffineOptBoolArray(*a),
            RtVal::AffineOptClass { class, value } => RtVal::AffineOptClass {
                class: *class,
                value: *value,
            },
            RtVal::PtrOpt(p) => RtVal::PtrOpt(*p),
            RtVal::Record { record, fields } => {
                let mut out: Vec<Binding<RtVal>> = Vec::new();
                let n: usize = fields.len();
                let mut i: usize = 0;
                while i < n
                    invariant
                        self matches RtVal::Record { fields: f, .. } && f == *fields,
                        n == fields@.len(),
                        i <= n,
                        views(out@) == views(fields@).take(i as int),
                    decreases n - i,
                {
                    out.push(
                        Binding { name: fields[i].name.clone(), value: fields[i].value.duplicate() },
                    );
                    assert(views(fields@).take(i + 1) =~= views(fields@).take(i as int).push(
                        views(fields@)[i as int],
                    ));
                    i = i + 1;
                }
                assert(views(fields@).take(n as int) =~= views(fields@));
                RtVal::Record { record: *record, fields: out }
            },
            RtVal::Obj { class, fields } => RtVal::Obj { class: *class, fields: *fields },
            RtVal::Ptr(a, o) => RtVal::Ptr(*a, *o),
            RtVal::ResMap(m) => RtVal::ResMap(*m),
            RtVal::Unit => RtVal::Unit,
        }
    }

    pub fn same_value(&self, other: &RtVal) -> (r: bool)
        ensures
            r == (self@ == other@),
        decreases self,
    {
        broadcast use lemma_record_view;

        match (self, other) {
            (RtVal::Int(a), RtVal::Int(b)) => *a == *b,
            (RtVal::Bool(a), RtVal::Bool(b)) => *a == *b,
            (RtVal::Arr(a), RtVal::Arr(b)) => *a == *b,
            (RtVal::Opt { payload: p, value: v }, RtVal::Opt { payload: q, value: w }) => {
                if !p.same_ty(q) {
                    return false;
                }
                match (v, w) {
                    (Some(a), Some(b)) => a.same_value(b),
                    (None, None) => true,
                    _ => false,
                }
            },
            (RtVal::AffineOptBoolArray(a), RtVal::AffineOptBoolArray(b)) => match (a, b) {
                (Some(x), Some(y)) => *x == *y,
                (None, None) => true,
                _ => false,
            },
            (
                RtVal::AffineOptClass { class: c, value: a },
                RtVal::AffineOptClass { class: d, value: b },
            ) => *c == *d && match (a, b) {
                (Some(x), Some(y)) => *x == *y,
                (None, None) => true,
                _ => false,
            },
            (RtVal::PtrOpt(a), RtVal::PtrOpt(b)) => match (a, b) {
                (Some((x, y)), Some((z, w))) => *x == *z && *y == *w,
                (None, None) => true,
                _ => false,
            },
            (
                RtVal::Record { record: a, fields: f },
                RtVal::Record { record: b, fields: g },
            ) => {
                if *a != *b || f.len() != g.len() {
                    assert(views(f@).len() == f@.len() && views(g@).len() == g@.len());
                    return false;
                }
                let n: usize = f.len();
                let mut i: usize = 0;
                while i < n
                    invariant
                        self matches RtVal::Record { record: x, fields: y } && x == *a && y == *f,
                        other matches RtVal::Record { record: x, fields: y } && x == *b && y == *g,
                        n == f@.len(),
                        n == g@.len(),
                        i <= n,
                        forall|k: int| 0 <= k < i ==> views(f@)[k] == views(g@)[k],
                    decreases n - i,
                {
                    broadcast use lemma_record_view;

                    let named = f[i].name == g[i].name;
                    if !named || !f[i].value.same_value(&g[i].value) {
                        assert(views(f@)[i as int] != views(g@)[i as int]);
                        return false;
                    }
                    i = i + 1;
                }
                assert(views(f@) =~= views(g@));
                true
            },
            (
                RtVal::Obj { class: a, fields: f },
                RtVal::Obj { class: b, fields: g },
            ) => *a == *b && *f == *g,
            (RtVal::Ptr(a, o), RtVal::Ptr(b, p)) => *a == *b && *o == *p,
            (RtVal::ResMap(a), RtVal::ResMap(b)) => *a == *b,
            (RtVal::Unit, RtVal::Unit) => true,
            _ => false,
        }
    }

    pub fn is_copyable(&self) -> (r: bool)
        ensures
            r == copyable(self@),
        decreases self,
    {
        broadcast use lemma_record_view;

        match self {
            RtVal::Opt { value, .. } => match value {
                Some(x) => x.is_copyable(),
                None => true,
            },
            RtVal::AffineOptBoolArray(_) | RtVal::AffineOptClass { .. } => false,
            RtVal::Record { fields, .. } => {
                let mut i: usize = fields.len();
                while i > 0
                    invariant
                        self matches RtVal::Record { fields: f, .. } && f == *fields,
                        i <= fields@.len(),
                        fields_copyable(views(fields@), fields@.len()) == fields_copyable(
                            views(fields@),
                            i as nat,
                        ),
                    decreases i,
                {
                    broadcast use lemma_record_view;

                    assert(views(fields@)[i - 1] == fields@[i - 1]@);
                    if !fields[i - 1].value.is_copyable() {
                        return false;
                    }
                    i = i - 1;
                }
                true
            },
            _ => true,
        }
    }

    pub fn inhabits(&self, payload: &Ty) -> (r: bool)
        ensures
            r == inhabits(self@, *payload),
    {
        broadcast use lemma_record_view;

        match (self, payload) {
            (RtVal::Int(_), Ty::Int(integer)) => !matches!(integer, IntTy::TParam(_)),
            (RtVal::Bool(_), Ty::Bool) => true,
            (RtVal::Record { record, .. }, Ty::Record(declared)) => *record == *declared,
            _ => false,
        }
    }
}

// ------------------------------------------------------------------------------------------
// Arrays
// ------------------------------------------------------------------------------------------

/// An array keeps its payload type beside its elements, so that an empty integer array and an
/// empty Boolean array stay distinct. Every element inhabits the payload.
#[derive(Debug)]
pub struct RtArray {
    pub payload: Ty,
    pub values: Vec<RtVal>,
}

pub ghost struct ArrV {
    pub payload: Ty,
    pub values: Seq<ValV>,
}

impl View for RtArray {
    type V = ArrV;

    open spec fn view(&self) -> ArrV {
        ArrV { payload: self.payload, values: views(self.values@) }
    }
}

impl Repr for RtArray {
    fn copy(&self) -> (r: Self) {
        RtArray { payload: self.payload.clone(), values: copy_vec(&self.values) }
    }

    fn same(&self, other: &Self) -> (r: bool) {
        self.payload.same_ty(&other.payload) && crate::repr::same_vec(&self.values, &other.values)
    }
}

impl ArrV {
    /// Every element inhabits the payload.
    pub open spec fn tagged(self) -> bool {
        forall|i: int| 0 <= i < self.values.len() ==> inhabits(#[trigger] self.values[i], self.payload)
    }
}

/// A value that was to go into an array whose payload it does not inhabit.
#[derive(Debug)]
pub struct Misfit {
    pub payload: Ty,
    pub value: RtVal,
    /// What the value was to be.
    pub role: String,
    pub span: Span,
}

pub ghost struct MisfitV {
    pub payload: Ty,
    pub value: ValV,
    pub role: Seq<char>,
    pub span: Span,
}

impl View for Misfit {
    type V = MisfitV;

    open spec fn view(&self) -> MisfitV {
        MisfitV {
            payload: self.payload,
            value: self.value@,
            role: self.role@,
            span: self.span,
        }
    }
}

pub open spec fn outside(payload: Ty, value: ValV, role: Seq<char>, span: Span) -> MisfitV {
    MisfitV { payload, value, role, span }
}

/// The first value, at `i` or later, that does not inhabit the payload.
pub open spec fn misfit(payload: Ty, values: Seq<ValV>, i: nat) -> Option<nat>
    decreases values.len() - i,
{
    if i >= values.len() {
        None
    } else if !inhabits(values[i as int], payload) {
        Some(i)
    } else {
        misfit(payload, values, i + 1)
    }
}

pub open spec fn array_of_values(payload: Ty, values: Seq<ValV>, span: Span) -> Result<ArrV, MisfitV> {
    match misfit(payload, values, 0) {
        Some(i) => Err(outside(payload, values[i as int], "element"@, span)),
        None => Ok(ArrV { payload, values }),
    }
}

pub open spec fn array_repeat(payload: Ty, v: ValV, len: nat, span: Span) -> Result<ArrV, MisfitV> {
    if !inhabits(v, payload) {
        Err(outside(payload, v, "initializer"@, span))
    } else {
        Ok(ArrV { payload, values: Seq::new(len, |i: int| v) })
    }
}

pub open spec fn array_store(a: ArrV, index: int, v: ValV, span: Span) -> Result<ArrV, MisfitV> {
    if !inhabits(v, a.payload) {
        Err(outside(a.payload, v, "store value"@, span))
    } else {
        Ok(ArrV { values: a.values.update(index, v), ..a })
    }
}

proof fn lemma_misfit(payload: Ty, values: Seq<ValV>, i: nat)
    ensures
        match misfit(payload, values, i) {
            Some(k) => i <= k < values.len() && !inhabits(values[k as int], payload),
            None => forall|k: int| i <= k < values.len() ==> inhabits(#[trigger] values[k], payload),
        },
    decreases values.len() - i,
{
    if i < values.len() && inhabits(values[i as int], payload) {
        lemma_misfit(payload, values, i + 1);
    }
}

/// However an array is built, and whatever is stored in it later, it never holds a value outside
/// its payload; and what is refused leaves no array behind.
pub proof fn law_arrays_hold_their_payload(
    payload: Ty,
    values: Seq<ValV>,
    v: ValV,
    len: nat,
    index: int,
    span: Span,
)
    ensures
        array_of_values(payload, values, span) is Ok <==> (forall|i: int|
            0 <= i < values.len() ==> inhabits(#[trigger] values[i], payload)),
        array_of_values(payload, values, span) matches Ok(a) ==> a.tagged() && a.values == values
            && a.payload == payload,
        array_repeat(payload, v, len, span) is Ok <==> inhabits(v, payload),
        array_repeat(payload, v, len, span) matches Ok(a) ==> a.tagged() && a.values.len() == len,
        forall|a: ArrV|
            a.tagged() && 0 <= index < a.values.len() ==> (#[trigger] array_store(
                a,
                index,
                v,
                span,
            ) matches Ok(b) ==> b.tagged() && b.payload == a.payload && b.values.len()
                == a.values.len() && b.values[index] == v),
{
    lemma_misfit(payload, values, 0);
    assert forall|a: ArrV| a.tagged() && 0 <= index < a.values.len() implies (
    #[trigger] array_store(a, index, v, span) matches Ok(b) ==> b.tagged() && b.payload
        == a.payload && b.values.len() == a.values.len() && b.values[index] == v) by {
        match array_store(a, index, v, span) {
            Ok(b) => {
                assert forall|i: int| 0 <= i < b.values.len() implies inhabits(
                    #[trigger] b.values[i],
                    b.payload,
                ) by {
                    if i != index {
                        assert(b.values[i] == a.values[i]);
                    }
                }
            },
            Err(_) => {},
        }
    }
}

/// A computed result stands for a stated one.
pub open spec fn yields<T: View>(r: Result<T, Trap>, s: Result<T::V, TrapV>) -> bool {
    match (r, s) {
        (Ok(x), Ok(v)) => x@ == v,
        (Err(e), Err(f)) => e@ == f,
        _ => false,
    }
}

/// A computed array stands for a stated one.
pub open spec fn fits(r: Result<RtArray, Misfit>, s: Result<ArrV, MisfitV>) -> bool {
    match (r, s) {
        (Ok(x), Ok(v)) => x@ == v,
        (Err(e), Err(f)) => e@ == f,
        _ => false,
    }
}

impl RtArray {
    pub fn len(&self) -> (r: usize)
        ensures
            r == self@.values.len(),
    {
        self.values.len()
    }

    pub fn payload(&self) -> (r: Ty)
        ensures
            r == self@.payload,
    {
        self.payload.clone()
    }

    /// The elements, in order.
    pub fn iter(&self) -> (r: &[RtVal])
        ensures
            views(r@) == self@.values,
    {
        self.values.as_slice()
    }

    pub fn from_values(payload: Ty, values: Vec<RtVal>, span: Span) -> (r: Result<RtArray, Misfit>)
        ensures
            fits(r, array_of_values(payload, views(values@), span)),
    {
        let n: usize = values.len();
        let mut i: usize = 0;
        while i < n
            invariant
                n == values@.len(),
                i <= n,
                misfit(payload, views(values@), 0) == misfit(payload, views(values@), i as nat),
            decreases n - i,
        {
            assert(views(values@)[i as int] == values@[i as int]@);
            if !values[i].inhabits(&payload) {
                return Err(
                    Misfit { payload, value: values[i].duplicate(), role: owned("element"), span },
                );
            }
            i = i + 1;
        }
        Ok(RtArray { payload, values })
    }

    pub fn repeat(payload: Ty, value: RtVal, len: usize, span: Span) -> (r: Result<RtArray, Misfit>)
        ensures
            fits(r, array_repeat(payload, value@, len as nat, span)),
    {
        if !value.inhabits(&payload) {
            return Err(Misfit { payload, value, role: owned("initializer"), span });
        }
        let mut values: Vec<RtVal> = Vec::new();
        let mut i: usize = 0;
        while i < len
            invariant
                i <= len,
                views(values@) == Seq::new(i as nat, |k: int| value@),
            decreases len - i,
        {
            values.push(value.duplicate());
            assert(Seq::new((i + 1) as nat, |k: int| value@) =~= Seq::new(
                i as nat,
                |k: int| value@,
            ).push(value@));
            i = i + 1;
        }
        Ok(RtArray { payload, values })
    }

    pub fn get(&self, index: usize) -> (r: RtVal)
        requires
            index < self@.values.len(),
        ensures
            r@ == self@.values[index as int],
    {
        self.values[index].duplicate()
    }

    pub fn set(&mut self, index: usize, value: RtVal, span: Span) -> (r: Result<(), Misfit>)
        requires
            index < old(self)@.values.len(),
        ensures
            match array_store(old(self)@, index as int, value@, span) {
                Ok(a) => r is Ok && final(self)@ == a,
                Err(e) => (r matches Err(x) && x@ == e) && final(self)@ == old(self)@,
            },
    {
        if !value.inhabits(&self.payload) {
            return Err(
                Misfit {
                    payload: self.payload.clone(),
                    value,
                    role: owned("store value"),
                    span,
                },
            );
        }
        self.values.set(index, value);
        Ok(())
    }
}

} // verus!
