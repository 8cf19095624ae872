//! Values as diagnostics show them, with the contents of the storage that they name.
use vstd::prelude::*;

use crate::ast::ty_name;
use crate::heap::{FieldsV, Heap, HeapV};
use crate::repr::{group_views, views};
use crate::text::{
    cat3, cat5, cat7, int_text, nat_text, owned, quote, quoted, signed_decimal, usize_decimal,
};
use crate::traps::{ty_tag, ty_tag_text};
use crate::value::{lemma_record_view, undefined, Misfit, MisfitV, RtVal, Trap, TrapV, ValV};

verus! {

broadcast use group_views;

// ------------------------------------------------------------------------------------------
// Pieces
// ------------------------------------------------------------------------------------------

pub open spec fn bool_text(b: bool) -> Seq<char> {
    if b {
        "true"@
    } else {
        "false"@
    }
}

pub fn bool_word(b: bool) -> (r: &'static str)
    ensures
        r@ == bool_text(b),
{
    if b {
        "true"
    } else {
        "false"
    }
}

/// The gap before entry `n` of a list.
pub open spec fn gap(n: nat) -> Seq<char> {
    if n <= 1 {
        Seq::empty()
    } else {
        ", "@
    }
}

fn gap_before(i: usize) -> (r: &'static str)
    ensures
        r@ == gap((i + 1) as nat),
{
    proof {
        reveal_strlit("");
        assert(""@ =~= Seq::<char>::empty());
    }
    if i == 0 {
        ""
    } else {
        ", "
    }
}

// ------------------------------------------------------------------------------------------
// Values
// ------------------------------------------------------------------------------------------

/// A value through at most `depth` storages. Storage that holds itself is cut off as `..`.
pub open spec fn value_text(h: HeapV, v: ValV, depth: nat) -> Seq<char>
    decreases depth, 1nat, v, 0nat,
{
    match v {
        ValV::Int(n) => "Int("@ + int_text(n as int) + ")"@,
        ValV::Bool(b) => "Bool("@ + bool_text(b) + ")"@,
        ValV::Arr(id) => "Arr("@ + array_text(h, id, depth) + ")"@,
        ValV::Opt { payload, value } => match value {
            Some(x) => "Opt { payload: "@ + ty_tag(payload) + ", value: Some("@ + value_text(
                h,
                *x,
                depth,
            ) + ") }"@,
            None => "Opt { payload: "@ + ty_tag(payload) + ", value: None }"@,
        },
        ValV::AffineOptBoolArray(Some(id)) => "AffineOptBoolArray(Some("@ + array_text(
            h,
            id,
            depth,
        ) + "))"@,
        ValV::AffineOptBoolArray(None) => "AffineOptBoolArray(None)"@,
        ValV::AffineOptClass { class, value: Some(id) } => "AffineOptClass { class: "@ + nat_text(
            class as nat,
        ) + ", value: Some("@ + object_text(h, id, depth) + ") }"@,
        ValV::AffineOptClass { class, value: None } => "AffineOptClass { class: "@ + nat_text(
            class as nat,
        ) + ", value: None }"@,
        ValV::PtrOpt(Some((a, o))) => "PtrOpt(Some(("@ + int_text(a as int) + ", "@ + int_text(
            o as int,
        ) + ")))"@,
        ValV::PtrOpt(None) => "PtrOpt(None)"@,
        ValV::Record { record, fields } => "Record { record: "@ + nat_text(record as nat)
            + ", fields: {"@ + fields_text(h, fields, fields.len(), depth) + "} }"@,
        ValV::Obj { class, fields } => "Obj { class: "@ + nat_text(class as nat) + ", fields: "@
            + object_text(h, fields, depth) + " }"@,
        ValV::Ptr(a, o) => "Ptr("@ + int_text(a as int) + ", "@ + int_text(o as int) + ")"@,
        ValV::ResMap(id) => "ResMap("@ + map_text(h, id) + ")"@,
        ValV::Unit => "Unit"@,
    }
}

/// The storage of an array.
pub open spec fn array_text(h: HeapV, id: usize, depth: nat) -> Seq<char>
    decreases depth, 0nat, ValV::Unit, 0nat,
{
    match h.array(id) {
        Some(a) => if depth == 0 {
            ".."@
        } else {
            "RefCell { value: RtArray { payload: "@ + ty_tag(a.payload) + ", values: ["@
                + values_text(h, a.values, a.values.len(), (depth - 1) as nat) + "] } }"@
        },
        None => ".."@,
    }
}

/// The storage of an object.
pub open spec fn object_text(h: HeapV, id: usize, depth: nat) -> Seq<char>
    decreases depth, 0nat, ValV::Unit, 0nat,
{
    match h.object(id) {
        Some(f) => if depth == 0 {
            ".."@
        } else {
            "RefCell { value: {"@ + fields_text(h, f, f.len(), (depth - 1) as nat) + "} }"@
        },
        None => ".."@,
    }
}

/// The first `n` values of a list.
pub open spec fn values_text(h: HeapV, s: Seq<ValV>, n: nat, depth: nat) -> Seq<char>
    decreases depth, 1nat, s, n,
{
    if n == 0 || n > s.len() {
        Seq::empty()
    } else {
        values_text(h, s, (n - 1) as nat, depth) + gap(n) + value_text(h, s[n - 1], depth)
    }
}

/// The first `n` fields, in the order in which they were bound.
pub open spec fn fields_text(h: HeapV, s: FieldsV, n: nat, depth: nat) -> Seq<char>
    decreases depth, 1nat, s, n,
{
    if n == 0 || n > s.len() {
        Seq::empty()
    } else {
        fields_text(h, s, (n - 1) as nat, depth) + gap(n) + quoted(s[n - 1].name) + ": "@
            + value_text(h, s[n - 1].value, depth)
    }
}

/// The first `n` keys.
pub open spec fn keys_text(s: Seq<i128>, n: nat) -> Seq<char>
    decreases n,
{
    if n == 0 || n > s.len() {
        Seq::empty()
    } else {
        keys_text(s, (n - 1) as nat) + gap(n) + int_text(s[n - 1] as int)
    }
}

/// The storage of a followed map.
pub open spec fn map_text(h: HeapV, id: usize) -> Seq<char> {
    match h.map(id) {
        Some(keys) => "RefCell { value: {"@ + keys_text(keys, keys.len()) + "} }"@,
        None => ".."@,
    }
}

/// A value in diagnostics.
pub open spec fn shown(h: HeapV, v: ValV) -> Seq<char> {
    value_text(h, v, h.depth())
}

/// The refusal of a value outside an array's payload. It is undefined behavior rather than a trap:
/// no admitted program produces it.
pub open spec fn misfit_trap(h: HeapV, m: MisfitV) -> TrapV {
    undefined(
        m.span,
        "interp.array_payload_mismatch: "@ + m.role + " "@ + shown(h, m.value)
            + " does not inhabit the array payload `"@ + ty_name(m.payload) + "`"@,
    )
}

impl Heap {
    fn array_text(&self, id: usize, depth: u128) -> (r: String)
        ensures
            r@ == array_text(self@, id, depth as nat),
        decreases depth, 0nat, RtVal::Unit,
    {
        if depth == 0 || id >= self.arrays.len() {
            return owned("..");
        }
        let a = &self.arrays[id];
        assert(self@.arrays[id as int] == a@);
        let mut text = String::new();
        assert(text@ =~= Seq::<char>::empty());
        let n: usize = a.values.len();
        let mut i: usize = 0;
        while i < n
            invariant
                depth > 0,
                n == a.values@.len(),
                i <= n,
                text@ == values_text(self@, a@.values, i as nat, (depth - 1) as nat),
            decreases n - i,
        {
            assert(a@.values[i as int] == a.values@[i as int]@);
            let item = self.value_text(&a.values[i], depth - 1);
            text = cat3(text.as_str(), gap_before(i), item.as_str());
            i = i + 1;
        }
        cat5(
            "RefCell { value: RtArray { payload: ",
            ty_tag_text(&a.payload).as_str(),
            ", values: [",
            text.as_str(),
            "] } }",
        )
    }

    fn object_text(&self, id: usize, depth: u128) -> (r: String)
        ensures
            r@ == object_text(self@, id, depth as nat),
        decreases depth, 0nat, RtVal::Unit,
    {
        if depth == 0 || id >= self.objects.len() {
            return owned("..");
        }
        let fields = &self.objects[id].fields;
        assert(self@.objects[id as int] == views(fields@));
        let mut text = String::new();
        assert(text@ =~= Seq::<char>::empty());
        let n: usize = fields.len();
        let mut i: usize = 0;
        while i < n
            invariant
                depth > 0,
                n == fields@.len(),
                i <= n,
                text@ == fields_text(self@, views(fields@), i as nat, (depth - 1) as nat),
            decreases n - i,
        {
            assert(views(fields@)[i as int] == fields@[i as int]@);
            let item = self.value_text(&fields[i].value, depth - 1);
            text =
            cat5(
                text.as_str(),
                gap_before(i),
                quote(fields[i].name.as_str()).as_str(),
                ": ",
                item.as_str(),
            );
            i = i + 1;
        }
        cat3("RefCell { value: {", text.as_str(), "} }")
    }

    fn map_text(&self, id: usize) -> (r: String)
        ensures
            r@ == map_text(self@, id),
    {
        if id >= self.maps.len() {
            return owned("..");
        }
        let keys = &self.maps[id].keys;
        assert(self@.maps[id as int] == keys@);
        let mut text = String::new();
        assert(text@ =~= Seq::<char>::empty());
        let n: usize = keys.len();
        let mut i: usize = 0;
        while i < n
            invariant
                n == keys@.len(),
                i <= n,
                text@ == keys_text(keys@, i as nat),
            decreases n - i,
        {
            text = cat3(text.as_str(), gap_before(i), signed_decimal(keys[i]).as_str());
            i = i + 1;
        }
        cat3("RefCell { value: {", text.as_str(), "} }")
    }

    fn value_text(&self, v: &RtVal, depth: u128) -> (r: String)
        ensures
            r@ == value_text(self@, v@, depth as nat),
        decreases depth, 1nat, v,
    {
        broadcast use lemma_record_view;

        match v {
            RtVal::Int(n) => cat3("Int(", signed_decimal(*n).as_str(), ")"),
            RtVal::Bool(b) => cat3("Bool(", bool_word(*b), ")"),
            RtVal::Arr(id) => cat3("Arr(", self.array_text(*id, depth).as_str(), ")"),
            RtVal::Opt { payload, value } => match value {
                Some(x) => cat5(
                    "Opt { payload: ",
                    ty_tag_text(payload).as_str(),
                    ", value: Some(",
                    self.value_text(x, depth).as_str(),
                    ") }",
                ),
                None => cat3("Opt { payload: ", ty_tag_text(payload).as_str(), ", value: None }"),
            },
            RtVal::AffineOptBoolArray(a) => match a {
                Some(id) => cat3(
                    "AffineOptBoolArray(Some(",
                    self.array_text(*id, depth).as_str(),
                    "))",
                ),
                None => owned("AffineOptBoolArray(None)"),
            },
            RtVal::AffineOptClass { class, value } => match value {
                Some(id) => cat5(
                    "AffineOptClass { class: ",
                    usize_decimal(*class).as_str(),
                    ", value: Some(",
                    self.object_text(*id, depth).as_str(),
                    ") }",
                ),
                None => cat3(
                    "AffineOptClass { class: ",
                    usize_decimal(*class).as_str(),
                    ", value: None }",
                ),
            },
            RtVal::PtrOpt(p) => match p {
                Some((a, o)) => cat5(
                    "PtrOpt(Some((",
                    signed_decimal(*a).as_str(),
                    ", ",
                    signed_decimal(*o).as_str(),
                    ")))",
                ),
                None => owned("PtrOpt(None)"),
            },
            RtVal::Record { record, fields } => {
                let mut text = String::new();
                assert(text@ =~= Seq::<char>::empty());
                let n: usize = fields.len();
                let mut i: usize = 0;
                while i < n
                    invariant
                        v matches RtVal::Record { fields: f, .. } && f == *fields,
                        n == fields@.len(),
                        i <= n,
                        text@ == fields_text(self@, views(fields@), i as nat, depth as nat),
                    decreases n - i,
                {
                    broadcast use lemma_record_view;

                    assert(views(fields@)[i as int] == fields@[i as int]@);
                    let item = self.value_text(&fields[i].value, depth);
                    text =
                    cat5(
                        text.as_str(),
                        gap_before(i),
                        quote(fields[i].name.as_str()).as_str(),
                        ": ",
                        item.as_str(),
                    );
                    i = i + 1;
                }
                cat5(
                    "Record { record: ",
                    usize_decimal(*record).as_str(),
                    ", fields: {",
                    text.as_str(),
                    "} }",
                )
            },
            RtVal::Obj { class, fields } => cat5(
                "Obj { class: ",
                usize_decimal(*class).as_str(),
                ", fields: ",
                self.object_text(*fields, depth).as_str(),
                " }",
            ),
            RtVal::Ptr(a, o) => cat5(
                "Ptr(",
                signed_decimal(*a).as_str(),
                ", ",
                signed_decimal(*o).as_str(),
                ")",
            ),
            RtVal::ResMap(id) => cat3("ResMap(", self.map_text(*id).as_str(), ")"),
            RtVal::Unit => owned("Unit"),
        }
    }

    /// The value in diagnostics.
    pub fn show(&self, v: &RtVal) -> (r: String)
        ensures
            r@ == shown(self@, v@),
    {
        self.value_text(v, self.depth())
    }
}

impl Misfit {
    /// The refusal, with the value shown as `heap` holds it.
    pub fn payload_mismatch(&self, heap: &Heap) -> (r: Trap)
        ensures
            r@ == misfit_trap(heap@, self@),
    {
        Trap::undefined(
            self.span,
            cat7(
                "interp.array_payload_mismatch: ",
                self.role.as_str(),
                " ",
                heap.show(&self.value).as_str(),
                " does not inhabit the array payload `",
                self.payload.name().as_str(),
                "`",
            ),
        )
    }
}

} // verus!
