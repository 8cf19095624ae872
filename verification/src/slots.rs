//! Tables from offsets to values.
use vstd::prelude::*;

use crate::repr::{group_views, opt_view, views};

verus! {

broadcast use group_views;

/// One offset and the value that stands there.
#[derive(Debug)]
pub struct Slot<T> {
    pub start: i128,
    pub value: T,
}

pub ghost struct SlotV<V> {
    pub start: int,
    pub value: V,
}

impl<T: View> View for Slot<T> {
    type V = SlotV<T::V>;

    open spec fn view(&self) -> SlotV<T::V> {
        SlotV { start: self.start as int, value: self.value@ }
    }
}

/// The first slot of an offset, at `i` or later.
pub open spec fn slot_at<V>(s: Seq<SlotV<V>>, start: int, i: nat) -> Option<nat>
    decreases s.len() - i,
{
    if i >= s.len() {
        None
    } else if s[i as int].start == start {
        Some(i)
    } else {
        slot_at(s, start, i + 1)
    }
}

/// The value at an offset.
pub open spec fn slot_value<V>(s: Seq<SlotV<V>>, start: int) -> Option<V> {
    match slot_at(s, start, 0) {
        Some(i) => Some(s[i as int].value),
        None => None,
    }
}

/// The table with a value at an offset, in place of the value that stood there.
pub open spec fn put_slot<V>(s: Seq<SlotV<V>>, start: int, value: V) -> Seq<SlotV<V>> {
    match slot_at(s, start, 0) {
        Some(i) => s.update(i as int, SlotV { start, value }),
        None => s.push(SlotV { start, value }),
    }
}

/// The table with nothing at an offset.
pub open spec fn drop_slot<V>(s: Seq<SlotV<V>>, start: int) -> Seq<SlotV<V>> {
    match slot_at(s, start, 0) {
        Some(i) => s.remove(i as int),
        None => s,
    }
}

pub fn slot_position<T: View>(v: &Vec<Slot<T>>, start: i128) -> (r: Option<usize>)
    ensures
        match slot_at(views(v@), start as int, 0) {
            Some(i) => r == Some(i as usize) && i < v@.len() && i <= usize::MAX,
            None => r is None,
        },
{
    let n: usize = v.len();
    let mut i: usize = 0;
    while i < n
        invariant
            n == v@.len(),
            i <= n,
            slot_at(views(v@), start as int, 0) == slot_at(views(v@), start as int, i as nat),
        decreases n - i,
    {
        assert(views(v@)[i as int] == v@[i as int]@);
        if v[i].start == start {
            return Some(i);
        }
        i = i + 1;
    }
    None
}

pub fn find_slot<'a, T: View>(v: &'a Vec<Slot<T>>, start: i128) -> (r: Option<&'a T>)
    ensures
        match slot_value(views(v@), start as int) {
            Some(x) => r matches Some(y) && y@ == x,
            None => r is None,
        },
{
    match slot_position(v, start) {
        Some(i) => Some(&v[i].value),
        None => None,
    }
}

pub fn set_slot<T: View>(v: &mut Vec<Slot<T>>, start: i128, value: T)
    ensures
        views(final(v)@) == put_slot(views(old(v)@), start as int, value@),
{
    match slot_position(v, start) {
        Some(i) => {
            v.set(i, Slot { start, value });
        },
        None => {
            v.push(Slot { start, value });
        },
    }
}

pub fn take_slot<T: View>(v: &mut Vec<Slot<T>>, start: i128) -> (r: Option<T>)
    ensures
        opt_view(r) == slot_value(views(old(v)@), start as int),
        views(final(v)@) == drop_slot(views(old(v)@), start as int),
{
    match slot_position(v, start) {
        Some(i) => {
            let ghost before = v@;
            let slot = v.remove(i);
            assert(views(v@) =~= views(before).remove(i as int));
            Some(slot.value)
        },
        None => None,
    }
}

pub proof fn lemma_slot_at<V>(s: Seq<SlotV<V>>, start: int, i: nat)
    ensures
        match slot_at(s, start, i) {
            Some(k) => i <= k < s.len() && s[k as int].start == start,
            None => forall|j: int| i <= j < s.len() ==> (#[trigger] s[j]).start != start,
        },
    decreases s.len() - i,
{
    if i < s.len() && s[i as int].start != start {
        lemma_slot_at(s, start, i + 1);
    }
}

} // verus!
