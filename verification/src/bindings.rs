//! Tables from names to values.
use vstd::prelude::*;

use crate::repr::{group_views, opt_view, views, Repr};
use crate::text::{owned, same_text};

verus! {

broadcast use group_views;

/// One name and the value it is bound to.
#[derive(Debug)]
pub struct Binding<T> {
    pub name: String,
    pub value: T,
}

pub ghost struct BindV<V> {
    pub name: Seq<char>,
    pub value: V,
}

impl<T: View> View for Binding<T> {
    type V = BindV<T::V>;

    open spec fn view(&self) -> BindV<T::V> {
        BindV { name: self.name@, value: self.value@ }
    }
}

impl<T: Repr> Repr for Binding<T> {
    fn copy(&self) -> (r: Self) {
        Binding { name: self.name.clone(), value: self.value.copy() }
    }

    fn same(&self, other: &Self) -> (r: bool) {
        self.name == other.name && self.value.same(&other.value)
    }
}

/// The first entry of a name, at `i` or later.
pub open spec fn entry_at<V>(s: Seq<BindV<V>>, name: Seq<char>, i: nat) -> Option<nat>
    decreases s.len() - i,
{
    if i >= s.len() {
        None
    } else if s[i as int].name == name {
        Some(i)
    } else {
        entry_at(s, name, i + 1)
    }
}

/// The value that a name is bound to.
pub open spec fn value_of<V>(s: Seq<BindV<V>>, name: Seq<char>) -> Option<V> {
    match entry_at(s, name, 0) {
        Some(i) => Some(s[i as int].value),
        None => None,
    }
}

/// The table with a name bound to a value, in place of the value it had.
pub open spec fn bind<V>(s: Seq<BindV<V>>, name: Seq<char>, value: V) -> Seq<BindV<V>> {
    match entry_at(s, name, 0) {
        Some(i) => s.update(i as int, BindV { name, value }),
        None => s.push(BindV { name, value }),
    }
}

/// The table without a name.
pub open spec fn unbind<V>(s: Seq<BindV<V>>, name: Seq<char>) -> Seq<BindV<V>> {
    match entry_at(s, name, 0) {
        Some(i) => s.remove(i as int),
        None => s,
    }
}

/// No name is bound twice.
pub open spec fn distinct<V>(s: Seq<BindV<V>>) -> bool {
    forall|i: int, j: int|
        0 <= i < j < s.len() ==> (#[trigger] s[i]).name != (#[trigger] s[j]).name
}

pub proof fn lemma_entry_at<V>(s: Seq<BindV<V>>, name: Seq<char>, i: nat)
    ensures
        match entry_at(s, name, i) {
            Some(k) => i <= k < s.len() && s[k as int].name == name && forall|j: int|
                i <= j < k ==> (#[trigger] s[j]).name != name,
            None => forall|j: int| i <= j < s.len() ==> (#[trigger] s[j]).name != name,
        },
    decreases s.len() - i,
{
    if i < s.len() && s[i as int].name != name {
        lemma_entry_at(s, name, i + 1);
    }
}

/// After a binding, its name has the new value, every other name has the value it had, and
/// names stay distinct.
pub proof fn law_bind<V>(s: Seq<BindV<V>>, name: Seq<char>, value: V, other: Seq<char>)
    ensures
        value_of(bind(s, name, value), name) == Some(value),
        other != name ==> value_of(bind(s, name, value), other) == value_of(s, other),
        distinct(s) ==> distinct(bind(s, name, value)),
{
    let t = bind(s, name, value);
    lemma_entry_at(s, name, 0);
    lemma_entry_at(s, other, 0);
    lemma_entry_at(t, name, 0);
    lemma_entry_at(t, other, 0);
    match (entry_at(s, other, 0), entry_at(t, other, 0)) {
        (Some(a), Some(b)) => {
            if other != name {
                if a < b {
                    assert(t[a as int].name != other);
                }
                if b < a {
                    assert(s[b as int].name != other);
                }
            }
        },
        (Some(a), None) => {
            assert(t[a as int].name != other);
        },
        (None, Some(b)) => {
            if other != name {
                if b < s.len() {
                    assert(s[b as int].name != other);
                }
            }
        },
        (None, None) => {},
    }
    match (entry_at(s, name, 0), entry_at(t, name, 0)) {
        (Some(a), Some(b)) => {
            assert(t[a as int].name == name);
            if b < a {
                assert(s[b as int].name != name);
            }
        },
        (None, Some(b)) => {
            assert(t[s.len() as int].name == name);
            if b < s.len() {
                assert(s[b as int].name != name);
            }
        },
        (Some(a), None) => {
            assert(t[a as int].name != name);
        },
        (None, None) => {
            assert(t[s.len() as int].name != name);
        },
    }
}

/// In a table of distinct names, a name that is removed is bound no more, and every other name
/// has the value it had.
pub proof fn law_unbind<V>(s: Seq<BindV<V>>, name: Seq<char>, other: Seq<char>)
    requires
        distinct(s),
    ensures
        value_of(unbind(s, name), name) is None,
        other != name ==> value_of(unbind(s, name), other) == value_of(s, other),
        distinct(unbind(s, name)),
{
    let t = unbind(s, name);
    lemma_entry_at(s, name, 0);
    lemma_entry_at(s, other, 0);
    lemma_entry_at(t, name, 0);
    lemma_entry_at(t, other, 0);
    match entry_at(s, name, 0) {
        Some(k) => {
            assert forall|j: int| 0 <= j < t.len() implies (#[trigger] t[j]).name != name by {
                if j < k {
                    assert(t[j] == s[j]);
                } else {
                    assert(t[j] == s[j + 1]);
                }
            }
            if other != name {
                match entry_at(s, other, 0) {
                    Some(a) => {
                        let moved: int = if a < k {
                            a as int
                        } else {
                            a - 1
                        };
                        assert(t[moved] == s[a as int]);
                        match entry_at(t, other, 0) {
                            Some(b) => {
                                if b < moved {
                                    let back: int = if b < k {
                                        b as int
                                    } else {
                                        (b + 1) as int
                                    };
                                    assert(t[b as int] == s[back]);
                                }
                                assert(b == moved);
                            },
                            None => {
                                assert(t[moved].name != other);
                            },
                        }
                    },
                    None => {
                        match entry_at(t, other, 0) {
                            Some(b) => {
                                let back: int = if b < k {
                                    b as int
                                } else {
                                    (b + 1) as int
                                };
                                assert(t[b as int] == s[back]);
                            },
                            None => {},
                        }
                    },
                }
            }
        },
        None => {},
    }
}

pub proof fn lemma_unbind_len<V>(s: Seq<BindV<V>>, name: Seq<char>)
    ensures
        value_of(s, name) is Some ==> unbind(s, name).len() == s.len() - 1,
        value_of(s, name) is None ==> unbind(s, name) == s,
{
    lemma_entry_at(s, name, 0);
}

/// The position of a name.
pub fn position<T: View>(v: &Vec<Binding<T>>, name: &str) -> (r: Option<usize>)
    ensures
        match entry_at(views(v@), name@, 0) {
            Some(i) => r == Some(i as usize) && i < v@.len() && i <= usize::MAX,
            None => r is None,
        },
{
    let n: usize = v.len();
    let mut i: usize = 0;
    while i < n
        invariant
            n == v@.len(),
            i <= n,
            entry_at(views(v@), name@, 0) == entry_at(views(v@), name@, i as nat),
        decreases n - i,
    {
        if same_text(v[i].name.as_str(), name) {
            return Some(i);
        }
        i = i + 1;
    }
    None
}

/// The value of a name.
pub fn find<'a, T: View>(v: &'a Vec<Binding<T>>, name: &str) -> (r: Option<&'a T>)
    ensures
        opt_view(r) == value_of(views(v@), name@),
{
    match position(v, name) {
        Some(i) => Some(&v[i].value),
        None => None,
    }
}

/// Binds a name.
pub fn put<T: View>(v: &mut Vec<Binding<T>>, name: &str, value: T)
    ensures
        views(final(v)@) == bind(views(old(v)@), name@, value@),
{
    match position(v, name) {
        Some(i) => {
            v.set(i, Binding { name: owned(name), value });
        },
        None => {
            v.push(Binding { name: owned(name), value });
        },
    }
}

/// Takes a name and its value out.
pub fn take<T: View>(v: &mut Vec<Binding<T>>, name: &str) -> (r: Option<T>)
    ensures
        opt_view(r) == value_of(views(old(v)@), name@),
        views(final(v)@) == unbind(views(old(v)@), name@),
{
    match position(v, name) {
        Some(i) => {
            let ghost before = v@;
            let entry = v.remove(i);
            assert(views(v@) =~= views(before).remove(i as int));
            Some(entry.value)
        },
        None => None,
    }
}

} // verus!
