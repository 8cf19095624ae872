//! Values that are copied and compared by what they stand for.
use vstd::prelude::*;

verus! {

/// A value whose copies and comparisons are judged by its view alone.
pub trait Repr: View + Sized {
    /// A value with the same view.
    fn copy(&self) -> (r: Self)
        ensures
            r@ == self@,
    ;

    /// Whether both values have the same view.
    fn same(&self, other: &Self) -> (r: bool)
        ensures
            r == (self@ == other@),
    ;
}

/// The views of a sequence of values, in order.
pub open spec fn views<T: View>(s: Seq<T>) -> Seq<T::V> {
    Seq::new(s.len(), |i: int| s[i]@)
}

/// The view of an optional value.
pub open spec fn opt_view<T: View>(o: Option<T>) -> Option<T::V> {
    match o {
        Some(v) => Some(v@),
        None => None,
    }
}

pub broadcast proof fn lemma_views_push<T: View>(s: Seq<T>, t: T)
    ensures
        #[trigger] views(s.push(t)) == views(s).push(t@),
{
    assert(views(s.push(t)) =~= views(s).push(t@));
}

pub broadcast proof fn lemma_views_add<T: View>(s: Seq<T>, t: Seq<T>)
    ensures
        #[trigger] views(s + t) == views(s) + views(t),
{
    assert(views(s + t) =~= views(s) + views(t));
}

pub broadcast proof fn lemma_views_update<T: View>(s: Seq<T>, i: int, t: T)
    requires
        0 <= i < s.len(),
    ensures
        #[trigger] views(s.update(i, t)) == views(s).update(i, t@),
{
    assert(views(s.update(i, t)) =~= views(s).update(i, t@));
}

pub broadcast proof fn lemma_views_empty<T: View>()
    ensures
        #[trigger] views(Seq::<T>::empty()) == Seq::<T::V>::empty(),
{
    assert(views(Seq::<T>::empty()) =~= Seq::<T::V>::empty());
}

pub broadcast proof fn lemma_views_index<T: View>(s: Seq<T>, i: int)
    requires
        0 <= i < s.len(),
    ensures
        #[trigger] views(s)[i] == s[i]@,
{
}

pub broadcast group group_views {
    lemma_views_push,
    lemma_views_add,
    lemma_views_update,
    lemma_views_empty,
    lemma_views_index,
}

/// A vector whose elements have the same views.
pub fn copy_vec<T: Repr>(v: &Vec<T>) -> (r: Vec<T>)
    ensures
        views(r@) == views(v@),
{
    broadcast use group_views;

    let mut out: Vec<T> = Vec::new();
    let n: usize = v.len();
    let mut i: usize = 0;
    while i < n
        invariant
            n == v@.len(),
            i <= n,
            views(out@) == views(v@).take(i as int),
        decreases n - i,
    {
        out.push(v[i].copy());
        assert(views(v@).take(i + 1) =~= views(v@).take(i as int).push(v@[i as int]@));
        i = i + 1;
    }
    assert(views(v@).take(n as int) =~= views(v@));
    out
}

/// Whether two slices hold values with the same views in the same order.
pub fn same_slice<T: Repr>(a: &[T], b: &[T]) -> (r: bool)
    ensures
        r == (views(a@) == views(b@)),
{
    let n: usize = a.len();
    if n != b.len() {
        assert(views(a@).len() != views(b@).len());
        return false;
    }
    let mut i: usize = 0;
    while i < n
        invariant
            n == a@.len(),
            n == b@.len(),
            i <= n,
            forall|k: int| 0 <= k < i ==> a@[k]@ == b@[k]@,
        decreases n - i,
    {
        if !a[i].same(&b[i]) {
            assert(views(a@)[i as int] != views(b@)[i as int]);
            return false;
        }
        i = i + 1;
    }
    assert(views(a@) =~= views(b@));
    true
}

/// Whether two vectors hold values with the same views in the same order.
pub fn same_vec<T: Repr>(a: &Vec<T>, b: &Vec<T>) -> (r: bool)
    ensures
        r == (views(a@) == views(b@)),
{
    same_slice(a.as_slice(), b.as_slice())
}

/// An optional value with the same view.
pub fn copy_opt<T: Repr>(o: &Option<T>) -> (r: Option<T>)
    ensures
        opt_view(r) == opt_view(*o),
{
    match o {
        Some(v) => Some(v.copy()),
        None => None,
    }
}

/// Whether two optional values have the same view.
pub fn same_opt<T: Repr>(a: &Option<T>, b: &Option<T>) -> (r: bool)
    ensures
        r == (opt_view(*a) == opt_view(*b)),
{
    match (a, b) {
        (Some(x), Some(y)) => x.same(y),
        (None, None) => true,
        _ => false,
    }
}

impl Repr for String {
    fn copy(&self) -> (r: Self) {
        self.clone()
    }

    fn same(&self, other: &Self) -> (r: bool) {
        *self == *other
    }
}

} // verus!
