//! Mathematical models of the kernel's values.
//!
//! Each type of the kernel has a view made of sequences, options and integers;
//! contracts speak of these views. The functions here lift a view to options
//! and sequences, and copy values without changing what they model.

use vstd::prelude::*;

verus! {

/// The models of a sequence of values, in order.
pub open spec fn views<T: View>(s: Seq<T>) -> Seq<T::V> {
    s.map_values(|x: T| x@)
}

/// The model of an optional value.
pub open spec fn opt_view<T: View>(o: Option<T>) -> Option<T::V> {
    match o {
        Some(x) => Some(x@),
        None => None,
    }
}

/// Modelling commutes with appending one value.
pub broadcast proof fn lemma_views_push<T: View>(s: Seq<T>, x: T)
    ensures
        #[trigger] views(s.push(x)) == views(s).push(x@),
{
    assert(views(s.push(x)) =~= views(s).push(x@));
}

/// Modelling commutes with concatenation.
pub broadcast proof fn lemma_views_add<T: View>(s: Seq<T>, t: Seq<T>)
    ensures
        #[trigger] views(s + t) == views(s) + views(t),
{
    assert(views(s + t) =~= views(s) + views(t));
}

/// Modelling keeps the length.
pub broadcast proof fn lemma_views_len<T: View>(s: Seq<T>)
    ensures
        #[trigger] views(s).len() == s.len(),
{
}

/// No values have no models.
pub broadcast proof fn lemma_views_empty<T: View>()
    ensures
        #[trigger] views(Seq::<T>::empty()) == Seq::<T::V>::empty(),
{
    assert(views(Seq::<T>::empty()) =~= Seq::<T::V>::empty());
}

/// Modelling commutes with taking a part.
pub broadcast proof fn lemma_views_subrange<T: View>(s: Seq<T>, i: int, j: int)
    requires
        0 <= i <= j <= s.len(),
    ensures
        #[trigger] views(s.subrange(i, j)) == views(s).subrange(i, j),
{
    assert(views(s.subrange(i, j)) =~= views(s).subrange(i, j));
}

/// Modelling commutes with replacing one value.
pub broadcast proof fn lemma_views_update<T: View>(s: Seq<T>, i: int, x: T)
    requires
        0 <= i < s.len(),
    ensures
        #[trigger] views(s.update(i, x)) == views(s).update(i, x@),
{
    assert(views(s.update(i, x)) =~= views(s).update(i, x@));
}

pub broadcast group group_views {
    lemma_views_push,
    lemma_views_add,
    lemma_views_len,
    lemma_views_empty,
    lemma_views_subrange,
    lemma_views_update,
}

/// A value that can be copied without changing its model.
pub trait Duplicate: View + Sized {
    /// A second value with the same model.
    fn duplicate(&self) -> (r: Self)
        ensures
            r@ == self@,
    ;
}

impl Duplicate for String {
    fn duplicate(&self) -> (r: Self) {
        self.clone()
    }
}

/// Copy every value of a vector.
pub fn duplicate_all<T: Duplicate>(v: &Vec<T>) -> (r: Vec<T>)
    ensures
        views(r@) == views(v@),
{
    duplicate_from(v, 0)
}

/// Copy the values of a vector from one index on.
pub fn duplicate_from<T: Duplicate>(v: &Vec<T>, start: usize) -> (r: Vec<T>)
    requires
        start <= v@.len(),
    ensures
        views(r@) == views(v@).skip(start as int),
{
    broadcast use group_views;

    let mut out: Vec<T> = Vec::new();
    let mut i: usize = start;
    assert(views(out@) =~= views(v@).subrange(start as int, start as int));
    while i < v.len()
        invariant
            start <= i <= v@.len(),
            views(out@) == views(v@).subrange(start as int, i as int),
        decreases v.len() - i,
    {
        broadcast use group_views;

        let item = v[i].duplicate();
        out.push(item);
        i = i + 1;
        assert(views(out@) =~= views(v@).subrange(start as int, i as int));
    }
    assert(views(v@).subrange(start as int, i as int) =~= views(v@).skip(start as int));
    out
}

/// Copy an optional value.
pub fn duplicate_opt<T: Duplicate>(o: &Option<T>) -> (r: Option<T>)
    ensures
        opt_view(r) == opt_view(*o),
{
    match o {
        Some(x) => Some(x.duplicate()),
        None => None,
    }
}

} // verus!
