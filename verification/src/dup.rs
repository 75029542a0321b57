//! Deep copies with a contract.

use vstd::prelude::*;

verus! {

/// A copy that is the same value.
pub trait Dup: DeepView + Sized {
    fn dup(&self) -> (r: Self)
        ensures
            r.deep_view() == self.deep_view(),
    ;
}

impl Dup for String {
    fn dup(&self) -> (r: Self) {
        self.clone()
    }
}

impl<T: Dup> Dup for Option<T> {
    fn dup(&self) -> (r: Self) {
        match self {
            Some(x) => Some(x.dup()),
            None => None,
        }
    }
}

impl<T: Dup> Dup for Vec<T> {
    fn dup(&self) -> (r: Self) {
        let r = dup_range(self.as_slice(), 0, self.len());
        assert(self.deep_view().subrange(0, self@.len() as int) =~= self.deep_view());
        r
    }
}

/// Copies of `items[from..to]`.
pub fn dup_range<T: Dup>(items: &[T], from: usize, to: usize) -> (r: Vec<T>)
    requires
        from <= to <= items@.len(),
    ensures
        r.deep_view() == items.deep_view().subrange(from as int, to as int),
{
    let mut out: Vec<T> = Vec::new();
    let mut i: usize = from;
    while i < to
        invariant
            from <= i <= to <= items@.len(),
            out@.len() == i - from,
            forall|j: int|
                0 <= j < out@.len() ==> (#[trigger] out@[j]).deep_view() == items@[from + j].deep_view(),
        decreases to - i,
    {
        out.push(items[i].dup());
        i = i + 1;
    }
    assert(out.deep_view() =~= items.deep_view().subrange(from as int, to as int));
    out
}

/// Copies of all items.
pub fn dup_all<T: Dup>(items: &[T]) -> (r: Vec<T>)
    ensures
        r.deep_view() == items.deep_view(),
{
    let r = dup_range(items, 0, items.len());
    assert(items.deep_view().subrange(0, items@.len() as int) =~= items.deep_view());
    r
}

/// Appends `x` to `v`.
pub fn push_last<T: DeepView>(v: &mut Vec<T>, x: T)
    ensures
        final(v).deep_view() == old(v).deep_view().push(x.deep_view()),
        final(v)@ == old(v)@.push(x),
{
    v.push(x);
    assert(v.deep_view() =~= old(v).deep_view().push(x.deep_view()));
}

/// Moves the items of `more` to the end of `v`.
pub fn push_all<T: DeepView>(v: &mut Vec<T>, more: Vec<T>)
    ensures
        final(v).deep_view() == old(v).deep_view() + more.deep_view(),
        final(v)@ == old(v)@ + more@,
{
    let mut rest = more;
    v.append(&mut rest);
    assert(v.deep_view() =~= old(v).deep_view() + more.deep_view());
}

} // verus!
