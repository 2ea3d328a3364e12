//! A vector whose capacity is fixed at compile time.  When full, it can
//! be turned into a boxed slice of exactly that many elements.

use vstd::prelude::*;

verus! {

/// Like a vector, but it can never hold more than `N` elements.
pub struct FixedCapacityVec<T, const N: usize> {
    /// The elements stored so far; never more than `N`.
    data: Vec<T>,
}

impl<T, const N: usize> View for FixedCapacityVec<T, N> {
    type V = Seq<T>;

    closed spec fn view(&self) -> Seq<T> {
        self.data@
    }
}

/// Relies on `Vec::into_boxed_slice`: the boxed slice holds exactly the
/// vector's elements.
#[verifier::external_body]
fn vec_into_boxed_slice<T>(v: Vec<T>) -> (r: Box<[T]>)
    ensures
        r@ == v@,
{
    v.into_boxed_slice()
}

impl<T, const N: usize> FixedCapacityVec<T, N> {
    /// The capacity bound always holds.
    pub open spec fn spec_wf(&self) -> bool {
        self@.len() <= N
    }

    /// Create a new, empty vector capable of holding up to `N` values.
    pub fn new() -> (r: Self)
        ensures
            r@ == Seq::<T>::empty(),
            r.spec_wf(),
    {
        FixedCapacityVec { data: Vec::new() }
    }

    /// The number of values stored so far.
    pub fn len(&self) -> (r: usize)
        ensures
            r == self@.len(),
    {
        self.data.len()
    }

    /// True iff no value is stored.
    pub fn is_empty(&self) -> (r: bool)
        ensures
            r == (self@.len() == 0),
    {
        self.data.len() == 0
    }

    /// True iff the vector holds `N` values, its capacity.
    pub fn is_full(&self) -> (r: bool)
        ensures
            r == (self@.len() == N),
    {
        self.data.len() == N
    }

    /// Try to append a value; an error when the vector is already full.
    pub fn push_inner(&mut self, item: T) -> (r: Result<(), ()>)
        requires
            old(self).spec_wf(),
        ensures
            final(self).spec_wf(),
            old(self)@.len() < N ==> r == Ok::<(), ()>(()) && final(self)@ == old(self)@.push(
                item,
            ),
            old(self)@.len() == N ==> r == Err::<(), ()>(()) && final(self)@ == old(self)@,
    {
        if self.data.len() >= N {
            return Err(());
        }
        self.data.push(item);
        Ok(())
    }

    /// Append a value to a vector that is not yet full.
    pub fn push(&mut self, item: T)
        requires
            old(self).spec_wf(),
            old(self)@.len() < N,
        ensures
            final(self).spec_wf(),
            final(self)@ == old(self)@.push(item),
    {
        let r = self.push_inner(item);
        proof {
            assert(r is Ok);
        }
    }

    /// Turn a full vector into a boxed slice of its `N` elements; a
    /// vector that is not full is handed back unchanged.
    pub fn into_boxed_slice(self) -> (r: Result<Box<[T]>, Self>)
        ensures
            self@.len() == N ==> (r matches Ok(b) && b@ == self@),
            self@.len() != N ==> r == Err::<Box<[T]>, Self>(self),
    {
        if self.data.len() == N {
            Ok(vec_into_boxed_slice(self.data))
        } else {
            Err(self)
        }
    }
}

} // verus!
