use vstd::prelude::*;
use vstd::std_specs::iter::IteratorSpec;

verus! {

/// An SSZ progressive list (EIP-7916).
///
/// On the wire it is identical to a plain list; only merkleization differs,
/// which is why the type carries no capacity bound at all. Its model is the
/// sequence of its elements.
#[derive(Debug, PartialEq, Eq, Hash)]
pub struct ProgressiveList<T> {
    vec: Vec<T>,
}

impl<T> View for ProgressiveList<T> {
    type V = Seq<T>;

    closed spec fn view(&self) -> Seq<T> {
        self.vec@
    }
}

impl<T> Default for ProgressiveList<T> {
    fn default() -> (list: Self)
        ensures
            list@ == Seq::<T>::empty(),
    {
        ProgressiveList { vec: Vec::new() }
    }
}

impl<T> ProgressiveList<T> {
    /// An empty list.
    pub fn empty() -> (list: Self)
        ensures
            list@ == Seq::<T>::empty(),
    {
        ProgressiveList { vec: Vec::new() }
    }

    /// Wraps `vec`. This cannot fail: there is no capacity to exceed.
    pub fn new(vec: Vec<T>) -> (list: Self)
        ensures
            list@ == vec@,
    {
        ProgressiveList { vec }
    }

    /// The number of elements.
    pub fn len(&self) -> (n: usize)
        ensures
            n == self@.len(),
    {
        self.vec.len()
    }

    /// True if there are no elements.
    pub fn is_empty(&self) -> (b: bool)
        ensures
            b <==> self@.len() == 0,
    {
        self.vec.is_empty()
    }

    /// Appends an element.
    pub fn push(&mut self, value: T)
        ensures
            final(self)@ == old(self)@.push(value),
    {
        self.vec.push(value);
    }

    /// The underlying vector.
    pub fn into_vec(self) -> (vec: Vec<T>)
        ensures
            vec@ == self@,
    {
        self.vec
    }

    /// The elements as a slice.
    pub fn as_slice(&self) -> (s: &[T])
        ensures
            s@ == self@,
    {
        self.vec.as_slice()
    }

    /// The underlying vector, borrowed.
    pub(crate) fn as_vec(&self) -> (v: &Vec<T>)
        ensures
            v@ == self@,
    {
        &self.vec
    }

    /// The element at `index`.
    pub fn get(&self, index: usize) -> (r: Option<&T>)
        ensures
            index < self@.len() ==> r == Some(&self@[index as int]),
            index >= self@.len() ==> r is None,
    {
        if index < self.vec.len() {
            Some(&self.vec[index])
        } else {
            None
        }
    }

    /// The elements from `start` up to but not including `end`, which must be in bounds.
    pub fn slice(&self, start: usize, end: usize) -> (r: &[T])
        requires
            start <= end <= self@.len(),
        ensures
            r@ == self@.subrange(start as int, end as int),
    {
        &self.vec.as_slice()[start..end]
    }

    /// The element at `index`, which must be in bounds.
    pub fn index(&self, index: usize) -> (r: &T)
        requires
            index < self@.len(),
        ensures
            *r == self@[index as int],
    {
        &self.vec[index]
    }

    /// The element at `index`, which must be in bounds, to be changed in place.
    pub fn index_mut(&mut self, index: usize) -> (r: &mut T)
        requires
            index < old(self)@.len(),
        ensures
            *r == old(self)@[index as int],
            final(self)@ == old(self)@.update(index as int, *final(r)),
    {
        &mut self.vec[index]
    }

    /// The elements as a mutable slice.
    pub fn as_mut_slice(&mut self) -> (s: &mut [T])
        ensures
            s@ == old(self)@,
            final(s)@ == final(self)@,
    {
        self.vec.as_mut_slice()
    }

    /// Replaces the element at `index` with `value`.
    pub fn set(&mut self, index: usize, value: T)
        requires
            index < old(self)@.len(),
        ensures
            final(self)@ == old(self)@.update(index as int, value),
    {
        self.vec.set(index, value);
    }
}

impl<T: Clone> Clone for ProgressiveList<T> {
    fn clone(&self) -> (c: Self)
        ensures
            c@.len() == self@.len(),
            forall|i: int| 0 <= i < self@.len() ==> cloned::<T>(self@[i], #[trigger] c@[i]),
    {
        ProgressiveList { vec: self.vec.clone() }
    }
}

impl<T> core::ops::Deref for ProgressiveList<T> {
    type Target = [T];

    fn deref(&self) -> (s: &[T])
        ensures
            s@ == self@,
    {
        self.vec.as_slice()
    }
}

impl<T> AsRef<[T]> for ProgressiveList<T> {
    fn as_ref(&self) -> (s: &[T])
        ensures
            s@ == self@,
    {
        self.vec.as_slice()
    }
}

impl<T> IntoIterator for ProgressiveList<T> {
    type Item = T;
    type IntoIter = std::vec::IntoIter<T>;

    fn into_iter(self) -> (it: std::vec::IntoIter<T>)
        ensures
            it.remaining() == self@,
    {
        broadcast use vstd::std_specs::vec::axiom_spec_into_iter;

        self.vec.into_iter()
    }
}

impl<'a, T> IntoIterator for &'a ProgressiveList<T> {
    type Item = &'a T;
    type IntoIter = core::slice::Iter<'a, T>;

    fn into_iter(self) -> (it: core::slice::Iter<'a, T>)
        ensures
            it.remaining() == self@.map_values(|x: T| &x),
    {
        broadcast use vstd::std_specs::vec::axiom_spec_into_iter_borrowed;

        (&self.vec).into_iter()
    }
}

impl<T> From<Vec<T>> for ProgressiveList<T> {
    fn from(vec: Vec<T>) -> (list: Self)
        ensures
            list@ == vec@,
    {
        ProgressiveList { vec }
    }
}

impl<T> vstd::std_specs::convert::FromSpecImpl<Vec<T>> for ProgressiveList<T> {
    open spec fn obeys_from_spec() -> bool {
        true
    }

    closed spec fn from_spec(v: Vec<T>) -> Self {
        ProgressiveList { vec: v }
    }
}

impl<T> From<ProgressiveList<T>> for Vec<T> {
    fn from(list: ProgressiveList<T>) -> (vec: Vec<T>)
        ensures
            vec@ == list@,
    {
        list.vec
    }
}

impl<T> vstd::std_specs::convert::FromSpecImpl<ProgressiveList<T>> for Vec<T> {
    open spec fn obeys_from_spec() -> bool {
        true
    }

    closed spec fn from_spec(v: ProgressiveList<T>) -> Self {
        v.vec
    }
}

} // verus!
