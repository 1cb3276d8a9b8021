use vstd::prelude::*;

verus! {

/// An array whose length is chosen once, at construction, and never changes.
pub struct HeapArray<T> {
    data: Vec<T>,
}

/// The same container under its second name.
pub type RuntimeArray<T> = HeapArray<T>;

impl<T> View for HeapArray<T> {
    type V = Seq<T>;

    closed spec fn view(&self) -> Seq<T> {
        self.data@
    }
}

/// `copy` holds, in order, one clone of each element of `source`.
pub open spec fn is_copy_of<T: Clone>(copy: Seq<T>, source: Seq<T>) -> bool {
    &&& copy.len() == source.len()
    &&& forall|i: int| 0 <= i < source.len() ==> cloned::<T>(source[i], #[trigger] copy[i])
}

/// `fill` holds `len` elements, each a clone of `value`.
pub open spec fn is_fill_of<T: Clone>(fill: Seq<T>, value: T, len: nat) -> bool {
    &&& fill.len() == len
    &&& forall|i: int| 0 <= i < len ==> cloned::<T>(value, #[trigger] fill[i])
}

/// Every clone of a value of type `T` equals it.
pub open spec fn clone_is_exact<T: Clone>() -> bool {
    forall|a: T, b: T| #[trigger] cloned::<T>(a, b) ==> a == b
}

/// Copying a sequence into an array and viewing the array whole gives the
/// same sequence back, in the same order, for an element type whose clones
/// equal their originals.
pub proof fn lemma_copy_is_source<T: Clone>(copy: Seq<T>, source: Seq<T>)
    requires
        is_copy_of(copy, source),
        clone_is_exact::<T>(),
    ensures
        copy == source,
{
    assert(copy =~= source);
}

/// An array filled with `len` clones of `value` holds `value` at every index,
/// for an element type whose clones equal their originals.
pub proof fn lemma_fill_is_value<T: Clone>(fill: Seq<T>, value: T, len: nat)
    requires
        is_fill_of(fill, value, len),
        clone_is_exact::<T>(),
    ensures
        fill == Seq::new(len, |i: int| value),
{
    assert(fill =~= Seq::new(len, |i: int| value));
}

impl<T: Clone> HeapArray<T> {
    /// An array of `len` clones of `value`; an empty array when `len` is 0.
    pub fn new(value: T, len: usize) -> (r: Self)
        ensures
            is_fill_of(r@, value, len as nat),
    {
        let mut data: Vec<T> = Vec::with_capacity(len);
        let mut i: usize = 0;
        while i < len
            invariant
                i <= len,
                data@.len() == i,
                forall|j: int| 0 <= j < i ==> cloned::<T>(value, #[trigger] data@[j]),
            decreases len - i,
        {
            data.push(value.clone());
            i = i + 1;
        }
        HeapArray { data }
    }

    /// An array holding a clone of each element of `slice`, in order.
    pub fn from_slice(slice: &[T]) -> (r: Self)
        ensures
            is_copy_of(r@, slice@),
    {
        let len = slice.len();
        let mut data: Vec<T> = Vec::with_capacity(len);
        let mut i: usize = 0;
        while i < len
            invariant
                i <= len,
                len == slice@.len(),
                data@.len() == i,
                forall|j: int| 0 <= j < i ==> cloned::<T>(slice@[j], #[trigger] data@[j]),
            decreases len - i,
        {
            data.push(slice[i].clone());
            i = i + 1;
        }
        HeapArray { data }
    }

    /// A growable vector holding a clone of each element, in order.
    pub fn to_vec(&self) -> (r: Vec<T>)
        ensures
            is_copy_of(r@, self@),
    {
        self.data.clone()
    }
}

impl<T: Clone> Clone for HeapArray<T> {
    /// A second array with storage of its own, holding a clone of each element.
    fn clone(&self) -> (r: Self)
        ensures
            is_copy_of(r@, self@),
    {
        HeapArray { data: self.data.clone() }
    }
}

impl<T> HeapArray<T> {
    /// The number of elements, fixed at construction.
    pub fn len(&self) -> (r: usize)
        ensures
            r == self@.len(),
    {
        self.data.len()
    }

    /// Whether the array holds no element.
    pub fn is_empty(&self) -> (r: bool)
        ensures
            r <==> self@.len() == 0,
    {
        self.data.len() == 0
    }

    /// The whole array, read-only.
    pub fn as_slice(&self) -> (r: &[T])
        ensures
            r@ == self@,
    {
        self.data.as_slice()
    }

    /// The whole array, writable in place; its length cannot change through it.
    pub fn as_mut_slice(&mut self) -> (r: &mut [T])
        ensures
            r@ == old(self)@,
            final(r)@ == final(self)@,
    {
        self.data.as_mut_slice()
    }

    /// The element at `index`, or `None` when `index` is past the end.
    pub fn get(&self, index: usize) -> (r: Option<&T>)
        ensures
            index < self@.len() ==> r == Some(&self@[index as int]),
            index >= self@.len() ==> r is None,
    {
        if index < self.data.len() {
            Some(&self.data[index])
        } else {
            None
        }
    }

    /// The element at `index`, writable in place, or `None` when `index` is
    /// past the end.
    pub fn get_mut(&mut self, index: usize) -> (r: Option<&mut T>)
        ensures
            index < old(self)@.len() ==> r is Some && *r->0 == old(self)@[index as int]
                && final(self)@ == old(self)@.update(index as int, *final(r->0)),
            index >= old(self)@.len() ==> r is None && final(self)@ == old(self)@,
    {
        if index < self.data.len() {
            Some(&mut self.data[index])
        } else {
            None
        }
    }

    /// The element at `index`, which must be in bounds.
    pub fn index(&self, index: usize) -> (r: &T)
        requires
            index < self@.len(),
        ensures
            *r == self@[index as int],
    {
        &self.data[index]
    }

    /// The element at `index`, which must be in bounds, writable in place.
    pub fn index_mut(&mut self, index: usize) -> (r: &mut T)
        requires
            index < old(self)@.len(),
        ensures
            *r == old(self)@[index as int],
            final(self)@ == old(self)@.update(index as int, *final(r)),
        no_unwind
    {
        &mut self.data[index]
    }
}

impl<T> HeapArray<T> {
    /// A walk over the elements by shared reference, in index order.
    pub fn iter(&self) -> (r: Iter<'_, T>)
        ensures
            r.remaining() == self@,
    {
        let r = Iter { items: self.data.as_slice(), pos: 0 };
        proof {
            assert(r.remaining() =~= self@);
        }
        r
    }

    /// A walk over the elements by mutable reference, in index order.
    pub fn iter_mut(&mut self) -> (r: IterMut<'_, T>)
        ensures
            r.remaining() == old(self)@,
            final(self)@ == final(r.items)@,
    {
        IterMut { items: self.data.as_mut_slice() }
    }

    /// A walk that takes the elements out of the array, in index order.
    /// Elements that are never taken are dropped with the walk.
    pub fn into_iter(self) -> (r: IntoIter<T>)
        ensures
            r.remaining() == self@,
    {
        let mut data = self.data;
        let mut reversed: Vec<T> = Vec::with_capacity(data.len());
        while data.len() > 0
            invariant
                data@ + reversed@.reverse() == self@,
            decreases data@.len(),
        {
            let item = data.pop().unwrap();
            reversed.push(item);
            proof {
                assert(data@ + reversed@.reverse() =~= self@);
            }
        }
        IntoIter { reversed }
    }
}

impl<T> Default for HeapArray<T> {
    /// The empty array.
    fn default() -> (r: Self)
        ensures
            r@.len() == 0,
    {
        HeapArray { data: Vec::new() }
    }
}

} // verus!

verus! {

/// Walks an array by shared reference, front to back.
pub struct Iter<'a, T> {
    items: &'a [T],
    pos: usize,
}

impl<'a, T> Iter<'a, T> {
    #[verifier::type_invariant]
    spec fn inv(self) -> bool {
        self.pos <= self.items@.len()
    }

    /// The elements not yet yielded, in the order they will come.
    pub closed spec fn remaining(self) -> Seq<T> {
        self.items@.subrange(self.pos as int, self.items@.len() as int)
    }

    /// The next element, or `None` once every element has been yielded.
    pub fn next(&mut self) -> (r: Option<&'a T>)
        ensures
            old(self).remaining().len() == 0 ==> r is None && final(self).remaining()
                == old(self).remaining(),
            old(self).remaining().len() > 0 ==> r == Some(&old(self).remaining()[0])
                && final(self).remaining() == old(self).remaining().drop_first(),
    {
        proof {
            use_type_invariant(&*self);
        }
        if self.pos == self.items.len() {
            None
        } else {
            let item = &self.items[self.pos];
            self.pos = self.pos + 1;
            proof {
                assert(self.remaining() =~= old(self).remaining().drop_first());
            }
            Some(item)
        }
    }

    /// How many elements are left, as a lower and an upper bound.
    pub fn size_hint(&self) -> (r: (usize, Option<usize>))
        ensures
            r.0 == self.remaining().len(),
            r.1 == Some(r.0),
    {
        proof {
            use_type_invariant(self);
        }
        let n = self.items.len() - self.pos;
        (n, Some(n))
    }
}

/// Walks an array by mutable reference, front to back.
pub struct IterMut<'a, T> {
    /// The elements not yet yielded.
    pub items: &'a mut [T],
}

impl<'a, T> IterMut<'a, T> {
    /// The elements not yet yielded, in the order they will come.
    pub closed spec fn remaining(self) -> Seq<T> {
        self.items@
    }

    /// The next element, writable in place, or `None` once every element has
    /// been yielded.
    pub fn next(&mut self) -> (r: Option<&'a mut T>)
        ensures
            old(self).remaining().len() == 0 ==> r is None && final(old(self).items)@
                == old(self).remaining(),
            old(self).remaining().len() > 0 ==> r is Some && *r->0 == old(self).remaining()[0]
                && final(self).remaining() == old(self).remaining().drop_first()
                && final(old(self).items)@ == seq![*final(r->0)] + final(final(self).items)@,
    {
        let mut items: &'a mut [T] = &mut [];
        std::mem::swap(&mut self.items, &mut items);
        if items.len() == 0 {
            None
        } else {
            let (head, rest) = items.split_at_mut(1);
            self.items = rest;
            head.first_mut()
        }
    }

    /// How many elements are left, as a lower and an upper bound.
    pub fn size_hint(&self) -> (r: (usize, Option<usize>))
        ensures
            r.0 == self.remaining().len(),
            r.1 == Some(r.0),
    {
        let n = self.items.len();
        (n, Some(n))
    }
}

} // verus!

verus! {

/// Takes the elements out of an array, front to back.
pub struct IntoIter<T> {
    reversed: Vec<T>,
}

impl<T> IntoIter<T> {
    /// The elements not yet yielded, in the order they will come.
    pub closed spec fn remaining(self) -> Seq<T> {
        self.reversed@.reverse()
    }

    /// The next element, or `None` once every element has been yielded.
    pub fn next(&mut self) -> (r: Option<T>)
        ensures
            old(self).remaining().len() == 0 ==> r is None && final(self).remaining()
                == old(self).remaining(),
            old(self).remaining().len() > 0 ==> r == Some(old(self).remaining()[0])
                && final(self).remaining() == old(self).remaining().drop_first(),
    {
        let r = self.reversed.pop();
        proof {
            if r is Some {
                assert(self.remaining() =~= old(self).remaining().drop_first());
            }
        }
        r
    }

    /// How many elements are left, as a lower and an upper bound.
    pub fn size_hint(&self) -> (r: (usize, Option<usize>))
        ensures
            r.0 == self.remaining().len(),
            r.1 == Some(r.0),
    {
        let n = self.reversed.len();
        (n, Some(n))
    }
}

} // verus!
