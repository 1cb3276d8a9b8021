use crate::heap_array::{is_copy_of, HeapArray};
use vstd::prelude::*;

verus! {

/// The last `k` elements of `s`, or the whole of `s` when it has no more than `k`.
pub open spec fn newest<T>(s: Seq<T>, k: nat) -> Seq<T> {
    if s.len() <= k {
        s
    } else {
        s.subrange(s.len() - k, s.len() as int)
    }
}

/// Keeping the newest `k` values before a push keeps the same values as
/// keeping them after it.
proof fn lemma_newest_push<T>(s: Seq<T>, v: T, k: nat)
    ensures
        newest(newest(s, k).push(v), k) == newest(s.push(v), k),
{
    assert(newest(newest(s, k).push(v), k) =~= newest(s.push(v), k));
}

/// Writing `capacity` values into an empty buffer, one more than it can
/// hold, drops the first of them and keeps the others in the order written,
/// whether they are written one by one or all at once.
pub proof fn lemma_write_past_full<T>(values: Seq<T>, capacity: nat)
    requires
        capacity >= 1,
        values.len() == capacity,
    ensures
        newest(Seq::<T>::empty() + values, (capacity - 1) as nat) == values.drop_first(),
        newest(
            newest(
                Seq::<T>::empty() + values.take(capacity - 1),
                (capacity - 1) as nat,
            ).push(values.last()),
            (capacity - 1) as nat,
        ) == values.drop_first(),
{
    let k = (capacity - 1) as nat;
    assert(Seq::<T>::empty() + values =~= values);
    assert(newest(values, k) =~= values.drop_first());
    assert(Seq::<T>::empty() + values.take(capacity - 1) =~= values.take(capacity - 1));
    assert(newest(values.take(capacity - 1), k) =~= values.take(capacity - 1));
    assert(values.take(capacity - 1).push(values.last()) =~= values);
}

/// The slot that follows slot `i` in a circle of `c` slots.
pub open spec fn next_slot(i: int, c: int) -> int {
    if i + 1 == c {
        0
    } else {
        i + 1
    }
}

/// A bounded first-in first-out queue kept in one array used as a circle.
///
/// Slots `next_read` to `last_write`, walking forward round the circle, hold
/// the values not yet read; the slot after `last_write` is always free, so at
/// most `capacity - 1` values wait at a time. A write into a full buffer
/// drops the oldest waiting value.
pub struct RingBuffer<T> {
    next_read: usize,
    last_write: usize,
    data: HeapArray<T>,
}

impl<T> RingBuffer<T> {
    #[verifier::type_invariant]
    spec fn inv(self) -> bool {
        &&& 0 < self.data@.len()
        &&& self.next_read < self.data@.len()
        &&& self.last_write < self.data@.len()
    }

    /// The length of the backing array, fixed at construction.
    pub closed spec fn capacity(self) -> nat {
        self.data@.len()
    }

    /// How many values wait to be read.
    spec fn pending_len(self) -> nat {
        let c = self.data@.len() as int;
        let e = next_slot(self.last_write as int, c);
        if self.next_read <= e {
            (e - self.next_read) as nat
        } else {
            (e + c - self.next_read) as nat
        }
    }

    /// The slot that holds the `i`-th waiting value.
    spec fn slot(self, i: int) -> int {
        let c = self.data@.len() as int;
        if self.next_read + i < c {
            self.next_read + i
        } else {
            self.next_read + i - c
        }
    }
}

impl<T> View for RingBuffer<T> {
    /// The values waiting to be read, oldest first.
    type V = Seq<T>;

    closed spec fn view(&self) -> Seq<T> {
        Seq::new(self.pending_len(), |i: int| self.data@[self.slot(i)])
    }
}

/// The slot that follows slot `i` among `len` slots.
fn advance(i: usize, len: usize) -> (r: usize)
    requires
        i < len,
    ensures
        r == next_slot(i as int, len as int),
{
    proof {
        if i + 1 == len {
            vstd::arithmetic::div_mod::lemma_mod_self_0(len as int);
        } else {
            vstd::arithmetic::div_mod::lemma_small_mod((i + 1) as nat, len as nat);
        }
    }
    (i + 1) % len
}

impl<T: Clone> RingBuffer<T> {
    /// A buffer whose backing array is a copy of `slice`, which must not be
    /// empty. The buffer starts with nothing waiting: the copied values fill
    /// the slots but are never read.
    pub fn from_slice(slice: &[T]) -> (r: Self)
        requires
            slice@.len() > 0,
        ensures
            r.capacity() == slice@.len(),
            r@ == Seq::<T>::empty(),
    {
        let data = HeapArray::from_slice(slice);
        let r = RingBuffer { next_read: 0, last_write: slice.len() - 1, data };
        proof {
            assert(r@ =~= Seq::<T>::empty());
        }
        r
    }

    /// Reads every waiting value, oldest first, and returns clones of them.
    pub fn to_vec(&mut self) -> (r: Vec<T>)
        ensures
            final(self).capacity() == old(self).capacity(),
            final(self)@ == Seq::<T>::empty(),
            is_copy_of(r@, old(self)@),
    {
        let refs = self.read_all();
        let mut r: Vec<T> = Vec::with_capacity(refs.len());
        let mut i: usize = 0;
        while i < refs.len()
            invariant
                i <= refs@.len(),
                refs@.len() == old(self)@.len(),
                forall|j: int| 0 <= j < refs@.len() ==> *refs@[j] == old(self)@[j],
                r@.len() == i,
                forall|j: int| 0 <= j < i ==> cloned::<T>(old(self)@[j], #[trigger] r@[j]),
            decreases refs@.len() - i,
        {
            r.push(refs[i].clone());
            i = i + 1;
        }
        r
    }
}

impl<T> RingBuffer<T> {
    /// The oldest waiting value, which stops waiting, or `None` when nothing waits.
    pub fn read(&mut self) -> (r: Option<&T>)
        ensures
            final(self).capacity() == old(self).capacity(),
            old(self)@.len() == 0 ==> r is None && final(self)@ == old(self)@,
            old(self)@.len() > 0 ==> r == Some(&old(self)@[0]) && final(self)@ == old(
                self,
            )@.drop_first(),
    {
        proof {
            use_type_invariant(&*self);
        }
        let len = self.data.len();
        if self.next_read == advance(self.last_write, len) {
            None
        } else {
            let value = self.data.index(self.next_read);
            self.next_read = advance(self.next_read, len);
            proof {
                assert(self@ =~= old(self)@.drop_first());
            }
            Some(value)
        }
    }

    /// Puts `value` in the queue; when `capacity - 1` values already wait, the
    /// oldest of them is dropped.
    pub fn write(&mut self, value: T)
        ensures
            final(self).capacity() == old(self).capacity(),
            final(self)@ == newest(old(self)@.push(value), (old(self).capacity() - 1) as nat),
    {
        proof {
            use_type_invariant(&*self);
        }
        let len = self.data.len();
        let target = advance(self.last_write, len);
        *self.data.index_mut(target) = value;
        self.last_write = target;
        if self.next_read == advance(target, len) {
            self.next_read = advance(self.next_read, len);
        }
        proof {
            let s = old(self)@.push(value);
            let k = (old(self).capacity() - 1) as nat;
            assert(self@ =~= newest(s, k));
        }
    }

    /// Reads every waiting value, oldest first; nothing waits afterwards.
    pub fn read_all(&mut self) -> (r: Vec<&T>)
        ensures
            final(self).capacity() == old(self).capacity(),
            final(self)@ == Seq::<T>::empty(),
            r@.len() == old(self)@.len(),
            forall|j: int| 0 <= j < r@.len() ==> *r@[j] == old(self)@[j],
    {
        proof {
            use_type_invariant(&*self);
        }
        let len = self.data.len();
        let mut r: Vec<&T> = Vec::new();
        while self.next_read != advance(self.last_write, len)
            invariant
                len == self.data@.len(),
                self.next_read < len,
                self.last_write < len,
                self.capacity() == old(self).capacity(),
                r@.len() + self@.len() == old(self)@.len(),
                forall|j: int| 0 <= j < r@.len() ==> *r@[j] == old(self)@[j],
                self@ == old(self)@.subrange(r@.len() as int, old(self)@.len() as int),
            decreases self@.len(),
        {
            let ghost before = self@;
            let ghost n = r@.len();
            proof {
                assert(before[0] == self.data@[self.next_read as int]);
                assert(before[0] == old(self)@[n as int]);
            }
            r.push(self.data.index(self.next_read));
            self.next_read = advance(self.next_read, len);
            proof {
                assert(self@ =~= before.drop_first());
                assert(self@ =~= old(self)@.subrange(r@.len() as int, old(self)@.len() as int));
            }
        }
        r
    }

    /// Writes each of `values` in turn, as `write` does.
    pub fn write_all(&mut self, values: Vec<T>)
        ensures
            final(self).capacity() == old(self).capacity(),
            final(self)@ == newest(old(self)@ + values@, (old(self).capacity() - 1) as nat),
    {
        proof {
            use_type_invariant(&*self);
            assert(old(self)@ + values@.take(0) =~= old(self)@);
        }
        for value in it: values
            invariant
                self.capacity() == old(self).capacity(),
                it.seq() == values@,
                self@ == newest(
                    old(self)@ + values@.take(it.index() as int),
                    (old(self).capacity() - 1) as nat,
                ),
        {
            let ghost done = old(self)@ + values@.take(it.index() as int);
            self.write(value);
            proof {
                lemma_newest_push(done, value, (old(self).capacity() - 1) as nat);
                assert(old(self)@ + values@.take(it.index() + 1) =~= done.push(value));
            }
        }
    }
}

} // verus!
