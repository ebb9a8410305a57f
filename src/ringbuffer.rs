use vstd::prelude::*;

verus! {

/// What a ring of capacity `s.len()` holds after `w` more writes: each write drops
/// the oldest element and appends the new one.
pub open spec fn after_writes<T>(s: Seq<T>, w: Seq<T>) -> Seq<T>
    decreases w.len(),
{
    if w.len() == 0 {
        s
    } else {
        after_writes(s, w.drop_last()).drop_first().push(w.last())
    }
}

/// A fixed-capacity, overwriting ring buffer.
///
/// The storage holds `2 * capacity` slots and every write lands in two of them,
/// `p` and `p + capacity`. Any window that ends at the latest write is then one
/// contiguous range of the storage, handed out without copying.
pub struct SliceableRingBuffer<T: Copy> {
    buffer: Vec<T>,
    write_position: usize,
    capacity: usize,
}

impl<T: Copy> View for SliceableRingBuffer<T> {
    type V = Seq<T>;

    /// The `capacity` most recent elements, oldest first.
    closed spec fn view(&self) -> Seq<T> {
        Seq::new(self.capacity as nat, |k: int| self.buffer@[self.write_position + k])
    }
}

impl<T: Copy> SliceableRingBuffer<T> {
    /// Storage of the right length, a position inside the first half, and each
    /// slot of the first half mirrored in the second.
    pub closed spec fn wf(&self) -> bool {
        &&& self.capacity > 0
        &&& 2 * self.capacity <= usize::MAX
        &&& self.buffer@.len() == 2 * self.capacity
        &&& self.write_position < self.capacity
        &&& forall|i: int|
            0 <= i < self.capacity ==> #[trigger] self.buffer@[i] == self.buffer@[i
                + self.capacity]
    }

    /// A ring of `capacity` slots, each holding `default_value`.
    pub fn new(capacity: usize, default_value: T) -> (r: Self)
        requires
            capacity > 0,
            2 * capacity <= usize::MAX,
        ensures
            r.wf(),
            r@ == Seq::new(capacity as nat, |k: int| default_value),
    {
        let mut buffer: Vec<T> = Vec::new();
        let n: usize = capacity * 2;
        while buffer.len() < n
            invariant
                buffer.len() <= n,
                forall|i: int| 0 <= i < buffer.len() ==> buffer@[i] == default_value,
            decreases n - buffer.len(),
        {
            buffer.push(default_value);
        }
        let r = SliceableRingBuffer { buffer, write_position: 0, capacity };
        assert(r@ =~= Seq::new(capacity as nat, |k: int| default_value));
        r
    }

    /// The number of elements the ring keeps.
    pub fn capacity(&self) -> (r: usize)
        requires
            self.wf(),
        ensures
            r as int == self@.len(),
            r > 0,
    {
        self.capacity
    }

    /// Stores `data` as the most recent element; the oldest one is dropped.
    pub fn write(&mut self, data: T)
        requires
            old(self).wf(),
        ensures
            final(self).wf(),
            final(self)@ == old(self)@.drop_first().push(data),
    {
        let ghost before = self@;
        let cap = self.capacity;
        let adjusted_position = self.write_position;
        self.buffer.set(adjusted_position, data);
        self.buffer.set(adjusted_position + cap, data);
        self.write_position = if adjusted_position + 1 == cap {
            0
        } else {
            adjusted_position + 1
        };
        assert forall|i: int| 0 <= i < self.capacity implies #[trigger] self.buffer@[i]
            == self.buffer@[i + self.capacity] by {
            if i != adjusted_position {
                assert(old(self).buffer@[i] == old(self).buffer@[i + cap]);
            }
        }
        assert forall|k: int| 0 <= k < cap implies #[trigger] self@[k] == before.drop_first().push(
            data,
        )[k] by {
            if k < cap - 1 {
                assert(before[k + 1] == old(self).buffer@[old(self).write_position + k + 1]);
                if old(self).write_position + 1 == cap {
                    assert(old(self).buffer@[k] == old(self).buffer@[k + cap]);
                }
            }
        }
        assert(self@ =~= before.drop_first().push(data));
    }

    /// All `capacity` most recent elements, oldest first.
    pub fn get_slice(&self) -> (r: &[T])
        requires
            self.wf(),
        ensures
            r@ == self@,
    {
        self.get_slice_with_len(self.capacity)
    }

    /// The `len` most recent elements, oldest first, as one contiguous slice.
    pub fn get_slice_with_len(&self, len: usize) -> (r: &[T])
        requires
            self.wf(),
            len <= self@.len(),
        ensures
            r@ == self@.subrange(self@.len() - len, self@.len() as int),
    {
        let cap = self.capacity;
        // the window starts `len` slots before the write position, wrapped into the
        // first half of the storage
        let start = if self.write_position >= len {
            self.write_position - len
        } else {
            self.write_position + (cap - len)
        };
        let storage = self.buffer.as_slice();
        let r = &storage[start..start + len];
        assert forall|j: int| 0 <= j < len implies #[trigger] r@[j] == self@.subrange(
            cap - len,
            cap as int,
        )[j] by {
            if self.write_position >= len {
                assert(self.buffer@[start + j] == self.buffer@[start + j + cap]);
            }
        }
        assert(r@ =~= self@.subrange(cap - len, cap as int));
        r
    }
}

/// After at least as many writes as the ring has slots, the full window is exactly
/// the last `capacity` values written, in the order they were written, whatever the
/// ring held before.
pub proof fn lemma_full_window_holds_last_writes<T>(s: Seq<T>, w: Seq<T>)
    requires
        s.len() > 0,
        w.len() >= s.len(),
    ensures
        after_writes(s, w) == w.subrange(w.len() - s.len(), w.len() as int),
    decreases w.len(),
{
    lemma_after_writes_len(s, w);
    if w.len() == 0 {
        assert(s =~= w.subrange(0, 0));
    } else if w.len() - 1 >= s.len() {
        let p = w.drop_last();
        lemma_full_window_holds_last_writes(s, p);
        let n = s.len() as int;
        let m = w.len() as int;
        assert(after_writes(s, w) =~= w.subrange(m - n, m));
    } else {
        // exactly as many writes as slots
        lemma_after_writes_suffix(s, w);
        assert(after_writes(s, w) =~= w.subrange(0, w.len() as int));
    }
}

/// Writes keep the number of elements the ring holds.
pub proof fn lemma_after_writes_len<T>(s: Seq<T>, w: Seq<T>)
    requires
        s.len() > 0,
    ensures
        after_writes(s, w).len() == s.len(),
    decreases w.len(),
{
    if w.len() > 0 {
        lemma_after_writes_len(s, w.drop_last());
    }
}

/// While fewer writes than slots were made, the ring holds the newest part of its
/// old contents followed by all the writes.
pub proof fn lemma_after_writes_suffix<T>(s: Seq<T>, w: Seq<T>)
    requires
        w.len() <= s.len(),
    ensures
        after_writes(s, w) == s.subrange(w.len() as int, s.len() as int) + w,
    decreases w.len(),
{
    if w.len() == 0 {
        assert(s.subrange(0, s.len() as int) + w =~= s);
    } else {
        let p = w.drop_last();
        lemma_after_writes_suffix(s, p);
        let k = w.len() as int;
        assert((s.subrange(k - 1, s.len() as int) + p).drop_first().push(w.last())
            =~= s.subrange(k, s.len() as int) + w);
    }
}

} // verus!
