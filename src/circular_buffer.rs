//! Fixed-capacity ring buffer of samples, traversed oldest to newest.
use vstd::prelude::*;

verus! {

/// The window that results from appending `value` to `window` when at most
/// `capacity` samples are kept: the oldest one leaves once the window is full.
pub open spec fn push_window<T>(window: Seq<T>, value: T, capacity: nat) -> Seq<T> {
    if window.len() < capacity {
        window.push(value)
    } else {
        window.drop_first().push(value)
    }
}

/// The samples that a buffer of the given capacity holds after `xs` has been
/// added, in order, to an empty one.
pub open spec fn fill<T>(capacity: nat, xs: Seq<T>) -> Seq<T>
    decreases xs.len(),
{
    if xs.len() == 0 {
        Seq::empty()
    } else {
        push_window(fill(capacity, xs.drop_last()), xs.last(), capacity)
    }
}

/// The order in which repeated calls of `next` yield the samples of a traversal.
pub open spec fn forward_order<T>(s: Seq<T>) -> Seq<T>
    decreases s.len(),
{
    if s.len() == 0 {
        Seq::empty()
    } else {
        seq![s.first()] + forward_order(s.drop_first())
    }
}

/// The order in which repeated calls of `next_back` yield the samples of a traversal.
pub open spec fn backward_order<T>(s: Seq<T>) -> Seq<T>
    decreases s.len(),
{
    if s.len() == 0 {
        Seq::empty()
    } else {
        seq![s.last()] + backward_order(s.drop_last())
    }
}

/// After `n` samples are added to an empty buffer of capacity `c`, a forward
/// traversal yields all of them in insertion order when `n <= c`, and
/// otherwise exactly the last `c`, oldest first.
pub proof fn lemma_fill_keeps_newest<T>(capacity: nat, xs: Seq<T>)
    requires
        capacity > 0,
    ensures
        forward_order(fill(capacity, xs)) == if xs.len() <= capacity {
            xs
        } else {
            xs.subrange(xs.len() - capacity, xs.len() as int)
        },
{
    lemma_fill_window(capacity, xs);
    lemma_forward_order_is_identity(fill(capacity, xs));
}

proof fn lemma_fill_window<T>(capacity: nat, xs: Seq<T>)
    requires
        capacity > 0,
    ensures
        fill(capacity, xs) == if xs.len() <= capacity {
            xs
        } else {
            xs.subrange(xs.len() - capacity, xs.len() as int)
        },
    decreases xs.len(),
{
    if xs.len() > 0 {
        let n = xs.len() as int;
        let prev = xs.drop_last();
        lemma_fill_window(capacity, prev);
        if n - 1 < capacity {
            assert(prev.push(xs.last()) =~= xs);
        } else {
            let w = prev.subrange(n - 1 - capacity, n - 1);
            assert(w.drop_first().push(xs.last()) =~= xs.subrange(n - capacity, n));
        }
    } else {
        assert(xs =~= Seq::<T>::empty());
    }
}

/// Draining a traversal with `next` yields its samples in order.
pub proof fn lemma_forward_order_is_identity<T>(s: Seq<T>)
    ensures
        forward_order(s) == s,
    decreases s.len(),
{
    if s.len() > 0 {
        lemma_forward_order_is_identity(s.drop_first());
        assert(seq![s.first()] + s.drop_first() =~= s);
    }
}

/// A traversal drained with `next_back` yields exactly the reverse of what it
/// yields when drained with `next`, whatever the buffer's fill state.
pub proof fn lemma_backward_reverses_forward<T>(s: Seq<T>)
    ensures
        backward_order(s) == forward_order(s).reverse(),
    decreases s.len(),
{
    lemma_forward_order_is_identity(s);
    if s.len() > 0 {
        lemma_backward_reverses_forward(s.drop_last());
        lemma_forward_order_is_identity(s.drop_last());
        assert(seq![s.last()] + s.drop_last().reverse() =~= s.reverse());
    } else {
        assert(s.reverse() =~= s);
    }
}

/// A buffer that keeps the last `size` samples added to it.
#[derive(Debug)]
pub struct CircularBuffer<T> {
    data: Vec<T>,
    size: usize,
    last: usize,
}

impl<T> CircularBuffer<T> {
    /// The samples held, oldest first.
    pub closed spec fn view(&self) -> Seq<T> {
        Seq::new(self.data@.len(), |k: int| self.data@[self.slot(k)])
    }

    /// Where the `k`-th oldest sample is stored.
    pub closed spec fn slot(&self, k: int) -> int {
        if self.last + k < self.data@.len() {
            self.last + k
        } else {
            self.last + k - self.data@.len()
        }
    }

    /// The number of samples the buffer keeps at most.
    pub closed spec fn capacity(&self) -> nat {
        self.size as nat
    }

    pub closed spec fn wf(&self) -> bool {
        &&& 0 < self.size
        &&& self.data@.len() <= self.size
        &&& self.data@.len() < self.size ==> self.last == 0
        &&& self.data@.len() == self.size ==> self.last < self.size
    }

    /// A buffer never holds more samples than its capacity.
    pub proof fn lemma_len_bound(&self)
        requires
            self.wf(),
        ensures
            self@.len() <= self.capacity(),
            self.capacity() > 0,
    {
    }

    pub fn new(size: usize) -> (r: CircularBuffer<T>)
        requires
            0 < size,
        ensures
            r.wf(),
            r@ == Seq::<T>::empty(),
            r.capacity() == size,
    {
        let r = CircularBuffer { data: Vec::new(), size, last: 0 };
        proof {
            assert(r@ =~= Seq::<T>::empty());
        }
        r
    }

    /// Appends `value`; when the buffer is full it takes the place of the oldest sample.
    pub fn add(&mut self, value: T)
        requires
            old(self).wf(),
        ensures
            final(self).wf(),
            final(self).capacity() == old(self).capacity(),
            final(self)@ == push_window(old(self)@, value, old(self).capacity()),
    {
        let ghost before = self@;
        if self.data.len() < self.size {
            self.data.push(value);
            proof {
                assert(self@ =~= before.push(value));
            }
        } else {
            let ghost n = self.data@.len() as int;
            self.data.set(self.last, value);
            self.last = if self.last + 1 == self.size { 0 } else { self.last + 1 };
            proof {
                let expect = before.drop_first().push(value);
                assert(self@ =~= expect);
            }
        }
    }

    pub fn len(&self) -> (r: usize)
        requires
            self.wf(),
        ensures
            r == self@.len(),
    {
        self.data.len()
    }

    /// A traversal of the samples, oldest first from the front and newest first
    /// from the back. Each call starts a fresh, independent traversal.
    pub fn iter(&self) -> (r: CircularIterator<'_, T>)
        requires
            self.wf(),
        ensures
            r.wf(),
            r@ == self@,
    {
        let len = self.data.len();
        let r = CircularIterator {
            buffer: &self.data,
            cur: self.last,
            rev_cur: if len == 0 { 0 } else if self.last == 0 { len - 1 } else { self.last - 1 },
            left: len,
        };
        proof {
            assert(r@ =~= self@);
        }
        r
    }

    /// The most recently added sample.
    pub fn last(&self) -> (r: &T)
        requires
            self.wf(),
            self@.len() > 0,
        ensures
            *r == self@.last(),
    {
        let len = self.data.len();
        if self.last == 0 {
            &self.data[len - 1]
        } else {
            &self.data[self.last - 1]
        }
    }
}

/// A double-ended traversal of a `CircularBuffer`.
pub struct CircularIterator<'a, T> {
    buffer: &'a Vec<T>,
    cur: usize,
    rev_cur: usize,
    left: usize,
}

impl<'a, T> CircularIterator<'a, T> {
    /// The samples not yet yielded, in forward order.
    pub closed spec fn view(&self) -> Seq<T> {
        Seq::new(self.left as nat, |k: int| self.buffer@[self.slot(k)])
    }

    /// Where the `k`-th remaining sample is stored.
    pub closed spec fn slot(&self, k: int) -> int {
        if self.cur + k < self.buffer@.len() {
            self.cur + k
        } else {
            self.cur + k - self.buffer@.len()
        }
    }

    pub closed spec fn wf(&self) -> bool {
        &&& self.left <= self.buffer@.len()
        &&& self.left > 0 ==> self.cur < self.buffer@.len()
        &&& self.left > 0 ==> self.rev_cur == self.slot(self.left - 1)
    }

    /// The number of samples not yet yielded.
    pub fn len(&self) -> (r: usize)
        requires
            self.wf(),
        ensures
            r == self@.len(),
    {
        self.left
    }

    /// Yields the oldest sample not yet yielded.
    pub fn next(&mut self) -> (r: Option<&'a T>)
        requires
            old(self).wf(),
        ensures
            final(self).wf(),
            old(self)@.len() == 0 ==> r.is_none() && final(self)@ == old(self)@,
            old(self)@.len() > 0 ==> r.is_some() && *r.unwrap() == old(self)@.first()
                && final(self)@ == old(self)@.drop_first(),
    {
        if self.left > 0 {
            let ghost before = self@;
            let out: &'a T = &self.buffer[self.cur];
            if self.cur == self.buffer.len() - 1 {
                self.cur = 0;
            } else {
                self.cur = self.cur + 1;
            }
            self.left = self.left - 1;
            proof {
                assert(self@ =~= before.drop_first());
            }
            Some(out)
        } else {
            None
        }
    }

    /// Yields the newest sample not yet yielded.
    pub fn next_back(&mut self) -> (r: Option<&'a T>)
        requires
            old(self).wf(),
        ensures
            final(self).wf(),
            old(self)@.len() == 0 ==> r.is_none() && final(self)@ == old(self)@,
            old(self)@.len() > 0 ==> r.is_some() && *r.unwrap() == old(self)@.last()
                && final(self)@ == old(self)@.drop_last(),
    {
        if self.left > 0 {
            let ghost before = self@;
            let out: &'a T = &self.buffer[self.rev_cur];
            if self.rev_cur == 0 {
                self.rev_cur = self.buffer.len() - 1;
            } else {
                self.rev_cur = self.rev_cur - 1;
            }
            self.left = self.left - 1;
            proof {
                assert(self@ =~= before.drop_last());
            }
            Some(out)
        } else {
            None
        }
    }
}

} // verus!
