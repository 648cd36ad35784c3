//! A pool of reusable byte buffers.
//!
//! Buffers handed back to the pool are zeroed and kept, oldest first, up to
//! a fixed number; a buffer asked for when the pool is empty is freshly
//! allocated and zeroed.
use std::collections::VecDeque;
use vstd::prelude::*;

verus! {

/// A byte sequence of zeros only.
pub open spec fn all_zero(s: Seq<u8>) -> bool {
    forall|i: int| 0 <= i < s.len() ==> #[trigger] s[i] == 0
}

/// A pool of reusable buffers of `buffer_size` bytes, holding at most
/// `max_buffers` of them.
#[derive(Debug)]
pub struct BufferPool {
    buffers: VecDeque<Vec<u8>>,
    buffer_size: usize,
    max_buffers: usize,
}

impl BufferPool {
    /// The buffers kept in the pool, the one to be handed out next first.
    pub closed spec fn pooled(&self) -> Seq<Seq<u8>> {
        self.buffers@.map_values(|b: Vec<u8>| b@)
    }

    /// Size of a freshly allocated buffer.
    pub closed spec fn spec_buffer_size(&self) -> nat {
        self.buffer_size as nat
    }

    /// Most buffers the pool keeps.
    pub closed spec fn spec_max_buffers(&self) -> nat {
        self.max_buffers as nat
    }

    /// The pool never holds more than `max_buffers` buffers, and every
    /// buffer it holds is zeroed.
    pub open spec fn wf(&self) -> bool {
        &&& self.pooled().len() <= self.spec_max_buffers()
        &&& forall|i: int| 0 <= i < self.pooled().len() ==> all_zero(#[trigger] self.pooled()[i])
    }

    /// Creates an empty pool of buffers of `buffer_size` bytes that keeps at
    /// most `max_buffers` of them.
    pub fn new(buffer_size: usize, max_buffers: usize) -> (pool: Self)
        ensures
            pool.wf(),
            pool.pooled() == Seq::<Seq<u8>>::empty(),
            pool.spec_buffer_size() == buffer_size,
            pool.spec_max_buffers() == max_buffers,
    {
        let pool = Self { buffers: VecDeque::with_capacity(max_buffers), buffer_size, max_buffers };
        assert(pool.pooled() =~= Seq::<Seq<u8>>::empty());
        pool
    }

    /// Hands out the oldest pooled buffer, or a fresh zeroed buffer of
    /// `buffer_size` bytes when the pool is empty.  Either way the buffer
    /// holds only zeros.
    pub fn get_buffer(&mut self) -> (buf: Vec<u8>)
        requires
            old(self).wf(),
        ensures
            final(self).wf(),
            final(self).spec_buffer_size() == old(self).spec_buffer_size(),
            final(self).spec_max_buffers() == old(self).spec_max_buffers(),
            all_zero(buf@),
            old(self).pooled().len() > 0 ==> {
                &&& buf@ == old(self).pooled()[0]
                &&& final(self).pooled() == old(self).pooled().drop_first()
            },
            old(self).pooled().len() == 0 ==> {
                &&& buf@ == Seq::new(old(self).spec_buffer_size(), |i: int| 0u8)
                &&& final(self).pooled() == old(self).pooled()
            },
    {
        let ghost old_pooled = self.pooled();
        match self.buffers.pop_front() {
            Some(buf) => {
                assert(self.pooled() =~= old_pooled.drop_first());
                assert(old_pooled[0] == buf@);
                buf
            },
            None => {
                assert(self.pooled() =~= old_pooled);
                let buf = vec![0u8; self.buffer_size];
                assert(buf@ =~= Seq::new(self.buffer_size as nat, |i: int| 0u8));
                buf
            },
        }
    }

    /// Takes a buffer back: it is zeroed, then kept at the back of the pool
    /// if the pool holds fewer than `max_buffers` buffers, and dropped
    /// otherwise.
    pub fn return_buffer(&mut self, buffer: Vec<u8>)
        requires
            old(self).wf(),
        ensures
            final(self).wf(),
            final(self).spec_buffer_size() == old(self).spec_buffer_size(),
            final(self).spec_max_buffers() == old(self).spec_max_buffers(),
            old(self).pooled().len() < old(self).spec_max_buffers() ==> final(self).pooled()
                == old(self).pooled().push(Seq::new(buffer@.len(), |i: int| 0u8)),
            old(self).pooled().len() >= old(self).spec_max_buffers() ==> final(self).pooled()
                == old(self).pooled(),
    {
        let mut buffer = buffer;
        zero_fill(&mut buffer);
        let ghost old_pooled = self.pooled();
        if self.buffers.len() < self.max_buffers {
            let ghost zeroed = buffer@;
            self.buffers.push_back(buffer);
            assert(self.pooled() =~= old_pooled.push(zeroed));
            assert(zeroed =~= Seq::new(zeroed.len(), |i: int| 0u8));
        }
    }

    /// Returns `(buffers pooled, max_buffers)`.
    pub fn stats(&self) -> (r: (usize, usize))
        ensures
            r.0 == self.pooled().len(),
            r.1 == self.spec_max_buffers(),
    {
        (self.buffers.len(), self.max_buffers)
    }

    /// Sets the size of freshly allocated buffers to `new_size` and drops
    /// every pooled buffer, so that the pool starts afresh.
    pub fn resize(&mut self, new_size: usize)
        requires
            old(self).wf(),
        ensures
            final(self).wf(),
            final(self).pooled() == Seq::<Seq<u8>>::empty(),
            final(self).spec_buffer_size() == new_size,
            final(self).spec_max_buffers() == old(self).spec_max_buffers(),
    {
        self.buffers.clear();
        self.buffer_size = new_size;
        assert(self.pooled() =~= Seq::<Seq<u8>>::empty());
    }
}

/// Overwrites every byte of `buffer` with zero.
fn zero_fill(buffer: &mut Vec<u8>)
    ensures
        final(buffer)@.len() == old(buffer)@.len(),
        all_zero(final(buffer)@),
{
    let n = buffer.len();
    let mut i: usize = 0;
    while i < n
        invariant
            n == buffer@.len(),
            i <= n,
            forall|j: int| 0 <= j < i ==> buffer@[j] == 0,
        decreases n - i,
    {
        buffer.set(i, 0);
        i += 1;
    }
}

} // verus!
