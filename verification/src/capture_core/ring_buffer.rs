//! A fixed-capacity ring of equally sized frames held in a memory map: a
//! ring of `frame_capacity` slots holds up to `frame_capacity` frames, read
//! back oldest first.
use vstd::arithmetic::div_mod::{lemma_div_multiples_vanish, lemma_small_mod};
use vstd::arithmetic::mul::{lemma_mul_is_distributive_add_other_way, lemma_mul_strict_inequality};
use vstd::prelude::*;

verus! {

#[verifier::external_type_specification]
#[verifier::external_body]
pub struct ExMmapMut(memmap2::MmapMut);

#[verifier::external_type_specification]
#[verifier::external_body]
pub struct ExIoError(std::io::Error);

/// The bytes a writable memory map holds.
pub uninterp spec fn mapped_bytes(m: memmap2::MmapMut) -> Seq<u8>;

/// `MmapMut::map_anon`: an anonymous writable map of `length` bytes.  On
/// success the map holds exactly `length` bytes; the crate documents an
/// error whenever `length > isize::MAX`.  Whether the system grants the map,
/// and what the fresh bytes hold, is not stated.
#[verifier::external_body]
fn map_anonymous(length: usize) -> (r: Result<memmap2::MmapMut, std::io::Error>)
    ensures
        r is Ok ==> mapped_bytes(r->Ok_0).len() == length,
        r is Ok ==> length <= isize::MAX,
{
    memmap2::MmapMut::map_anon(length)
}

/// Copies `data` into the map at `offset` through `MmapMut`'s mutable
/// dereference; the other bytes stay as they were.
#[verifier::external_body]
fn map_write(m: &mut memmap2::MmapMut, offset: usize, data: &[u8])
    requires
        offset + data@.len() <= mapped_bytes(*old(m)).len(),
    ensures
        mapped_bytes(*final(m)) == mapped_bytes(*old(m)).subrange(0, offset as int) + data@
            + mapped_bytes(*old(m)).subrange(offset + data@.len(), mapped_bytes(*old(m)).len() as int),
{
    (&mut m[offset..])[..data.len()].copy_from_slice(data);
}

/// Copies `out.len()` bytes of the map from `offset` into `out` through
/// `MmapMut`'s dereference.
#[verifier::external_body]
fn map_read(m: &memmap2::MmapMut, offset: usize, out: &mut [u8])
    requires
        offset + old(out)@.len() <= mapped_bytes(*m).len(),
    ensures
        final(out)@ == mapped_bytes(*m).subrange(offset as int, offset + old(out)@.len()),
{
    out.copy_from_slice(&(&m[offset..])[..out.len()]);
}

/// A memory-mapped ring buffer of frames of `frame_size` bytes.
pub struct RingBuffer {
    buffer: memmap2::MmapMut,
    buffer_size: usize,
    frame_size: usize,
    frame_capacity: usize,
    write_pos: usize,
    read_pos: usize,
    len: usize,
    slots: Ghost<nat>,
    read_slot: Ghost<nat>,
    write_slot: Ghost<nat>,
}

/// Message of a write whose frame has the wrong size.
pub open spec fn frame_size_mismatch() -> Seq<char> {
    "Frame size mismatch"@
}

/// Message of a write into a full ring.
pub open spec fn buffer_full() -> Seq<char> {
    "Buffer full"@
}

/// Message of a read into a buffer of the wrong size.
pub open spec fn output_size_mismatch() -> Seq<char> {
    "Output buffer size mismatch"@
}

/// Message of a read from an empty ring.
pub open spec fn buffer_empty() -> Seq<char> {
    "Buffer empty"@
}

impl RingBuffer {
    /// The ring is consistent: positions sit on slot boundaries of a map
    /// of `buffer_size = slots * frame_size` bytes, and the write slot lies
    /// `len` slots after the read slot.
    pub closed spec fn wf(&self) -> bool {
        &&& mapped_bytes(self.buffer).len() == self.buffer_size
        &&& self.buffer_size == self.slots@ * self.frame_size
        &&& self.buffer_size <= isize::MAX
        &&& self.slots@ == self.frame_capacity
        &&& self.len <= self.slots@
        &&& self.read_pos == self.read_slot@ * self.frame_size
        &&& self.write_pos == self.write_slot@ * self.frame_size
        &&& (self.buffer_size == 0 ==> self.read_slot@ == 0 && self.write_slot@ == 0 && self.len == 0)
        &&& (self.buffer_size > 0 ==> {
            &&& self.frame_size > 0
            &&& self.read_slot@ < self.slots@
            &&& self.write_slot@ < self.slots@
            &&& self.write_slot@ == if self.read_slot@ + self.len < self.slots@ {
                self.read_slot@ + self.len
            } else {
                self.read_slot@ + self.len - self.slots@
            }
        })
    }

    /// Bytes per frame.
    pub closed spec fn spec_frame_size(&self) -> nat {
        self.frame_size as nat
    }

    /// Number of slots of the ring.
    pub closed spec fn capacity(&self) -> nat {
        self.slots@
    }

    /// Number of frames stored.
    pub closed spec fn count(&self) -> nat {
        self.len as nat
    }

    /// The slot holding the `k`-th oldest frame.
    closed spec fn ring_index(&self, k: int) -> int {
        if self.read_slot@ + k < self.slots@ {
            self.read_slot@ + k
        } else {
            self.read_slot@ + k - self.slots@
        }
    }

    /// The bytes of slot `i`.
    closed spec fn slot(&self, i: int) -> Seq<u8> {
        mapped_bytes(self.buffer).subrange(i * self.frame_size, i * self.frame_size + self.frame_size)
    }

    /// The frames in the ring, oldest first.
    pub closed spec fn frames(&self) -> Seq<Seq<u8>> {
        Seq::new(self.count(), |k: int| self.slot(self.ring_index(k)))
    }
}

/// Slot `i` of a ring of `slots` frames of `fs` bytes lies inside the map.
proof fn lemma_slot_in_bounds(i: int, slots: int, fs: int)
    requires
        0 <= i < slots,
        0 <= fs,
    ensures
        0 <= i * fs,
        i * fs + fs <= slots * fs,
{
    assert(0 <= i * fs) by (nonlinear_arith)
        requires 0 <= i, 0 <= fs;
    assert(i * fs + fs == (i + 1) * fs) by (nonlinear_arith);
    assert((i + 1) * fs <= slots * fs) by (nonlinear_arith)
        requires i + 1 <= slots, 0 <= fs;
}

/// Different slots do not overlap.
proof fn lemma_slots_disjoint(i: int, j: int, fs: int)
    requires
        0 <= i < j,
        0 < fs,
    ensures
        i * fs + fs <= j * fs,
{
    assert(i * fs + fs == (i + 1) * fs) by (nonlinear_arith);
    assert((i + 1) * fs <= j * fs) by (nonlinear_arith)
        requires i + 1 <= j, 0 < fs;
}

impl RingBuffer {
    /// Creates a ring of `frame_capacity` slots of `frame_size` bytes in an
    /// anonymous memory map.  Fails when the system refuses the map, and
    /// always when the map would exceed `isize::MAX` bytes; a granted map
    /// makes the ring that [`RingBuffer::from_map`] builds.
    pub fn new(frame_size: usize, frame_capacity: usize) -> (r: Result<Self, std::io::Error>)
        requires
            frame_size * frame_capacity <= usize::MAX,
        ensures
            frame_size * frame_capacity > isize::MAX ==> r is Err,
            r is Ok ==> {
                let rb = r->Ok_0;
                &&& rb.wf()
                &&& rb.frames() == Seq::<Seq<u8>>::empty()
                &&& rb.spec_frame_size() == frame_size
                &&& rb.capacity() == frame_capacity
            },
    {
        let buffer_size = frame_size * frame_capacity;
        let buffer = map_anonymous(buffer_size)?;
        Ok(Self::from_map(buffer, frame_size, frame_capacity))
    }

    /// An empty ring of `frame_capacity` slots of `frame_size` bytes over a
    /// map of exactly that many bytes.
    pub fn from_map(buffer: memmap2::MmapMut, frame_size: usize, frame_capacity: usize) -> (rb: Self)
        requires
            mapped_bytes(buffer).len() == frame_size * frame_capacity,
            frame_size * frame_capacity <= isize::MAX,
        ensures
            rb.wf(),
            rb.frames() == Seq::<Seq<u8>>::empty(),
            rb.spec_frame_size() == frame_size,
            rb.capacity() == frame_capacity,
    {
        proof {
            assert(frame_size * frame_capacity <= usize::MAX);
        }
        let buffer_size = frame_size * frame_capacity;
        let rb = RingBuffer {
            buffer,
            buffer_size,
            frame_size,
            frame_capacity,
            write_pos: 0,
            read_pos: 0,
            len: 0,
            slots: Ghost(frame_capacity as nat),
            read_slot: Ghost(0),
            write_slot: Ghost(0),
        };
        proof {
            assert(frame_size * frame_capacity == frame_capacity * frame_size) by (nonlinear_arith);
            if buffer_size > 0 {
                assert(frame_size > 0 && frame_capacity > 0) by (nonlinear_arith)
                    requires frame_size * frame_capacity > 0;
                assert(rb.write_slot@ == rb.read_slot@ + rb.len);
            }
            assert(rb.buffer_size == rb.slots@ * rb.frame_size);
            assert(rb.wf());
            assert(rb.frames() =~= Seq::<Seq<u8>>::empty());
        }
        rb
    }

    /// Appends a frame.  Fails with "Frame size mismatch" when `data` is not
    /// one frame long, and with "Buffer full" when the ring already holds
    /// `capacity` frames.
    pub fn write_frame(&mut self, data: &[u8]) -> (r: Result<(), &'static str>)
        requires
            old(self).wf(),
            data@.len() == old(self).spec_frame_size() ==> old(self).spec_frame_size() > 0,
        ensures
            final(self).wf(),
            final(self).spec_frame_size() == old(self).spec_frame_size(),
            final(self).capacity() == old(self).capacity(),
            data@.len() != old(self).spec_frame_size() ==> {
                &&& r is Err
                &&& r->Err_0@ == frame_size_mismatch()
                &&& final(self).frames() == old(self).frames()
            },
            data@.len() == old(self).spec_frame_size() && old(self).frames().len() == old(self).capacity() ==> {
                &&& r is Err
                &&& r->Err_0@ == buffer_full()
                &&& final(self).frames() == old(self).frames()
            },
            data@.len() == old(self).spec_frame_size() && old(self).frames().len() < old(self).capacity() ==> {
                &&& r is Ok
                &&& final(self).frames() == old(self).frames().push(data@)
            },
    {
        if data.len() != self.frame_size {
            return Err("Frame size mismatch");
        }
        if self.len == self.frame_capacity {
            return Err("Buffer full");
        }
        let ghost old_self = *self;
        let ghost fs = self.frame_size as int;
        let ghost slots = self.slots@ as int;
        let ghost ws = self.write_slot@ as int;
        let write_pos = self.write_pos;
        proof {
            assert(self.buffer_size > 0) by (nonlinear_arith)
                requires self.buffer_size == slots * fs, slots > 0, fs > 0;
            lemma_slot_in_bounds(ws, slots, fs);
            assert(write_pos + self.frame_size == (ws + 1) * fs) by (nonlinear_arith)
                requires write_pos == ws * fs, self.frame_size == fs;
        }
        let sum = write_pos + self.frame_size;
        let next_write_pos = sum % self.buffer_size;
        let ghost next_slot: int = if ws + 1 < slots { ws + 1 } else { 0 };
        proof {
            if ws + 1 < slots {
                lemma_slot_in_bounds(ws + 1, slots, fs);
                lemma_slots_disjoint(ws + 1, slots, fs);
                lemma_small_mod(sum as nat, self.buffer_size as nat);
            } else {
                assert(sum == self.buffer_size);
                vstd::arithmetic::div_mod::lemma_mod_self_0(sum as int);
            }
            assert(next_write_pos == next_slot * fs);
        }
        map_write(&mut self.buffer, write_pos, data);
        self.write_pos = next_write_pos;
        self.write_slot = Ghost(next_slot as nat);
        self.len = self.len + 1;
        proof {
            assert(self.frames().len() == old_self.frames().len() + 1);
            assert(old_self.ring_index(old_self.len as int) == ws);
            assert forall|k: int| 0 <= k < self.frames().len() implies #[trigger] self.frames()[k]
                == old_self.frames().push(data@)[k] by {
                let i = self.ring_index(k);
                assert(i == old_self.ring_index(k));
                lemma_slot_in_bounds(i, slots, fs);
                if i != ws {
                    if i < ws {
                        lemma_slots_disjoint(i, ws, fs);
                    } else {
                        lemma_slots_disjoint(ws, i, fs);
                    }
                    assert(self.slot(i) =~= old_self.slot(i));
                } else {
                    assert(k == old_self.len);
                    assert(self.slot(i) =~= data@);
                }
            }
            assert(self.frames() =~= old_self.frames().push(data@));
        }
        Ok(())
    }

    /// Removes the oldest frame and copies it into `output`, returning the
    /// frame size.  Fails with "Output buffer size mismatch" when `output`
    /// is not one frame long, and with "Buffer empty" when no frame is
    /// stored.
    pub fn read_frame(&mut self, output: &mut [u8]) -> (r: Result<usize, &'static str>)
        requires
            old(self).wf(),
        ensures
            final(self).wf(),
            final(self).spec_frame_size() == old(self).spec_frame_size(),
            final(self).capacity() == old(self).capacity(),
            old(output)@.len() != old(self).spec_frame_size() ==> {
                &&& r is Err
                &&& r->Err_0@ == output_size_mismatch()
                &&& final(self).frames() == old(self).frames()
                &&& final(output)@ == old(output)@
            },
            old(output)@.len() == old(self).spec_frame_size() && old(self).frames().len() == 0 ==> {
                &&& r is Err
                &&& r->Err_0@ == buffer_empty()
                &&& final(self).frames() == old(self).frames()
                &&& final(output)@ == old(output)@
            },
            old(output)@.len() == old(self).spec_frame_size() && old(self).frames().len() > 0 ==> {
                &&& r == Ok::<usize, &'static str>(old(self).spec_frame_size() as usize)
                &&& final(output)@ == old(self).frames()[0]
                &&& final(self).frames() == old(self).frames().drop_first()
            },
    {
        if output.len() != self.frame_size {
            return Err("Output buffer size mismatch");
        }
        if self.len == 0 {
            return Err("Buffer empty");
        }
        let read_pos = self.read_pos;
        let ghost old_self = *self;
        let ghost fs = self.frame_size as int;
        let ghost slots = self.slots@ as int;
        let ghost rs = self.read_slot@ as int;
        proof {
            assert(self.buffer_size > 0);
            lemma_slot_in_bounds(rs, slots, fs);
            assert(read_pos + self.frame_size == (rs + 1) * fs) by (nonlinear_arith)
                requires read_pos == rs * fs, self.frame_size == fs;
            assert(self.ring_index(0) == rs);
        }
        map_read(&self.buffer, read_pos, output);
        let sum = read_pos + self.frame_size;
        let next_read_pos = sum % self.buffer_size;
        let ghost next_slot: int = if rs + 1 < slots { rs + 1 } else { 0 };
        proof {
            if rs + 1 < slots {
                lemma_slot_in_bounds(rs + 1, slots, fs);
                lemma_slots_disjoint(rs + 1, slots, fs);
                lemma_small_mod(sum as nat, self.buffer_size as nat);
            } else {
                assert(sum == self.buffer_size);
                vstd::arithmetic::div_mod::lemma_mod_self_0(sum as int);
            }
            assert(next_read_pos == next_slot * fs);
        }
        self.read_pos = next_read_pos;
        self.read_slot = Ghost(next_slot as nat);
        self.len = self.len - 1;
        proof {
            assert(self.frames().len() + 1 == old_self.frames().len());
            assert forall|k: int| 0 <= k < self.frames().len() implies #[trigger] self.frames()[k]
                == old_self.frames().drop_first()[k] by {
                assert(self.ring_index(k) == old_self.ring_index(k + 1));
            }
            assert(self.frames() =~= old_self.frames().drop_first());
            assert(output@ =~= old_self.frames()[0]);
        }
        Ok(self.frame_size)
    }

    /// Returns `(frames stored, slots of the ring)`.
    pub fn status(&self) -> (r: (usize, usize))
        requires
            self.wf(),
        ensures
            r.0 == self.frames().len(),
            r.1 == self.capacity(),
    {
        (self.len, self.frame_capacity)
    }
}

} // verus!
