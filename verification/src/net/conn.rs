//! Connection identifiers, connection states and the ring buffer used for
//! reading and writing.

use vstd::prelude::*;

verus! {

/// Identifier of a connection; zero is the null (invalid) identifier.
#[derive(Debug, Clone, Copy, PartialEq, Eq, Hash, Structural)]
pub struct ConnectionId(pub u64);

impl ConnectionId {
    /// The null identifier.
    pub fn null() -> (r: Self)
        ensures
            r.0 == 0,
    {
        ConnectionId(0)
    }

    /// Whether this is the null identifier.
    pub fn is_null(&self) -> (r: bool)
        ensures
            r == (self.0 == 0),
    {
        self.0 == 0
    }
}

/// State of a connection.
#[derive(Debug, Clone, Copy, PartialEq, Eq, Structural)]
pub enum ConnectionState {
    /// Being established
    Connecting,
    /// Established
    Connected,
    /// Being closed
    Closing,
    /// Closed
    Closed,
    /// Failed
    Error,
}

// ============================================================================
//                    RING BUFFER
// ============================================================================

/// Ring buffer of bytes: written at one end and read, in the same order, at
/// the other. It holds at most one byte less than its capacity.
pub struct RingBuffer {
    data: Vec<u8>,
    read_pos: usize,
    write_pos: usize,
    capacity: usize,
}

impl RingBuffer {
    /// The capacity the buffer was made with.
    pub closed spec fn cap(&self) -> nat {
        self.capacity as nat
    }

    /// The number of bytes held.
    closed spec fn count(&self) -> int {
        if self.write_pos >= self.read_pos {
            self.write_pos - self.read_pos
        } else {
            self.capacity - self.read_pos + self.write_pos
        }
    }

    /// The buffer's invariant.
    pub closed spec fn wf(&self) -> bool {
        &&& self.data.len() == self.capacity
        &&& self.capacity == 0 ==> self.read_pos == 0 && self.write_pos == 0
        &&& self.capacity > 0 ==> self.read_pos < self.capacity && self.write_pos < self.capacity
    }
}

/// A position past the end, brought back to the start.
pub open spec fn wrap(x: int, cap: int) -> int {
    if x < cap {
        x
    } else {
        x - cap
    }
}

/// The position after `p` in a ring of `cap` places.
fn next_pos(p: usize, cap: usize) -> (r: usize)
    requires
        p < cap,
    ensures
        r == wrap(p + 1, cap as int),
        r < cap,
{
    if p + 1 == cap {
        0
    } else {
        p + 1
    }
}

impl View for RingBuffer {
    type V = Seq<u8>;

    /// The bytes held, oldest first.
    closed spec fn view(&self) -> Seq<u8> {
        Seq::new(self.count() as nat, |i: int| self.data@[wrap(self.read_pos + i, self.capacity as int)])
    }
}

impl RingBuffer {
    /// An empty buffer of the given capacity.
    pub fn new(capacity: usize) -> (r: Self)
        ensures
            r.wf(),
            r.cap() == capacity,
            r@ == Seq::<u8>::empty(),
    {
        let mut data: Vec<u8> = Vec::new();
        let mut k: usize = 0;
        while k < capacity
            invariant
                k <= capacity,
                data.len() == k,
            decreases capacity - k,
        {
            data.push(0u8);
            k = k + 1;
        }
        let r = RingBuffer { data, read_pos: 0, write_pos: 0, capacity };
        proof {
            assert(r@ =~= Seq::<u8>::empty());
        }
        r
    }

    /// The number of bytes held.
    pub fn len(&self) -> (r: usize)
        requires
            self.wf(),
        ensures
            r == self@.len(),
            self.cap() > 0 ==> r < self.cap(),
    {
        if self.write_pos >= self.read_pos {
            self.write_pos - self.read_pos
        } else {
            self.capacity - self.read_pos + self.write_pos
        }
    }

    /// Whether the buffer holds nothing.
    pub fn is_empty(&self) -> (r: bool)
        requires
            self.wf(),
        ensures
            r == (self@.len() == 0),
    {
        self.read_pos == self.write_pos
    }

    /// Room left for writing.
    pub fn available(&self) -> (r: usize)
        requires
            self.wf(),
            self.cap() > 0,
        ensures
            r == self.cap() - self@.len() - 1,
    {
        self.capacity - self.len() - 1
    }

    /// Writes as many bytes of `data` as there is room for, in order, and
    /// returns how many.
    pub fn write(&mut self, data: &[u8]) -> (r: usize)
        requires
            old(self).wf(),
            old(self).cap() > 0,
        ensures
            final(self).wf(),
            final(self).cap() == old(self).cap(),
            r == if data@.len() < old(self).cap() - old(self)@.len() - 1 { data@.len() as int } else { old(self).cap() - old(self)@.len() - 1 },
            final(self)@ == old(self)@ + data@.take(r as int),
    {
        let available = self.available();
        let to_write = if data.len() < available { data.len() } else { available };
        let mut k: usize = 0;
        while k < to_write
            invariant
                self.wf(),
                self.cap() == old(self).cap(),
                self.cap() > 0,
                k <= to_write,
                to_write <= data.len(),
                to_write == old(self).cap() - old(self)@.len() - 1 || to_write == data.len(),
                to_write <= old(self).cap() - old(self)@.len() - 1,
                self.read_pos == old(self).read_pos,
                self@ == old(self)@ + data@.take(k as int),
            decreases to_write - k,
        {
            let ghost before = self@;
            let wp = self.write_pos;
            self.data.set(wp, data[k]);
            self.write_pos = next_pos(wp, self.capacity);
            k = k + 1;
            proof {
                assert(before.len() + 1 < self.capacity);
                assert forall|i: int| 0 <= i < before.len() implies #[trigger] self@[i] == before[i] by {
                    assert(wrap(self.read_pos + i, self.capacity as int) != wp as int);
                }
                assert(self@.len() == before.len() + 1);
                assert(self@[before.len() as int] == data@[k - 1]);
                assert(self@ =~= old(self)@ + data@.take(k as int));
            }
        }
        to_write
    }

    /// Reads as many bytes as `buf` can take and the buffer holds, oldest
    /// first, into the front of `buf`, and returns how many.
    pub fn read(&mut self, buf: &mut [u8]) -> (r: usize)
        requires
            old(self).wf(),
        ensures
            final(self).wf(),
            final(self).cap() == old(self).cap(),
            r == if old(buf)@.len() < old(self)@.len() { old(buf)@.len() as int } else { old(self)@.len() as int },
            final(buf)@.len() == old(buf)@.len(),
            final(buf)@.take(r as int) == old(self)@.take(r as int),
            final(buf)@.skip(r as int) == old(buf)@.skip(r as int),
            final(self)@ == old(self)@.skip(r as int),
    {
        let available = self.len();
        let to_read = if buf.len() < available { buf.len() } else { available };
        let mut k: usize = 0;
        while k < to_read
            invariant
                self.wf(),
                self.cap() == old(self).cap(),
                k <= to_read,
                to_read <= buf.len(),
                to_read <= old(self)@.len(),
                buf@.len() == old(buf)@.len(),
                self.write_pos == old(self).write_pos,
                self.data@ == old(self).data@,
                self@ == old(self)@.skip(k as int),
                buf@.take(k as int) == old(self)@.take(k as int),
                buf@.skip(k as int) == old(buf)@.skip(k as int),
            decreases to_read - k,
        {
            let ghost before = self@;
            let ghost bbefore = buf@;
            let rp = self.read_pos;
            proof {
                assert(before.len() == old(self)@.len() - k);
                assert(self.capacity > 0);
            }
            buf[k] = self.data[rp];
            self.read_pos = next_pos(rp, self.capacity);
            k = k + 1;
            proof {
                assert(before.len() > 0);
                assert(before[0] == self.data@[rp as int]);
                assert(self@.len() == before.len() - 1);
                assert forall|i: int| 0 <= i < self@.len() implies #[trigger] self@[i] == before[i + 1] by {
                    assert(wrap(self.read_pos + i, self.capacity as int) == wrap(rp + (i + 1), self.capacity as int));
                }
                assert(self@ =~= old(self)@.skip(k as int));
                assert(buf@.take(k as int) =~= old(self)@.take(k as int)) by {
                    assert(buf@.take(k as int) =~= bbefore.take(k - 1).push(before[0]));
                }
                assert(buf@.skip(k as int) =~= old(buf)@.skip(k as int)) by {
                    assert(buf@.skip(k as int) =~= bbefore.skip(k as int));
                    assert(bbefore.skip(k as int) =~= bbefore.skip(k - 1).skip(1));
                    assert(old(buf)@.skip(k as int) =~= old(buf)@.skip(k - 1).skip(1));
                }
            }
        }
        to_read
    }

    /// Empties the buffer.
    pub fn clear(&mut self)
        requires
            old(self).wf(),
        ensures
            final(self).wf(),
            final(self).cap() == old(self).cap(),
            final(self)@ == Seq::<u8>::empty(),
    {
        self.read_pos = 0;
        self.write_pos = 0;
        proof {
            assert(final(self)@ =~= Seq::<u8>::empty());
        }
    }
}

/// What a read gives back of writes: after holding `held` and writing the
/// first `n` bytes of `data` (as [`RingBuffer::write`] leaves the view), a
/// read of `k` bytes (as [`RingBuffer::read`] returns them) gives the oldest
/// bytes first: those held, then those written, in order.
pub proof fn lemma_ring_read_after_write(held: Seq<u8>, data: Seq<u8>, n: int, k: int)
    requires
        0 <= n <= data.len(),
        0 <= k <= held.len() + n,
    ensures
        k <= held.len() ==> (held + data.take(n)).take(k) == held.take(k),
        k > held.len() ==> (held + data.take(n)).take(k) == held + data.take(k - held.len()),
        (held + data.take(n)).skip(k).len() == held.len() + n - k,
{
    if k <= held.len() {
        assert((held + data.take(n)).take(k) =~= held.take(k));
    } else {
        assert((held + data.take(n)).take(k) =~= held + data.take(k - held.len()));
    }
}

} // verus!
