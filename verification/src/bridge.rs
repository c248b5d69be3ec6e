//! Transport bridging: adapts a push-oriented, chunked physical link into a
//! pull-oriented ordered byte stream (inbound) and a push-oriented byte sink
//! (outbound), using two independent bounded queues.
//!
//! Backpressure is asymmetric on purpose: inbound chunks are dropped when the
//! queue is full (stale sensor data is safely droppable), while outbound
//! writes report `WouldBlock` so the caller can suspend and retry
//! (operator-issued commands must not be silently lost).

use vstd::prelude::*;

verus! {

/// Outcome of queueing one inbound chunk.
#[derive(Clone, Copy, PartialEq, Eq, Structural, Debug)]
pub enum PushOutcome {
    /// The chunk was queued (or was empty and carried no data).
    Queued,
    /// The inbound queue was full; the chunk was dropped.
    Dropped,
    /// The inbound side is closed; nothing was queued.
    Closed,
}

/// Outcome of a read request against the inbound stream, or of draining one
/// outbound unit.
#[derive(Debug)]
pub enum ReadOutcome {
    /// Bytes in arrival order.
    Data(Vec<u8>),
    /// No data available now, but the stream is still open.
    Pending,
    /// The stream is closed and no data remains.
    Eof,
}

/// Outcome of queueing outbound bytes.
#[derive(Clone, Copy, PartialEq, Eq, Structural, Debug)]
pub enum WriteOutcome {
    /// The bytes were queued as one indivisible unit.
    Queued,
    /// The outbound queue is full; the caller must retry once space frees.
    WouldBlock,
    /// The outbound side is closed; the bytes were discarded.
    Closed,
}

/// The ordered concatenation of a queue of chunks.
pub open spec fn chunks_bytes(cs: Seq<Vec<u8>>) -> Seq<u8>
    decreases cs.len(),
{
    if cs.len() == 0 {
        Seq::empty()
    } else {
        cs[0]@ + chunks_bytes(cs.skip(1))
    }
}

/// Appending a chunk to the queue appends its bytes to the concatenation.
pub proof fn lemma_chunks_bytes_push(cs: Seq<Vec<u8>>, c: Vec<u8>)
    ensures
        chunks_bytes(cs.push(c)) == chunks_bytes(cs) + c@,
    decreases cs.len(),
{
    if cs.len() == 0 {
        assert(cs.push(c)[0] == c);
        assert(cs.push(c).skip(1) =~= Seq::<Vec<u8>>::empty());
        assert(chunks_bytes(Seq::<Vec<u8>>::empty()) =~= Seq::<u8>::empty());
        assert(chunks_bytes(cs.push(c)) =~= c@);
        assert(chunks_bytes(cs) =~= Seq::<u8>::empty());
        assert(chunks_bytes(cs.push(c)) =~= chunks_bytes(cs) + c@);
    } else {
        assert(cs.push(c)[0] == cs[0]);
        assert(cs.push(c).skip(1) =~= cs.skip(1).push(c));
        lemma_chunks_bytes_push(cs.skip(1), c);
        assert(chunks_bytes(cs.push(c)) == cs[0]@ + (chunks_bytes(cs.skip(1)) + c@));
        assert(chunks_bytes(cs.push(c)) =~= chunks_bytes(cs) + c@);
    }
}

/// Successive reads reassemble the stream exactly: a read of `k1` bytes
/// followed by a read of `k2` bytes yields precisely the first `k1 + k2`
/// bytes of the inbound stream, in order, with no gap and no duplication,
/// whatever the chunk boundaries were. Together with the contracts of
/// `ByteBridge::push_inbound` (which appends each accepted chunk to the
/// stream) and `ByteBridge::read` (which takes a prefix and leaves the
/// rest), this says that reading back with arbitrary read sizes yields the
/// exact concatenation of the pushed bytes.
pub proof fn lemma_reads_reassemble(stream: Seq<u8>, k1: int, k2: int)
    requires
        0 <= k1,
        0 <= k2,
        k1 + k2 <= stream.len(),
    ensures
        stream.take(k1) + stream.skip(k1).take(k2) == stream.take(k1 + k2),
{
    assert(stream.take(k1) + stream.skip(k1).take(k2) =~= stream.take(k1 + k2));
}

/// The bytes yielded by a whole run of successive reads with the given
/// request sizes against a stream: each read takes the smaller of its
/// request and what remains, exactly as `ByteBridge::read` does.
pub open spec fn reads_concat(s: Seq<u8>, sizes: Seq<nat>) -> Seq<u8>
    decreases sizes.len(),
{
    if sizes.len() == 0 {
        Seq::empty()
    } else {
        let k = vstd::math::min(sizes[0] as int, s.len() as int);
        s.take(k) + reads_concat(s.skip(k), sizes.drop_first())
    }
}

/// How many bytes that run of reads consumes in total.
pub open spec fn reads_total(s: Seq<u8>, sizes: Seq<nat>) -> int
    decreases sizes.len(),
{
    if sizes.len() == 0 {
        0
    } else {
        let k = vstd::math::min(sizes[0] as int, s.len() as int);
        k + reads_total(s.skip(k), sizes.drop_first())
    }
}

/// The total of the request sizes.
pub open spec fn sizes_sum(sizes: Seq<nat>) -> int
    decreases sizes.len(),
{
    if sizes.len() == 0 {
        0
    } else {
        sizes[0] + sizes_sum(sizes.drop_first())
    }
}

/// For every stream and every sequence of read sizes, the successive reads
/// yield exactly a prefix of the stream — the concatenation of what the
/// reads return is the stream's first `reads_total` bytes, in order, with
/// no gap, duplication or reordering, however the sizes align with the
/// chunk boundaries the stream was pushed in; and the run consumes the
/// whole stream as soon as the sizes add up to its length. Together with
/// `ByteBridge::push_inbound` (the stream is the concatenation of the
/// accepted chunks) and `ByteBridge::read` (whose contract is exactly one
/// unfolding of `reads_concat`), this is the all-chunk-sequences,
/// all-read-sizes reassembly law.
pub proof fn lemma_arbitrary_reads_reassemble(s: Seq<u8>, sizes: Seq<nat>)
    ensures
        reads_concat(s, sizes) == s.take(reads_total(s, sizes)),
        reads_total(s, sizes) == vstd::math::min(sizes_sum(sizes), s.len() as int),
    decreases sizes.len(),
{
    if sizes.len() == 0 {
        assert(reads_concat(s, sizes) =~= s.take(0));
    } else {
        let k = vstd::math::min(sizes[0] as int, s.len() as int);
        let rest = sizes.drop_first();
        lemma_arbitrary_reads_reassemble(s.skip(k), rest);
        lemma_sizes_sum_nonneg(rest);
        let t = reads_total(s.skip(k), rest);
        assert(s.skip(k).take(t) =~= s.skip(k).take(t));
        lemma_reads_reassemble(s, k, t);
        assert(reads_concat(s, sizes) == s.take(k + t));
    }
}

proof fn lemma_sizes_sum_nonneg(sizes: Seq<nat>)
    ensures
        sizes_sum(sizes) >= 0,
    decreases sizes.len(),
{
    if sizes.len() > 0 {
        lemma_sizes_sum_nonneg(sizes.drop_first());
    }
}

/// Bridges one physical link to the framing layer: the transport driver
/// pushes inbound chunks and drains outbound units, while the framing layer
/// reads an ordered byte stream and writes indivisible byte units.
pub struct ByteBridge {
    /// Queued inbound chunks, oldest first; every queued chunk is non-empty.
    in_q: Vec<Vec<u8>>,
    /// Number of bytes of the oldest inbound chunk already consumed.
    in_pos: usize,
    /// Maximum number of queued inbound chunks.
    in_cap: usize,
    in_closed: bool,
    /// Queued outbound units, oldest first.
    out_q: Vec<Vec<u8>>,
    /// Maximum number of queued outbound units.
    out_cap: usize,
    out_closed: bool,
}

impl ByteBridge {
    /// The inbound bytes not yet read, in arrival order.
    pub closed spec fn inbound_bytes(self) -> Seq<u8> {
        chunks_bytes(self.in_q@).skip(self.in_pos as int)
    }

    /// Number of inbound chunks currently queued.
    pub closed spec fn inbound_queued(self) -> nat {
        self.in_q@.len()
    }

    pub closed spec fn inbound_capacity(self) -> nat {
        self.in_cap as nat
    }

    pub closed spec fn inbound_is_closed(self) -> bool {
        self.in_closed
    }

    /// The outbound units not yet drained, oldest first. Each unit is one
    /// `write` call's bytes; units are never merged or split here.
    pub closed spec fn outbound_units(self) -> Seq<Seq<u8>> {
        self.out_q@.map_values(|c: Vec<u8>| c@)
    }

    pub closed spec fn outbound_capacity(self) -> nat {
        self.out_cap as nat
    }

    pub closed spec fn outbound_is_closed(self) -> bool {
        self.out_closed
    }

    /// Internal well-formedness: the consumed prefix points strictly inside
    /// the oldest chunk, and queued chunks are non-empty.
    pub closed spec fn wf(self) -> bool {
        &&& (self.in_q@.len() == 0 ==> self.in_pos == 0)
        &&& (self.in_q@.len() > 0 ==> self.in_pos < self.in_q@[0]@.len())
        &&& (forall|i: int| 0 <= i < self.in_q@.len() ==> (#[trigger] self.in_q@[i])@.len() > 0)
        &&& self.in_cap >= 1
        &&& self.out_cap >= 1
    }

    /// True when the inbound and outbound sides are unchanged but for the
    /// stated parts; used to keep contracts short.
    pub open spec fn config_unchanged(self, other: ByteBridge) -> bool {
        &&& self.inbound_capacity() == other.inbound_capacity()
        &&& self.outbound_capacity() == other.outbound_capacity()
    }

    /// Creates a bridge with the given bounds on queued inbound chunks and
    /// queued outbound units.
    pub fn new(inbound_capacity: usize, outbound_capacity: usize) -> (r: ByteBridge)
        requires
            inbound_capacity >= 1,
            outbound_capacity >= 1,
        ensures
            r.wf(),
            r.inbound_bytes() == Seq::<u8>::empty(),
            r.outbound_units() == Seq::<Seq<u8>>::empty(),
            !r.inbound_is_closed(),
            !r.outbound_is_closed(),
            r.inbound_capacity() == inbound_capacity,
            r.outbound_capacity() == outbound_capacity,
            r.inbound_queued() == 0,
    {
        let r = ByteBridge {
            in_q: Vec::new(),
            in_pos: 0,
            in_cap: inbound_capacity,
            in_closed: false,
            out_q: Vec::new(),
            out_cap: outbound_capacity,
            out_closed: false,
        };
        proof {
            assert(r.inbound_bytes() =~= Seq::<u8>::empty());
            assert(r.outbound_units() =~= Seq::<Seq<u8>>::empty());
        }
        r
    }

    /// Called by the transport driver when data arrives. Non-blocking: a
    /// chunk that does not fit is dropped, favouring staying live over
    /// buffering stale data.
    pub fn push_inbound(&mut self, chunk: Vec<u8>) -> (r: PushOutcome)
        requires
            old(self).wf(),
        ensures
            final(self).wf(),
            old(self).config_unchanged(*final(self)),
            final(self).outbound_units() == old(self).outbound_units(),
            final(self).outbound_is_closed() == old(self).outbound_is_closed(),
            final(self).inbound_is_closed() == old(self).inbound_is_closed(),
            r == PushOutcome::Closed <==> old(self).inbound_is_closed(),
            old(self).inbound_is_closed() ==> final(self).inbound_bytes() == old(self).inbound_bytes()
                && final(self).inbound_queued() == old(self).inbound_queued(),
            !old(self).inbound_is_closed() && chunk@.len() == 0 ==> {
                &&& r == PushOutcome::Queued
                &&& final(self).inbound_bytes() == old(self).inbound_bytes()
                &&& final(self).inbound_queued() == old(self).inbound_queued()
            },
            !old(self).inbound_is_closed() && chunk@.len() > 0
                && old(self).inbound_queued() < old(self).inbound_capacity() ==> {
                &&& r == PushOutcome::Queued
                &&& final(self).inbound_bytes() == old(self).inbound_bytes() + chunk@
                &&& final(self).inbound_queued() == old(self).inbound_queued() + 1
            },
            !old(self).inbound_is_closed() && chunk@.len() > 0
                && old(self).inbound_queued() >= old(self).inbound_capacity() ==> {
                &&& r == PushOutcome::Dropped
                &&& final(self).inbound_bytes() == old(self).inbound_bytes()
                &&& final(self).inbound_queued() == old(self).inbound_queued()
            },
    {
        if self.in_closed {
            return PushOutcome::Closed;
        }
        if chunk.len() == 0 {
            return PushOutcome::Queued;
        }
        if self.in_q.len() >= self.in_cap {
            return PushOutcome::Dropped;
        }
        proof {
            lemma_chunks_bytes_push(self.in_q@, chunk);
        }
        let ghost pre = *self;
        self.in_q.push(chunk);
        proof {
            assert(final(self).inbound_bytes() =~= pre.inbound_bytes() + chunk@);
        }
        PushOutcome::Queued
    }

    /// Marks the inbound side closed: already queued data stays readable,
    /// and once drained, `read` reports end of stream.
    pub fn close_inbound(&mut self)
        requires
            old(self).wf(),
        ensures
            final(self).wf(),
            old(self).config_unchanged(*final(self)),
            final(self).inbound_is_closed(),
            final(self).inbound_bytes() == old(self).inbound_bytes(),
            final(self).inbound_queued() == old(self).inbound_queued(),
            final(self).outbound_units() == old(self).outbound_units(),
            final(self).outbound_is_closed() == old(self).outbound_is_closed(),
    {
        self.in_closed = true;
    }

    /// Yields up to `max` queued bytes in arrival order, crossing chunk
    /// boundaries, so callers may request arbitrary read sizes. Returns
    /// `Pending` when no data is queued but the stream is open, and `Eof`
    /// when the transport has closed and no data remains.
    pub fn read(&mut self, max: usize) -> (r: ReadOutcome)
        requires
            old(self).wf(),
            max >= 1,
        ensures
            final(self).wf(),
            old(self).config_unchanged(*final(self)),
            final(self).outbound_units() == old(self).outbound_units(),
            final(self).outbound_is_closed() == old(self).outbound_is_closed(),
            final(self).inbound_is_closed() == old(self).inbound_is_closed(),
            final(self).inbound_queued() <= old(self).inbound_queued(),
            final(self).inbound_bytes().len() == 0 ==> final(self).inbound_queued() == 0,
            match r {
                ReadOutcome::Data(d) => {
                    &&& old(self).inbound_bytes().len() > 0
                    &&& d@.len() > 0
                    &&& d@.len() == vstd::math::min(max as int, old(self).inbound_bytes().len() as int)
                    &&& d@ == old(self).inbound_bytes().take(d@.len() as int)
                    &&& final(self).inbound_bytes() == old(self).inbound_bytes().skip(d@.len() as int)
                },
                ReadOutcome::Pending => {
                    &&& old(self).inbound_bytes().len() == 0
                    &&& !old(self).inbound_is_closed()
                    &&& final(self).inbound_bytes() == old(self).inbound_bytes()
                    &&& final(self).inbound_queued() == old(self).inbound_queued()
                },
                ReadOutcome::Eof => {
                    &&& old(self).inbound_bytes().len() == 0
                    &&& old(self).inbound_is_closed()
                    &&& final(self).inbound_bytes() == old(self).inbound_bytes()
                    &&& final(self).inbound_queued() == old(self).inbound_queued()
                },
            },
    {
        proof {
            if self.in_q@.len() == 0 {
                assert(self.inbound_bytes() =~= Seq::<u8>::empty());
            } else {
                assert(self.inbound_bytes().len() > 0);
            }
        }
        if self.in_q.len() == 0 {
            return if self.in_closed {
                ReadOutcome::Eof
            } else {
                ReadOutcome::Pending
            };
        }
        let ghost orig = self.inbound_bytes();
        let mut out: Vec<u8> = Vec::new();
        while out.len() < max && self.in_q.len() > 0
            invariant
                self.wf(),
                self.inbound_queued() <= old(self).inbound_queued(),
                out@.len() <= max,
                out@.len() <= orig.len(),
                out@ == orig.take(out@.len() as int),
                self.inbound_bytes() == orig.skip(out@.len() as int),
                self.in_cap == old(self).in_cap,
                self.out_cap == old(self).out_cap,
                self.out_q == old(self).out_q,
                self.out_closed == old(self).out_closed,
                self.in_closed == old(self).in_closed,
            decreases max - out.len(),
        {
            let ghost n = out@.len() as int;
            let b = self.in_q[0][self.in_pos];
            proof {
                assert(self.inbound_bytes().len() > 0);
                assert(self.inbound_bytes()[0] == self.in_q@[0]@[self.in_pos as int]);
                assert(b == orig[n]);
            }
            out.push(b);
            let first_len = self.in_q[0].len();
            let ghost pre = *self;
            if self.in_pos + 1 == first_len {
                self.in_q.remove(0);
                self.in_pos = 0;
                proof {
                    assert(self.in_q@ =~= pre.in_q@.skip(1));
                    assert(self.inbound_bytes() =~= pre.inbound_bytes().skip(1));
                }
            } else {
                self.in_pos = self.in_pos + 1;
                proof {
                    assert(self.inbound_bytes() =~= pre.inbound_bytes().skip(1));
                }
            }
            proof {
                assert(out@ =~= orig.take(n + 1));
                assert(self.inbound_bytes() =~= orig.skip(n + 1));
            }
        }
        proof {
            if self.in_q@.len() == 0 {
                assert(self.inbound_bytes() =~= Seq::<u8>::empty());
                assert(out@.len() == orig.len());
            } else {
                assert(self.inbound_bytes().len() > 0);
            }
            assert(out@.len() as int == vstd::math::min(max as int, orig.len() as int));
        }
        ReadOutcome::Data(out)
    }

    /// Queues `data` as one indivisible outbound unit for the transport
    /// driver. When the queue is full the caller must suspend and retry:
    /// outbound data is operator-issued and must not be dropped.
    pub fn write(&mut self, data: Vec<u8>) -> (r: WriteOutcome)
        requires
            old(self).wf(),
        ensures
            final(self).wf(),
            old(self).config_unchanged(*final(self)),
            final(self).inbound_bytes() == old(self).inbound_bytes(),
            final(self).inbound_queued() == old(self).inbound_queued(),
            final(self).inbound_is_closed() == old(self).inbound_is_closed(),
            final(self).outbound_is_closed() == old(self).outbound_is_closed(),
            r == WriteOutcome::Closed <==> old(self).outbound_is_closed(),
            old(self).outbound_is_closed() ==> final(self).outbound_units() == old(self).outbound_units(),
            !old(self).outbound_is_closed() && data@.len() == 0 ==> {
                &&& r == WriteOutcome::Queued
                &&& final(self).outbound_units() == old(self).outbound_units()
            },
            !old(self).outbound_is_closed() && data@.len() > 0
                && old(self).outbound_units().len() < old(self).outbound_capacity() ==> {
                &&& r == WriteOutcome::Queued
                &&& final(self).outbound_units() == old(self).outbound_units().push(data@)
            },
            !old(self).outbound_is_closed() && data@.len() > 0
                && old(self).outbound_units().len() >= old(self).outbound_capacity() ==> {
                &&& r == WriteOutcome::WouldBlock
                &&& final(self).outbound_units() == old(self).outbound_units()
            },
    {
        if self.out_closed {
            return WriteOutcome::Closed;
        }
        if data.len() == 0 {
            return WriteOutcome::Queued;
        }
        if self.out_q.len() >= self.out_cap {
            return WriteOutcome::WouldBlock;
        }
        let ghost pre = *self;
        self.out_q.push(data);
        proof {
            assert(final(self).outbound_units() =~= pre.outbound_units().push(data@));
        }
        WriteOutcome::Queued
    }

    /// Consumed by the transport driver: yields the oldest outbound unit,
    /// exactly as written, never merged with a later write.
    pub fn drain_outbound(&mut self) -> (r: ReadOutcome)
        requires
            old(self).wf(),
        ensures
            final(self).wf(),
            old(self).config_unchanged(*final(self)),
            final(self).inbound_bytes() == old(self).inbound_bytes(),
            final(self).inbound_queued() == old(self).inbound_queued(),
            final(self).inbound_is_closed() == old(self).inbound_is_closed(),
            final(self).outbound_is_closed() == old(self).outbound_is_closed(),
            match r {
                ReadOutcome::Data(d) => {
                    &&& old(self).outbound_units().len() > 0
                    &&& d@ == old(self).outbound_units()[0]
                    &&& final(self).outbound_units() == old(self).outbound_units().skip(1)
                },
                ReadOutcome::Pending => {
                    &&& old(self).outbound_units().len() == 0
                    &&& !old(self).outbound_is_closed()
                    &&& final(self).outbound_units() == old(self).outbound_units()
                },
                ReadOutcome::Eof => {
                    &&& old(self).outbound_units().len() == 0
                    &&& old(self).outbound_is_closed()
                    &&& final(self).outbound_units() == old(self).outbound_units()
                },
            },
    {
        if self.out_q.len() == 0 {
            return if self.out_closed {
                ReadOutcome::Eof
            } else {
                ReadOutcome::Pending
            };
        }
        let ghost pre = *self;
        let d = self.out_q.remove(0);
        proof {
            assert(final(self).outbound_units() =~= pre.outbound_units().skip(1));
        }
        ReadOutcome::Data(d)
    }

    /// Marks the outbound side closed, signalling shutdown to any suspended
    /// writer; queued units stay drainable.
    pub fn close_outbound(&mut self)
        requires
            old(self).wf(),
        ensures
            final(self).wf(),
            old(self).config_unchanged(*final(self)),
            final(self).outbound_is_closed(),
            final(self).outbound_units() == old(self).outbound_units(),
            final(self).inbound_bytes() == old(self).inbound_bytes(),
            final(self).inbound_queued() == old(self).inbound_queued(),
            final(self).inbound_is_closed() == old(self).inbound_is_closed(),
    {
        self.out_closed = true;
    }
}

} // verus!
