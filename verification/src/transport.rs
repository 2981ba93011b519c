//! Framing and per-connection queueing.
//!
//! On the wire an event travels as a frame: a four-byte big-endian
//! length, then that many bytes of encoded event. A frame with declared
//! length zero is a heartbeat: the sender emits one every five seconds
//! when idle, and a receiver that sees no frame for fifteen seconds
//! (three missed pulses) declares the connection dead. A declared length
//! over [`MAX_FRAME_LEN`] is a protocol error and ends the connection.
//!
//! [`lemma_stream_round_trip`] proves that a receiver reading a sender's
//! concatenated frames recovers exactly the events that were sent, in the
//! order they were sent.

use vstd::prelude::*;
use crate::codec::{
    be_bytes, be_val, event_wf, lemma_be_bytes_len, lemma_be_val_bound, lemma_be_val_of_be_bytes,
    lemma_decode_encode, lemma_encode_len, lemma_pow256_values, push_be_bytes, read_be_val,
    spec_decode, spec_encode,
};
use crate::events::{Event, EventV};

verus! {

/// The largest payload a peer may declare; larger declared lengths are a
/// protocol error. Event frames are small, so a budget in the low tens
/// of kilobytes is ample.
pub const MAX_FRAME_LEN: usize = 32768;

/// How often an idle sender emits a zero-length heartbeat frame.
pub const HEARTBEAT_INTERVAL_MS: u64 = 5000;

/// How long a receiver waits for a frame before declaring the peer dead:
/// three missed heartbeats.
pub const READ_DEADLINE_MS: u64 = 15000;

/// How long a dialing agent waits for the TCP connection and handshake.
pub const CONNECT_TIMEOUT_MS: u64 = 10000;

/// How many events an inbound or outbound channel buffers.
pub const CHANNEL_CAPACITY: usize = 100;

/// A framed payload: four length bytes, then the payload itself.
pub open spec fn spec_frame(p: Seq<u8>) -> Seq<u8> {
    be_bytes(p.len() as int, 4) + p
}

/// Frames a payload for the wire.
pub fn frame(payload: &[u8]) -> (r: Vec<u8>)
    requires
        payload@.len() < 0x100000000,
    ensures
        r@ == spec_frame(payload@),
{
    proof {
        lemma_pow256_values();
    }
    let mut out: Vec<u8> = Vec::new();
    push_be_bytes(&mut out, payload.len() as u64, 4);
    out.extend_from_slice(payload);
    assert(out@ =~= spec_frame(payload@));
    out
}

/// The zero-length frame that serves as a liveness pulse.
pub fn heartbeat_frame() -> (r: Vec<u8>)
    ensures
        r@ == spec_frame(Seq::empty()),
{
    proof {
        lemma_pow256_values();
    }
    let mut out: Vec<u8> = Vec::new();
    push_be_bytes(&mut out, 0u64, 4);
    assert(out@ =~= spec_frame(Seq::empty()));
    out
}

/// What the front of a receive buffer holds.
#[derive(Debug, Clone, PartialEq, Eq)]
pub enum FrameParse {
    /// Not enough bytes arrived yet; read more.
    Incomplete,
    /// A zero-length frame: the peer is alive, nothing to decode.
    HeartbeatTick,
    /// A complete frame: its payload, ready for [`crate::codec::decode`].
    Payload(Vec<u8>),
    /// The declared length exceeds the budget: a protocol error.
    Oversized,
}

/// The model of a [`FrameParse`].
pub enum FrameParseV {
    Incomplete,
    HeartbeatTick,
    Payload(Seq<u8>),
    Oversized,
}

impl View for FrameParse {
    type V = FrameParseV;

    open spec fn view(&self) -> FrameParseV {
        match self {
            FrameParse::Incomplete => FrameParseV::Incomplete,
            FrameParse::HeartbeatTick => FrameParseV::HeartbeatTick,
            FrameParse::Payload(p) => FrameParseV::Payload(p@),
            FrameParse::Oversized => FrameParseV::Oversized,
        }
    }
}

/// What parsing the front of `b` yields, with `max` the payload budget.
pub open spec fn spec_parse_frame(b: Seq<u8>, max: int) -> FrameParseV {
    if b.len() < 4 {
        FrameParseV::Incomplete
    } else {
        let l = be_val(b.subrange(0, 4));
        if l == 0 {
            FrameParseV::HeartbeatTick
        } else if l > max {
            FrameParseV::Oversized
        } else if b.len() < 4 + l {
            FrameParseV::Incomplete
        } else {
            FrameParseV::Payload(b.subrange(4, 4 + l))
        }
    }
}

/// How many bytes the front frame of `b` occupies.
pub open spec fn spec_frame_len(b: Seq<u8>, max: int) -> int {
    match spec_parse_frame(b, max) {
        FrameParseV::HeartbeatTick => 4,
        FrameParseV::Payload(p) => 4 + p.len() as int,
        _ => 0,
    }
}

/// Reassembles frames from the byte chunks a socket delivers.
///
/// Bytes go in with [`feed`](Self::feed) in whatever pieces they arrive;
/// [`next_frame`](Self::next_frame) takes one frame off the front when a
/// whole one is there.
pub struct FrameReader {
    buf: Vec<u8>,
}

impl View for FrameReader {
    type V = Seq<u8>;

    closed spec fn view(&self) -> Seq<u8> {
        self.buf@
    }
}

impl FrameReader {
    /// An empty reassembly buffer.
    pub fn new() -> (r: FrameReader)
        ensures
            r@ == Seq::<u8>::empty(),
    {
        FrameReader { buf: Vec::new() }
    }

    /// Appends freshly received bytes.
    pub fn feed(&mut self, bytes: &[u8])
        ensures
            final(self)@ == old(self)@ + bytes@,
    {
        self.buf.extend_from_slice(bytes);
    }

    /// How many bytes wait in the buffer.
    pub fn buffered(&self) -> (n: usize)
        ensures
            n == self@.len(),
    {
        self.buf.len()
    }

    /// Takes one frame off the front of the buffer, if a whole one is
    /// there. Consumes the frame's bytes on a heartbeat or a payload and
    /// nothing otherwise; an oversized declaration leaves the buffer as
    /// it stands, since the connection is dead either way.
    pub fn next_frame(&mut self) -> (r: FrameParse)
        ensures
            r@ == spec_parse_frame(old(self)@, MAX_FRAME_LEN as int),
            final(self)@ == old(self)@.skip(spec_frame_len(old(self)@, MAX_FRAME_LEN as int)),
    {
        proof {
            lemma_pow256_values();
        }
        let blen = self.buf.len();
        if blen < 4 {
            assert(old(self)@.skip(0) =~= old(self)@);
            return FrameParse::Incomplete;
        }
        proof {
            lemma_be_val_bound(self.buf@.subrange(0, 4));
        }
        let l64 = read_be_val(self.buf.as_slice(), 0, 4);
        if l64 == 0 {
            drop_front(&mut self.buf, 4);
            return FrameParse::HeartbeatTick;
        }
        if l64 > (MAX_FRAME_LEN as u64) {
            assert(old(self)@.skip(0) =~= old(self)@);
            return FrameParse::Oversized;
        }
        let l = l64 as usize;
        if blen < 4 + l {
            assert(old(self)@.skip(0) =~= old(self)@);
            return FrameParse::Incomplete;
        }
        let payload = vstd::slice::slice_to_vec(
            vstd::slice::slice_subrange(self.buf.as_slice(), 4, 4 + l),
        );
        drop_front(&mut self.buf, 4 + l);
        FrameParse::Payload(payload)
    }
}

/// Removes the first `n` bytes of `v`.
fn drop_front(v: &mut Vec<u8>, n: usize)
    requires
        n <= old(v)@.len(),
    ensures
        final(v)@ == old(v)@.skip(n as int),
{
    let len = v.len();
    let mut rest: Vec<u8> = Vec::new();
    let mut i: usize = n;
    while i < len
        invariant
            n <= i <= len,
            len == v@.len(),
            v@ == old(v)@,
            rest@ == old(v)@.subrange(n as int, i as int),
        decreases len - i,
    {
        let b = v[i];
        rest.push(b);
        proof {
            assert(old(v)@.subrange(n as int, (i + 1) as int) =~= old(v)@.subrange(
                n as int,
                i as int,
            ).push(b));
        }
        i = i + 1;
    }
    assert(rest@ =~= old(v)@.skip(n as int));
    *v = rest;
}

// ---------------------------------------------------------------------
// The outbound queue.
// ---------------------------------------------------------------------

/// The bounded queue between a producer (the capture path) and a
/// connection's sender task.
///
/// The producer must never block: when the queue is full, the oldest
/// queued event is dropped to make room, and the drop is counted. What
/// stays leaves in the order it came.
pub struct OutboundQueue {
    items: Vec<Event>,
    capacity: usize,
    dropped: u64,
}

impl OutboundQueue {
    /// The queued events, oldest first.
    pub closed spec fn queued(&self) -> Seq<Event> {
        self.items@
    }

    /// The queue's fixed capacity.
    pub closed spec fn cap(&self) -> int {
        self.capacity as int
    }

    /// How many events were dropped because the queue was full.
    pub closed spec fn dropped_events(&self) -> int {
        self.dropped as int
    }

    /// The bound always holds.
    pub closed spec fn wf(&self) -> bool {
        self.capacity >= 1 && self.items@.len() <= self.capacity as int
    }

    /// An empty queue with the given capacity.
    pub fn new(capacity: usize) -> (q: OutboundQueue)
        requires
            capacity >= 1,
        ensures
            q.wf(),
            q.queued() == Seq::<Event>::empty(),
            q.cap() == capacity,
            q.dropped_events() == 0,
    {
        OutboundQueue { items: Vec::new(), capacity, dropped: 0 }
    }

    /// How many events wait in the queue.
    pub fn len(&self) -> (n: usize)
        ensures
            n == self.queued().len(),
    {
        self.items.len()
    }

    /// How many events were dropped so far. The count saturates rather
    /// than wrap.
    pub fn dropped_count(&self) -> (n: u64)
        ensures
            n as int == self.dropped_events(),
    {
        self.dropped
    }

    /// Enqueues an event without ever blocking: when the queue is full,
    /// the oldest queued event makes room and is counted as dropped.
    pub fn push(&mut self, e: Event)
        requires
            old(self).wf(),
        ensures
            final(self).wf(),
            final(self).cap() == old(self).cap(),
            old(self).queued().len() < old(self).cap() ==> {
                &&& final(self).queued() == old(self).queued().push(e)
                &&& final(self).dropped_events() == old(self).dropped_events()
            },
            old(self).queued().len() == old(self).cap() ==> {
                &&& final(self).queued() == old(self).queued().drop_first().push(e)
                &&& final(self).dropped_events() == if old(self).dropped_events() < u64::MAX {
                    old(self).dropped_events() + 1
                } else {
                    old(self).dropped_events()
                }
            },
    {
        if self.items.len() == self.capacity {
            let _oldest = self.items.remove(0);
            if self.dropped < u64::MAX {
                self.dropped = self.dropped + 1;
            }
            proof {
                assert(self.items@ =~= old(self).items@.drop_first());
            }
        }
        self.items.push(e);
    }

    /// Dequeues the oldest event, if any.
    pub fn pop(&mut self) -> (r: Option<Event>)
        requires
            old(self).wf(),
        ensures
            final(self).wf(),
            final(self).cap() == old(self).cap(),
            final(self).dropped_events() == old(self).dropped_events(),
            match r {
                Some(e) => old(self).queued().len() > 0 && e == old(self).queued()[0]
                    && final(self).queued() == old(self).queued().drop_first(),
                None => old(self).queued().len() == 0
                    && final(self).queued() == old(self).queued(),
            },
    {
        if self.items.len() == 0 {
            None
        } else {
            let e = self.items.remove(0);
            proof {
                assert(self.items@ =~= old(self).items@.drop_first());
            }
            Some(e)
        }
    }
}

// ---------------------------------------------------------------------
// Round trips across the wire.
// ---------------------------------------------------------------------

/// A framed, encoded event survives the trip: the receiver parses off
/// exactly the payload that was framed, and decoding it returns the
/// original event. A zero-length frame parses as a heartbeat tick,
/// never as an event.
pub proof fn lemma_frame_round_trip(ev: EventV)
    requires
        event_wf(ev),
        spec_encode(ev).len() <= MAX_FRAME_LEN,
    ensures
        spec_parse_frame(spec_frame(spec_encode(ev)), MAX_FRAME_LEN as int) == FrameParseV::Payload(
            spec_encode(ev),
        ),
        spec_decode(spec_encode(ev)) == Some(ev),
{
    lemma_pow256_values();
    let p = spec_encode(ev);
    let b = spec_frame(p);
    lemma_encode_len(ev);
    lemma_be_bytes_len(p.len() as int, 4);
    assert(b.subrange(0, 4) =~= be_bytes(p.len() as int, 4));
    lemma_be_val_of_be_bytes(p.len() as int, 4);
    assert(b.subrange(4, 4 + p.len() as int) =~= p);
    lemma_decode_encode(ev);
}

/// The heartbeat frame is exactly the liveness pulse: it parses as a
/// tick and carries no payload.
pub proof fn lemma_heartbeat_frame()
    ensures
        spec_parse_frame(spec_frame(Seq::<u8>::empty()), MAX_FRAME_LEN as int)
            == FrameParseV::HeartbeatTick,
        spec_frame(Seq::<u8>::empty()).len() == 4,
{
    lemma_pow256_values();
    let b = spec_frame(Seq::<u8>::empty());
    lemma_be_bytes_len(0, 4);
    assert(b =~= be_bytes(0, 4));
    assert(b.subrange(0, 4) =~= be_bytes(0, 4));
    lemma_be_val_of_be_bytes(0, 4);
}

/// A sender's outbound bytes: each event framed, one after the next.
pub open spec fn spec_encode_stream(evs: Seq<EventV>) -> Seq<u8>
    decreases evs.len(),
{
    if evs.len() == 0 {
        Seq::empty()
    } else {
        spec_frame(spec_encode(evs[0])) + spec_encode_stream(evs.drop_first())
    }
}

/// Whether every event of a stream fits the wire formats and the frame
/// budget.
pub open spec fn stream_wf(evs: Seq<EventV>) -> bool {
    forall|i: int|
        0 <= i < evs.len() ==> event_wf(#[trigger] evs[i]) && spec_encode(evs[i]).len()
            <= MAX_FRAME_LEN
}

/// The events a receiver recovers from a byte string: frames parsed off
/// the front one at a time, heartbeats skipped, payloads decoded.
/// `None` when the bytes end mid-frame or hold a frame that is oversized
/// or undecodable.
pub open spec fn spec_decode_stream(b: Seq<u8>) -> Option<Seq<EventV>>
    decreases b.len(),
{
    if b.len() == 0 {
        Some(Seq::empty())
    } else if b.len() < 4 {
        None
    } else {
        let l = be_val(b.subrange(0, 4));
        if l == 0 {
            spec_decode_stream(b.skip(4))
        } else if 1 <= l <= MAX_FRAME_LEN as int && 4 + l <= b.len() {
            match spec_decode(b.subrange(4, 4 + l)) {
                Some(ev) => match spec_decode_stream(b.skip(4 + l)) {
                    Some(rest) => Some(seq![ev] + rest),
                    None => None,
                },
                None => None,
            }
        } else {
            None
        }
    }
}

/// Within one connection, what comes out is what went in: decoding the
/// concatenation of a sender's frames recovers the sent events in the
/// exact order the sender enqueued them.
pub proof fn lemma_stream_round_trip(evs: Seq<EventV>)
    requires
        stream_wf(evs),
    ensures
        spec_decode_stream(spec_encode_stream(evs)) == Some(evs),
    decreases evs.len(),
{
    if evs.len() == 0 {
        assert(spec_encode_stream(evs).len() == 0);
    } else {
        lemma_pow256_values();
        let ev = evs[0];
        let p = spec_encode(ev);
        let rest_bytes = spec_encode_stream(evs.drop_first());
        let b = spec_encode_stream(evs);
        assert(b == spec_frame(p) + rest_bytes);
        lemma_encode_len(ev);
        lemma_be_bytes_len(p.len() as int, 4);
        assert(b.subrange(0, 4) =~= be_bytes(p.len() as int, 4));
        lemma_be_val_of_be_bytes(p.len() as int, 4);
        assert(b.len() >= 4 + p.len() as int);
        assert(b.subrange(4, 4 + p.len() as int) =~= p);
        assert(spec_parse_frame(b, MAX_FRAME_LEN as int) == FrameParseV::Payload(p));
        lemma_decode_encode(ev);
        assert(b.skip(4 + p.len() as int) =~= rest_bytes);
        lemma_stream_round_trip(evs.drop_first());
        assert(seq![ev] + evs.drop_first() =~= evs);
    }
}

/// Heartbeats are transparent: a liveness pulse in front of a byte
/// string changes nothing about the events recovered from it.
pub proof fn lemma_heartbeat_transparent(b: Seq<u8>)
    ensures
        spec_decode_stream(spec_frame(Seq::<u8>::empty()) + b) == spec_decode_stream(b),
{
    lemma_pow256_values();
    let hb = spec_frame(Seq::<u8>::empty());
    lemma_heartbeat_frame();
    let whole = hb + b;
    assert(whole.subrange(0, 4) =~= be_bytes(0, 4));
    lemma_be_val_of_be_bytes(0, 4);
    assert(whole.len() >= 4);
    assert(spec_parse_frame(whole, MAX_FRAME_LEN as int) == FrameParseV::HeartbeatTick);
    assert(whole.skip(4) =~= b);
}

} // verus!
