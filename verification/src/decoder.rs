//! The reassembly buffer and the decoder that takes frames out of it.

use vstd::prelude::*;
use std::collections::VecDeque;
use crate::frame::{attempt, examine, first_candidate, frame_len, packet_at, starts_in, verdict_at};
use crate::frame::{lemma_attempt_bounds, lemma_kept_bytes_are_enough, lemma_packet_is_final};
use crate::frame::{lemma_empty_result_settles, MAX_FRAME_LEN};
use crate::counter::{advance, bump, plus};
use crate::frame::{Dialect, Found, STX};
use crate::packet::{Packet, Payload};

verus! {

/// No packet can be had from what has arrived so far.
#[derive(Clone, Copy, Debug, PartialEq, Eq, Structural)]
pub struct NeedMoreData;

/// What a decoder shows of itself.
pub struct DecoderView {
    /// The bytes that arrived and have not left yet, oldest first.
    pub buffer: Seq<u8>,
    /// Packets handed out.
    pub packets_received: u64,
    /// Packets handed out that carried a message other than the composite
    /// record.
    pub unhandled_packets: u64,
    /// Start markers that were dropped because no frame followed them.
    pub corrupt_frames: u64,
    /// Bytes that were dropped ahead of a frame or of a candidate.
    pub bytes_discarded: u64,
}

/// The view after one attempt to decode.
pub open spec fn after_attempt(v: DecoderView, dialect: Dialect) -> DecoderView {
    let a = attempt(v.buffer, dialect);
    DecoderView {
        buffer: v.buffer.skip(a.consumed),
        packets_received: if a.packet is Some {
            plus(v.packets_received, 1)
        } else {
            v.packets_received
        },
        unhandled_packets: if a.packet is Some && a.packet->0.payload is Other {
            plus(v.unhandled_packets, 1)
        } else {
            v.unhandled_packets
        },
        corrupt_frames: plus(v.corrupt_frames, starts_in(v.buffer, 0, a.skipped) as int),
        bytes_discarded: plus(v.bytes_discarded, a.skipped),
    }
}

/// What one attempt to decode hands back.
pub open spec fn attempt_result(buffer: Seq<u8>, dialect: Dialect) -> Result<Packet, NeedMoreData> {
    match attempt(buffer, dialect).packet {
        Some(packet) => Ok(packet),
        None => Err(NeedMoreData),
    }
}

/// The packets that attempt after attempt takes out of `bytes`, in the order
/// in which their frames lie, until an attempt finds none.
pub open spec fn packets_in(bytes: Seq<u8>, dialect: Dialect) -> Seq<Packet>
    decreases bytes.len(),
{
    let a = attempt(bytes, dialect);
    match a.packet {
        Some(packet) => {
            proof {
                lemma_attempt_bounds(bytes, dialect);
            }
            seq![packet] + packets_in(bytes.skip(a.consumed), dialect)
        },
        None => Seq::empty(),
    }
}

/// The view after attempt upon attempt, up to and with the first that finds
/// no packet.
pub open spec fn drained(v: DecoderView, dialect: Dialect) -> DecoderView
    decreases v.buffer.len(),
{
    if attempt(v.buffer, dialect).packet is Some {
        proof {
            lemma_attempt_bounds(v.buffer, dialect);
        }
        drained(after_attempt(v, dialect), dialect)
    } else {
        after_attempt(v, dialect)
    }
}

/// The bytes that stay in the buffer when attempt upon attempt has found
/// every packet that `bytes` holds.
pub open spec fn residue(bytes: Seq<u8>, dialect: Dialect) -> Seq<u8>
    decreases bytes.len(),
{
    let a = attempt(bytes, dialect);
    if a.packet is Some {
        proof {
            lemma_attempt_bounds(bytes, dialect);
        }
        residue(bytes.skip(a.consumed), dialect)
    } else {
        bytes.skip(a.consumed)
    }
}

/// Draining a decoder leaves `residue` in its buffer, and counts every packet
/// that `packets_in` lists.
pub proof fn lemma_drained_buffer(v: DecoderView, dialect: Dialect)
    ensures
        drained(v, dialect).buffer == residue(v.buffer, dialect),
        drained(v, dialect).packets_received == plus(
            v.packets_received,
            packets_in(v.buffer, dialect).len() as int,
        ),
    decreases v.buffer.len(),
{
    if attempt(v.buffer, dialect).packet is Some {
        lemma_attempt_bounds(v.buffer, dialect);
        lemma_drained_buffer(after_attempt(v, dialect), dialect);
    }
}

/// It makes no difference where the stream of bytes is cut into cycles.
/// Decoding what has arrived, and then what is left together with what
/// arrives later, gives the packets of the whole stream, in the order of the
/// stream, and leaves the same bytes waiting.
pub proof fn lemma_stream_can_be_cut_anywhere(bytes: Seq<u8>, later: Seq<u8>, dialect: Dialect)
    ensures
        packets_in(bytes + later, dialect) == packets_in(bytes, dialect) + packets_in(
            residue(bytes, dialect) + later,
            dialect,
        ),
        residue(bytes + later, dialect) == residue(residue(bytes, dialect) + later, dialect),
    decreases bytes.len(),
{
    let all = bytes + later;
    let a = attempt(bytes, dialect);
    lemma_attempt_bounds(bytes, dialect);
    if a.packet is Some {
        lemma_packet_is_final(bytes, later, dialect);
        let rest = bytes.skip(a.consumed);
        lemma_stream_can_be_cut_anywhere(rest, later, dialect);
        assert(all.skip(a.consumed) == rest + later);
        assert(packets_in(all, dialect) == seq![a.packet->0] + packets_in(rest + later, dialect));
        assert(seq![a.packet->0] + (packets_in(rest, dialect) + packets_in(
            residue(rest, dialect) + later,
            dialect,
        )) == (seq![a.packet->0] + packets_in(rest, dialect)) + packets_in(
            residue(rest, dialect) + later,
            dialect,
        ));
    } else {
        lemma_kept_bytes_are_enough(bytes, later, dialect);
        let kept = bytes.skip(a.consumed) + later;
        lemma_attempt_bounds(kept, dialect);
        lemma_attempt_bounds(all, dialect);
        assert(packets_in(bytes, dialect) == Seq::<Packet>::empty());
        assert(Seq::<Packet>::empty() + packets_in(kept, dialect) == packets_in(kept, dialect));
    }
}

/// Takes packets out of the bytes that arrive. Bytes wait in the buffer until
/// they make up a frame or are found to belong to none.
pub struct FrameDecoder {
    dialect: Dialect,
    buffer: VecDeque<u8>,
    packets_received: u64,
    unhandled_packets: u64,
    corrupt_frames: u64,
    bytes_discarded: u64,
}

impl View for FrameDecoder {
    type V = DecoderView;

    closed spec fn view(&self) -> DecoderView {
        DecoderView {
            buffer: self.buffer@,
            packets_received: self.packets_received,
            unhandled_packets: self.unhandled_packets,
            corrupt_frames: self.corrupt_frames,
            bytes_discarded: self.bytes_discarded,
        }
    }
}

impl FrameDecoder {
    /// The dialect that frames are checked against.
    pub closed spec fn spec_dialect(&self) -> Dialect {
        self.dialect
    }

    /// A decoder for `dialect`, with nothing buffered and nothing counted.
    pub fn new(dialect: Dialect) -> (decoder: FrameDecoder)
        ensures
            decoder.spec_dialect() == dialect,
            decoder@.buffer == Seq::<u8>::empty(),
            decoder@.packets_received == 0,
            decoder@.unhandled_packets == 0,
            decoder@.corrupt_frames == 0,
            decoder@.bytes_discarded == 0,
    {
        FrameDecoder {
            dialect,
            buffer: VecDeque::new(),
            packets_received: 0,
            unhandled_packets: 0,
            corrupt_frames: 0,
            bytes_discarded: 0,
        }
    }

    /// Puts a byte that arrived behind those that wait.
    pub fn push_byte(&mut self, byte: u8)
        ensures
            final(self).spec_dialect() == old(self).spec_dialect(),
            final(self)@ == (DecoderView { buffer: old(self)@.buffer.push(byte), ..old(self)@ }),
    {
        self.buffer.push_back(byte);
    }

    /// How many bytes wait.
    pub fn buffered(&self) -> (n: usize)
        ensures
            n == self@.buffer.len(),
    {
        self.buffer.len()
    }

    /// Packets handed out so far.
    pub fn packets_received(&self) -> (count: u64)
        ensures
            count == self@.packets_received,
    {
        self.packets_received
    }

    /// Packets handed out so far that carried a message other than the
    /// composite record.
    pub fn unhandled_packets(&self) -> (count: u64)
        ensures
            count == self@.unhandled_packets,
    {
        self.unhandled_packets
    }

    /// Start markers dropped so far because no frame followed them.
    pub fn corrupt_frames(&self) -> (count: u64)
        ensures
            count == self@.corrupt_frames,
    {
        self.corrupt_frames
    }

    /// Bytes dropped so far ahead of a frame or of a candidate.
    pub fn bytes_discarded(&self) -> (count: u64)
        ensures
            count == self@.bytes_discarded,
    {
        self.bytes_discarded
    }

    /// Tries to take the next packet out of the buffer.
    ///
    /// Bytes at the head that start no frame are dropped. If a whole frame
    /// with a good checksum follows, it leaves the buffer and its packet is
    /// returned. Otherwise the result is `NeedMoreData`, and what may be the
    /// start of a frame stays in the buffer for the bytes that come later.
    pub fn decode_next(&mut self) -> (next: Result<Packet, NeedMoreData>)
        ensures
            next == attempt_result(old(self)@.buffer, old(self).spec_dialect()),
            final(self)@ == after_attempt(old(self)@, old(self).spec_dialect()),
            final(self).spec_dialect() == old(self).spec_dialect(),
            verdict_at(old(self)@.buffer, old(self).spec_dialect(), 0) is Pending ==> next is Err
                && final(self)@ == old(self)@,
            next is Err ==> final(self)@.buffer.len() <= old(self)@.buffer.len()
                && final(self)@.buffer == old(self)@.buffer.skip(
                old(self)@.buffer.len() - final(self)@.buffer.len(),
            ),
            next is Err ==> final(self)@.buffer.len() < MAX_FRAME_LEN,
    {
        let ghost bytes = self.buffer@;
        let ghost dialect = self.dialect;
        let ghost corrupt_before = self.corrupt_frames;
        let n: usize = self.buffer.len();
        let mut at: usize = 0;
        let mut scanning: bool = true;
        let mut hit: Option<Packet> = None;
        let mut length: usize = 0;
        while scanning && at < n
            invariant
                self.buffer@ == bytes,
                self.dialect == dialect,
                n == bytes.len(),
                at <= n,
                first_candidate(bytes, dialect, 0) == first_candidate(bytes, dialect, at as int),
                self.corrupt_frames == plus(corrupt_before, starts_in(bytes, 0, at as int) as int),
                self.packets_received == old(self).packets_received,
                self.unhandled_packets == old(self).unhandled_packets,
                self.bytes_discarded == old(self).bytes_discarded,
                scanning ==> hit is None,
                !scanning ==> at < n && !(verdict_at(bytes, dialect, at as int) is Reject),
                !scanning && hit is None ==> verdict_at(bytes, dialect, at as int) is Pending,
                hit is Some ==> {
                    &&& verdict_at(bytes, dialect, at as int) is Accept
                    &&& hit == Some(packet_at(bytes, dialect, at as int))
                    &&& length == frame_len(bytes, at as int)
                    &&& at + length <= n
                },
            decreases
                    n - at + if scanning {
                        1int
                    } else {
                        0int
                    },
        {
            match examine(&self.buffer, &self.dialect, at) {
                Found::Reject => {
                    if self.buffer[at] == STX {
                        self.corrupt_frames = bump(self.corrupt_frames);
                    }
                    at = at + 1;
                },
                Found::Pending => {
                    scanning = false;
                },
                Found::Accept { packet, length: whole } => {
                    hit = Some(packet);
                    length = whole;
                    scanning = false;
                },
            }
        }
        assert(first_candidate(bytes, dialect, 0) == at);
        proof {
            if hit is None {
                lemma_empty_result_settles(bytes, dialect);
            }
        }
        self.bytes_discarded = advance(self.bytes_discarded, at);
        match hit {
            Some(packet) => {
                self.buffer = self.buffer.split_off(at + length);
                self.packets_received = bump(self.packets_received);
                match packet.payload {
                    Payload::Other { .. } => {
                        self.unhandled_packets = bump(self.unhandled_packets);
                    },
                    _ => {},
                }
                Ok(packet)
            },
            None => {
                self.buffer = self.buffer.split_off(at);
                assert(at == 0 ==> self.buffer@ == bytes);
                Err(NeedMoreData)
            },
        }
    }
}

} // verus!
