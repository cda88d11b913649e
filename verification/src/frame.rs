//! The MAVLink 2 frame as it lies in a byte sequence.
//!
//! A frame starts with a marker byte and a nine-byte header, carries a payload
//! of the length that the header gives, and ends in a two-byte checksum; a
//! signed frame has thirteen bytes of signature behind that. The checksum
//! covers the header and the payload, together with one more byte that
//! depends on the kind of message, so that only a frame of a known kind can be
//! checked.

use vstd::prelude::*;
use std::collections::VecDeque;
use crate::packet::{composite_of, CompositeRecord, Header, Packet, Payload};

verus! {

/// The byte that starts a frame.
pub const STX: u8 = 0xFD;

/// The start marker and the header, in bytes.
pub const HEADER_LEN: usize = 10;

/// The checksum, in bytes.
pub const CHECKSUM_LEN: usize = 2;

/// The signature of a signed frame, in bytes.
pub const SIGNATURE_LEN: usize = 13;

/// The longest frame there is.
pub const MAX_FRAME_LEN: usize = 280;

/// The incompatibility flags of a signed frame. Every other bit stands for a
/// feature that a reader has to know, and none is known here.
pub const SIGNED: u8 = 1;

/// The checksum that the MAVLink library computes over `data` followed by the
/// extra byte of the message kind.
pub uninterp spec fn frame_checksum(data: Seq<u8>, extra_crc: u8) -> u16;

/// `mavlink_core::calculate_crc`: the CRC-16/MCRF4XX checksum of `data`
/// followed by the byte `extra_crc`. It reads its two arguments and nothing
/// else, so equal arguments give equal checksums. No more is claimed here
/// than that: which number comes out for which bytes is not stated.
pub assume_specification[ mavlink_core::calculate_crc ](data: &[u8], extra_crc: u8) -> (crc: u16)
    ensures
        crc == frame_checksum(data@, extra_crc),
;

/// One kind of message: its number, and the extra byte that goes into the
/// checksum of its frames.
#[derive(Clone, Copy, Debug, PartialEq, Eq, Structural)]
pub struct MessageSpec {
    pub id: u32,
    pub crc_extra: u8,
}

/// The extra byte of the first entry from index `from` on that has the
/// number `id`.
pub open spec fn extra_from(entries: Seq<MessageSpec>, id: int, from: int) -> Option<u8>
    decreases entries.len() - from,
{
    if from < 0 || from >= entries.len() {
        None
    } else if entries[from].id == id {
        Some(entries[from].crc_extra)
    } else {
        extra_from(entries, id, from + 1)
    }
}

/// The kinds of message that a sender may use: the composite sensor record,
/// and those that are only taken note of.
pub struct Dialect {
    pub composite: MessageSpec,
    pub others: Vec<MessageSpec>,
}

impl Dialect {
    /// The extra byte of the message kind `id`, or `None` where the dialect
    /// has no such kind.
    pub open spec fn crc_extra(self, id: int) -> Option<u8> {
        if id == self.composite.id {
            Some(self.composite.crc_extra)
        } else {
            extra_from(self.others@, id, 0)
        }
    }

    /// A dialect of the composite record and the kinds in `others`.
    pub fn new(composite: MessageSpec, others: Vec<MessageSpec>) -> (dialect: Dialect)
        ensures
            dialect.composite == composite,
            dialect.others@ == others@,
    {
        Dialect { composite, others }
    }

    /// Looks up the extra byte of the message kind `id`.
    pub fn lookup(&self, id: u32) -> (extra: Option<u8>)
        ensures
            extra == self.crc_extra(id as int),
    {
        if id == self.composite.id {
            return Some(self.composite.crc_extra);
        }
        let n: usize = self.others.len();
        let mut i: usize = 0;
        while i < n
            invariant
                n == self.others@.len(),
                i <= n,
                id != self.composite.id,
                extra_from(self.others@, id as int, 0) == extra_from(
                    self.others@,
                    id as int,
                    i as int,
                ),
            decreases n - i,
        {
            if self.others[i].id == id {
                return Some(self.others[i].crc_extra);
            }
            i = i + 1;
        }
        None
    }
}

/// The payload length that the header at `at` gives.
pub open spec fn payload_len(bytes: Seq<u8>, at: int) -> int {
    bytes[at + 1] as int
}

/// The incompatibility flags of the header at `at`.
pub open spec fn incompat_flags(bytes: Seq<u8>, at: int) -> u8 {
    bytes[at + 2]
}

/// No flag is set that asks for more than a signature.
pub open spec fn flags_supported(flags: u8) -> bool {
    flags <= SIGNED
}

/// The length of the whole frame whose header lies at `at`.
pub open spec fn frame_len(bytes: Seq<u8>, at: int) -> int {
    HEADER_LEN + payload_len(bytes, at) + CHECKSUM_LEN + if incompat_flags(bytes, at) == SIGNED {
        SIGNATURE_LEN as int
    } else {
        0
    }
}

/// The message number in the header at `at`: three bytes, least significant
/// first.
pub open spec fn message_id(bytes: Seq<u8>, at: int) -> int {
    bytes[at + 7] + 256 * bytes[at + 8] + 65_536 * bytes[at + 9]
}

/// The sender and sequence number in the header at `at`.
pub open spec fn header_at(bytes: Seq<u8>, at: int) -> Header {
    Header { sequence: bytes[at + 4], system_id: bytes[at + 5], component_id: bytes[at + 6] }
}

/// The payload of the frame at `at`.
pub open spec fn payload_at(bytes: Seq<u8>, at: int) -> Seq<u8> {
    bytes.subrange(at + HEADER_LEN, at + HEADER_LEN + payload_len(bytes, at))
}

/// What the checksum of the frame at `at` covers: the header without the
/// start marker, and the payload.
pub open spec fn covered_at(bytes: Seq<u8>, at: int) -> Seq<u8> {
    bytes.subrange(at + 1, at + HEADER_LEN + payload_len(bytes, at))
}

/// The number that the two checksum bytes spell, least significant first.
pub open spec fn checksum_of(lo: u8, hi: u8) -> int {
    lo + 256 * hi
}

/// The checksum that the frame at `at` carries behind its payload.
pub open spec fn stored_checksum(bytes: Seq<u8>, at: int) -> int {
    let end = at + HEADER_LEN + payload_len(bytes, at);
    checksum_of(bytes[end], bytes[end + 1])
}

/// The packet that the frame at `at` holds.
pub open spec fn packet_at(bytes: Seq<u8>, dialect: Dialect, at: int) -> Packet {
    let id = message_id(bytes, at);
    Packet {
        header: header_at(bytes, at),
        payload: if id == dialect.composite.id {
            Payload::Composite(composite_of(payload_at(bytes, at)))
        } else {
            Payload::Other { message_id: id as u32 }
        },
    }
}

/// What the bytes from one position on are found to be.
#[derive(Clone, Copy, Debug, PartialEq, Eq, Structural)]
pub enum Verdict {
    /// No frame starts here.
    Reject,
    /// A frame may start here; too little of it has arrived to tell.
    Pending,
    /// A frame starts here, and its checksum holds.
    Accept,
}

/// The verdict on position `at` of `bytes`. The checks are made in the order
/// in which the bytes that they need arrive: the start marker; with a whole
/// header, the flags and the message number; with a whole frame, the
/// checksum.
pub open spec fn verdict_at(bytes: Seq<u8>, dialect: Dialect, at: int) -> Verdict {
    if at < 0 || at >= bytes.len() || bytes[at] != STX {
        Verdict::Reject
    } else if bytes.len() - at < HEADER_LEN {
        Verdict::Pending
    } else if !flags_supported(incompat_flags(bytes, at)) {
        Verdict::Reject
    } else {
        match dialect.crc_extra(message_id(bytes, at)) {
            None => Verdict::Reject,
            Some(extra) => if bytes.len() - at < frame_len(bytes, at) {
                Verdict::Pending
            } else if stored_checksum(bytes, at) == frame_checksum(covered_at(bytes, at), extra) {
                Verdict::Accept
            } else {
                Verdict::Reject
            },
        }
    }
}

/// The first position from `from` on that is not rejected, or the length of
/// `bytes` where every one is.
pub open spec fn first_candidate(bytes: Seq<u8>, dialect: Dialect, from: int) -> int
    decreases bytes.len() - from,
{
    if from < 0 || from >= bytes.len() {
        bytes.len() as int
    } else if verdict_at(bytes, dialect, from) is Reject {
        first_candidate(bytes, dialect, from + 1)
    } else {
        from
    }
}

/// How many start markers lie in `bytes` from `from` up to, and without,
/// `to`.
pub open spec fn starts_in(bytes: Seq<u8>, from: int, to: int) -> nat
    decreases to - from,
{
    if to <= from {
        0
    } else {
        let here: nat = if bytes[to - 1] == STX {
            1
        } else {
            0
        };
        starts_in(bytes, from, to - 1) + here
    }
}

/// What one attempt to decode does with a buffer.
pub struct Attempt {
    /// The packet found, if one was.
    pub packet: Option<Packet>,
    /// The bytes ahead of the first candidate: each of them was rejected.
    pub skipped: int,
    /// The bytes that leave the buffer: the skipped ones, and the frame of
    /// the packet.
    pub consumed: int,
}

/// One attempt to decode `bytes`. Rejected bytes at the head are dropped. If
/// the first candidate behind them is a frame, the frame is taken. If too
/// little of it has arrived, or nothing is left, there is no packet, and the
/// candidate stays.
pub open spec fn attempt(bytes: Seq<u8>, dialect: Dialect) -> Attempt {
    let at = first_candidate(bytes, dialect, 0);
    if at < bytes.len() && verdict_at(bytes, dialect, at) is Accept {
        Attempt {
            packet: Some(packet_at(bytes, dialect, at)),
            skipped: at,
            consumed: at + frame_len(bytes, at),
        }
    } else {
        Attempt { packet: None, skipped: at, consumed: at }
    }
}

/// Every position from `from` up to the first candidate is rejected, and the
/// first candidate, where there is one, is not.
pub proof fn lemma_first_candidate(bytes: Seq<u8>, dialect: Dialect, from: int)
    requires
        0 <= from <= bytes.len(),
    ensures
        from <= first_candidate(bytes, dialect, from) <= bytes.len(),
        forall|at: int|
            from <= at < first_candidate(bytes, dialect, from) ==> #[trigger] verdict_at(
                bytes,
                dialect,
                at,
            ) is Reject,
        first_candidate(bytes, dialect, from) < bytes.len() ==> !(verdict_at(
            bytes,
            dialect,
            first_candidate(bytes, dialect, from),
        ) is Reject),
    decreases bytes.len() - from,
{
    if from < bytes.len() && verdict_at(bytes, dialect, from) is Reject {
        lemma_first_candidate(bytes, dialect, from + 1);
    }
}

/// An attempt takes bytes from the head of the buffer and no more than it
/// holds. With a packet it takes a whole frame, which is never empty; without
/// one it takes the rejected bytes only.
pub proof fn lemma_attempt_bounds(bytes: Seq<u8>, dialect: Dialect)
    ensures
        0 <= attempt(bytes, dialect).skipped <= attempt(bytes, dialect).consumed <= bytes.len(),
        attempt(bytes, dialect).packet is Some ==> attempt(bytes, dialect).consumed >= attempt(
            bytes,
            dialect,
        ).skipped + HEADER_LEN + CHECKSUM_LEN,
        attempt(bytes, dialect).packet is None ==> attempt(bytes, dialect).consumed == attempt(
            bytes,
            dialect,
        ).skipped,
{
    lemma_first_candidate(bytes, dialect, 0);
}

/// A packet comes only out of a frame that passed every check: it starts
/// with the marker, its flags ask for nothing unknown, its message is one of
/// the dialect, all of it has arrived, and the checksum that it carries is the
/// checksum of its header and payload.
pub proof fn lemma_packet_passed_every_check(bytes: Seq<u8>, dialect: Dialect)
    requires
        attempt(bytes, dialect).packet is Some,
    ensures
        ({
            let at = attempt(bytes, dialect).skipped;
            &&& 0 <= at < bytes.len()
            &&& bytes[at] == STX
            &&& flags_supported(incompat_flags(bytes, at))
            &&& at + frame_len(bytes, at) <= bytes.len()
            &&& dialect.crc_extra(message_id(bytes, at)) is Some
            &&& stored_checksum(bytes, at) == frame_checksum(
                covered_at(bytes, at),
                dialect.crc_extra(message_id(bytes, at))->0,
            )
            &&& attempt(bytes, dialect).packet == Some(packet_at(bytes, dialect, at))
        }),
{
    lemma_first_candidate(bytes, dialect, 0);
}

/// While the buffer starts with what may be a frame of which too little has
/// arrived, an attempt finds no packet and takes no byte.
pub proof fn lemma_pending_frame_is_kept(bytes: Seq<u8>, dialect: Dialect)
    requires
        bytes.len() > 0,
        verdict_at(bytes, dialect, 0) is Pending,
    ensures
        attempt(bytes, dialect).packet is None,
        attempt(bytes, dialect).consumed == 0,
        bytes.skip(attempt(bytes, dialect).consumed) == bytes,
{
}

/// The verdict on a position looks at the bytes from that position on, and
/// at none before it.
pub proof fn lemma_verdict_after_skip(bytes: Seq<u8>, dialect: Dialect, gone: int, at: int)
    requires
        0 <= gone,
        0 <= at,
        gone + at < bytes.len(),
    ensures
        verdict_at(bytes.skip(gone), dialect, at) == verdict_at(bytes, dialect, gone + at),
        verdict_at(bytes, dialect, gone + at) is Accept ==> {
            &&& packet_at(bytes.skip(gone), dialect, at) == packet_at(bytes, dialect, gone + at)
            &&& frame_len(bytes.skip(gone), at) == frame_len(bytes, gone + at)
        },
{
    let cut = bytes.skip(gone);
    if bytes[gone + at] == STX && bytes.len() - (gone + at) >= HEADER_LEN {
        assert(cut[at + 1] == bytes[gone + at + 1]);
        assert(cut[at + 2] == bytes[gone + at + 2]);
        assert(cut[at + 4] == bytes[gone + at + 4]);
        assert(cut[at + 5] == bytes[gone + at + 5]);
        assert(cut[at + 6] == bytes[gone + at + 6]);
        assert(cut[at + 7] == bytes[gone + at + 7]);
        assert(cut[at + 8] == bytes[gone + at + 8]);
        assert(cut[at + 9] == bytes[gone + at + 9]);
        if bytes.len() - (gone + at) >= frame_len(bytes, gone + at) {
            let end = at + HEADER_LEN + payload_len(cut, at);
            assert(cut[end] == bytes[gone + end]);
            assert(cut[end + 1] == bytes[gone + end + 1]);
            assert(covered_at(cut, at) == covered_at(bytes, gone + at));
            assert(payload_at(cut, at) == payload_at(bytes, gone + at));
        }
    }
}

/// Once a position is rejected or accepted, bytes that arrive later change
/// nothing about it: only a pending verdict waits for them.
pub proof fn lemma_verdict_is_final(bytes: Seq<u8>, later: Seq<u8>, dialect: Dialect, at: int)
    requires
        0 <= at < bytes.len(),
        !(verdict_at(bytes, dialect, at) is Pending),
    ensures
        verdict_at(bytes + later, dialect, at) == verdict_at(bytes, dialect, at),
        verdict_at(bytes, dialect, at) is Accept ==> {
            &&& packet_at(bytes + later, dialect, at) == packet_at(bytes, dialect, at)
            &&& frame_len(bytes + later, at) == frame_len(bytes, at)
        },
{
    let all = bytes + later;
    assert(all[at] == bytes[at]);
    if bytes[at] == STX {
        assert(all[at + 1] == bytes[at + 1]);
        assert(all[at + 2] == bytes[at + 2]);
        assert(all[at + 4] == bytes[at + 4]);
        assert(all[at + 5] == bytes[at + 5]);
        assert(all[at + 6] == bytes[at + 6]);
        assert(all[at + 7] == bytes[at + 7]);
        assert(all[at + 8] == bytes[at + 8]);
        assert(all[at + 9] == bytes[at + 9]);
        if flags_supported(incompat_flags(bytes, at)) && dialect.crc_extra(message_id(bytes, at))
            is Some {
            let end = at + HEADER_LEN + payload_len(bytes, at);
            assert(all[end] == bytes[end]);
            assert(all[end + 1] == bytes[end + 1]);
            assert(covered_at(all, at) == covered_at(bytes, at));
            assert(payload_at(all, at) == payload_at(bytes, at));
        }
    }
}

/// Where every position from `from` up to `to` is rejected, the search for
/// the first candidate may as well start at `to`.
pub proof fn lemma_first_candidate_passes_rejects(
    bytes: Seq<u8>,
    dialect: Dialect,
    from: int,
    to: int,
)
    requires
        0 <= from <= to <= bytes.len(),
        forall|at: int| from <= at < to ==> #[trigger] verdict_at(bytes, dialect, at) is Reject,
    ensures
        first_candidate(bytes, dialect, from) == first_candidate(bytes, dialect, to),
    decreases to - from,
{
    if from < to {
        assert(verdict_at(bytes, dialect, from) is Reject);
        lemma_first_candidate_passes_rejects(bytes, dialect, from + 1, to);
    }
}

/// The first candidate of a buffer whose head was cut off is the first
/// candidate of the whole buffer behind the cut.
pub proof fn lemma_first_candidate_after_skip(
    bytes: Seq<u8>,
    dialect: Dialect,
    gone: int,
    from: int,
)
    requires
        0 <= gone,
        0 <= from,
        gone + from <= bytes.len(),
    ensures
        gone + first_candidate(bytes.skip(gone), dialect, from) == first_candidate(
            bytes,
            dialect,
            gone + from,
        ),
    decreases bytes.len() - gone - from,
{
    if gone + from < bytes.len() {
        lemma_verdict_after_skip(bytes, dialect, gone, from);
        if verdict_at(bytes, dialect, gone + from) is Reject {
            lemma_first_candidate_after_skip(bytes, dialect, gone, from + 1);
        }
    }
}

/// Rejected bytes at the head make no difference to an attempt but for their
/// number: with them cut off, the attempt finds the same packet and leaves
/// the same bytes.
pub proof fn lemma_attempt_after_skip(bytes: Seq<u8>, dialect: Dialect, gone: int)
    requires
        0 <= gone <= bytes.len(),
        forall|at: int| 0 <= at < gone ==> #[trigger] verdict_at(bytes, dialect, at) is Reject,
    ensures
        attempt(bytes, dialect).packet == attempt(bytes.skip(gone), dialect).packet,
        attempt(bytes, dialect).skipped == gone + attempt(bytes.skip(gone), dialect).skipped,
        attempt(bytes, dialect).consumed == gone + attempt(bytes.skip(gone), dialect).consumed,
        bytes.skip(attempt(bytes, dialect).consumed) == bytes.skip(gone).skip(
            attempt(bytes.skip(gone), dialect).consumed,
        ),
{
    let cut = bytes.skip(gone);
    lemma_first_candidate_passes_rejects(bytes, dialect, 0, gone);
    lemma_first_candidate_after_skip(bytes, dialect, gone, 0);
    lemma_first_candidate(cut, dialect, 0);
    let at = first_candidate(cut, dialect, 0);
    if at < cut.len() {
        lemma_verdict_after_skip(bytes, dialect, gone, at);
    }
    lemma_attempt_bounds(cut, dialect);
    assert(bytes.skip(gone + attempt(cut, dialect).consumed) == cut.skip(
        attempt(cut, dialect).consumed,
    ));
}

/// An attempt that found a packet finds the same one, in the same place,
/// whatever arrives behind it.
pub proof fn lemma_packet_is_final(bytes: Seq<u8>, later: Seq<u8>, dialect: Dialect)
    requires
        attempt(bytes, dialect).packet is Some,
    ensures
        attempt(bytes + later, dialect) == attempt(bytes, dialect),
        (bytes + later).skip(attempt(bytes, dialect).consumed) == bytes.skip(
            attempt(bytes, dialect).consumed,
        ) + later,
{
    let all = bytes + later;
    lemma_first_candidate(bytes, dialect, 0);
    lemma_attempt_bounds(bytes, dialect);
    let at = first_candidate(bytes, dialect, 0);
    assert forall|q: int| 0 <= q < at implies #[trigger] verdict_at(all, dialect, q) is Reject by {
        assert(verdict_at(bytes, dialect, q) is Reject);
        lemma_verdict_is_final(bytes, later, dialect, q);
    }
    lemma_verdict_is_final(bytes, later, dialect, at);
    lemma_first_candidate_passes_rejects(all, dialect, 0, at);
    assert(first_candidate(all, dialect, at) == at);
}

/// An attempt that found no packet dropped rejected bytes and nothing else,
/// and bytes that arrive later bring none of them back: the next attempt does
/// with what stayed what it would have done with everything.
pub proof fn lemma_kept_bytes_are_enough(bytes: Seq<u8>, later: Seq<u8>, dialect: Dialect)
    requires
        attempt(bytes, dialect).packet is None,
    ensures
        ({
            let gone = attempt(bytes, dialect).consumed;
            let kept = bytes.skip(gone) + later;
            &&& 0 <= gone <= bytes.len()
            &&& forall|at: int| 0 <= at < gone ==> #[trigger] verdict_at(bytes, dialect, at) is Reject
            &&& kept == (bytes + later).skip(gone)
            &&& attempt(bytes + later, dialect).packet == attempt(kept, dialect).packet
            &&& attempt(bytes + later, dialect).consumed == gone + attempt(kept, dialect).consumed
            &&& (bytes + later).skip(attempt(bytes + later, dialect).consumed) == kept.skip(
                attempt(kept, dialect).consumed,
            )
        }),
{
    let all = bytes + later;
    lemma_first_candidate(bytes, dialect, 0);
    let gone = first_candidate(bytes, dialect, 0);
    assert forall|q: int| 0 <= q < gone implies #[trigger] verdict_at(all, dialect, q) is Reject by {
        assert(verdict_at(bytes, dialect, q) is Reject);
        lemma_verdict_is_final(bytes, later, dialect, q);
    }
    lemma_attempt_after_skip(all, dialect, gone);
    assert(all.skip(gone) == bytes.skip(gone) + later);
}

/// What an attempt without a packet leaves is empty or starts with a
/// candidate of which too little has arrived. It is shorter than the longest
/// frame, and a second attempt on it takes nothing: an empty result changes
/// the buffer once at most.
pub proof fn lemma_empty_result_settles(bytes: Seq<u8>, dialect: Dialect)
    requires
        attempt(bytes, dialect).packet is None,
    ensures
        ({
            let kept = bytes.skip(attempt(bytes, dialect).consumed);
            &&& kept.len() == 0 || verdict_at(kept, dialect, 0) is Pending
            &&& kept.len() < MAX_FRAME_LEN
            &&& attempt(kept, dialect).packet is None
            &&& attempt(kept, dialect).consumed == 0
        }),
{
    lemma_first_candidate(bytes, dialect, 0);
    let gone = first_candidate(bytes, dialect, 0);
    if gone < bytes.len() {
        lemma_verdict_after_skip(bytes, dialect, gone, 0);
    }
}

/// Tells whether the checksum `computed` over a frame is the one that the
/// frame carries in its bytes `lo` and `hi`.
pub fn checksum_matches(lo: u8, hi: u8, computed: u16) -> (same: bool)
    ensures
        same == (checksum_of(lo, hi) == computed),
{
    let stored: u16 = lo as u16 + 256 * (hi as u16);
    stored == computed
}

/// What `examine` finds at one position.
pub enum Found {
    Reject,
    Pending,
    Accept { packet: Packet, length: usize },
}

/// Copies the bytes of `buffer` from `from` up to, and without, `to`.
fn copy_range(buffer: &VecDeque<u8>, from: usize, to: usize) -> (bytes: Vec<u8>)
    requires
        from <= to <= buffer@.len(),
    ensures
        bytes@ == buffer@.subrange(from as int, to as int),
{
    let mut bytes: Vec<u8> = Vec::new();
    let mut i: usize = from;
    while i < to
        invariant
            from <= i <= to <= buffer@.len(),
            bytes@ == buffer@.subrange(from as int, i as int),
        decreases to - i,
    {
        bytes.push(buffer[i]);
        i = i + 1;
    }
    bytes
}

/// Finds what the bytes of `buffer` from `at` on are: the verdict, and with
/// a frame its packet and its length.
pub fn examine(buffer: &VecDeque<u8>, dialect: &Dialect, at: usize) -> (found: Found)
    ensures
        match found {
            Found::Reject => verdict_at(buffer@, *dialect, at as int) is Reject,
            Found::Pending => verdict_at(buffer@, *dialect, at as int) is Pending,
            Found::Accept { packet, length } => {
                &&& verdict_at(buffer@, *dialect, at as int) is Accept
                &&& packet == packet_at(buffer@, *dialect, at as int)
                &&& length == frame_len(buffer@, at as int)
                &&& at + length <= buffer@.len()
            },
        },
{
    let n: usize = buffer.len();
    if at >= n || buffer[at] != STX {
        return Found::Reject;
    }
    if n - at < HEADER_LEN {
        return Found::Pending;
    }
    let flags: u8 = buffer[at + 2];
    if flags > SIGNED {
        return Found::Reject;
    }
    let id: u32 = buffer[at + 7] as u32 + 256 * (buffer[at + 8] as u32) + 65_536 * (buffer[at
        + 9] as u32);
    let extra: u8 = match dialect.lookup(id) {
        None => {
            return Found::Reject;
        },
        Some(extra) => extra,
    };
    let len: usize = buffer[at + 1] as usize;
    let signature: usize = if flags == SIGNED {
        SIGNATURE_LEN
    } else {
        0
    };
    let length: usize = HEADER_LEN + len + CHECKSUM_LEN + signature;
    if n - at < length {
        return Found::Pending;
    }
    let end: usize = at + HEADER_LEN + len;
    let covered: Vec<u8> = copy_range(buffer, at + 1, end);
    let computed: u16 = mavlink_core::calculate_crc(covered.as_slice(), extra);
    if !checksum_matches(buffer[end], buffer[end + 1], computed) {
        return Found::Reject;
    }
    let header = Header {
        sequence: buffer[at + 4],
        system_id: buffer[at + 5],
        component_id: buffer[at + 6],
    };
    let payload = if id == dialect.composite.id {
        let bytes: Vec<u8> = copy_range(buffer, at + HEADER_LEN, end);
        Payload::Composite(CompositeRecord::from_payload(&bytes))
    } else {
        Payload::Other { message_id: id }
    };
    Found::Accept { packet: Packet { header, payload }, length }
}

} // verus!
