//! One polling cycle: bytes go from the link into the decoder, and packets
//! from the decoder into the series.

use vstd::prelude::*;
use crate::counter::plus;
use crate::data::{recorded, Data, DataView, SeriesId};
use crate::decoder::{drained, packets_in, residue, DecoderView, FrameDecoder, NeedMoreData};
use crate::decoder::lemma_stream_can_be_cut_anywhere;
use crate::frame::{attempt, Dialect, MAX_FRAME_LEN};
use crate::frame::lemma_attempt_bounds;
use crate::packet::{Packet, Payload};
use crate::serial_connection::{read_outcome, SerialConnection, Status};

verus! {

/// The series after `packet` was taken in: a composite record adds a sample
/// to each of them, any other message changes nothing.
pub open spec fn dispatched(v: DataView, packet: Packet) -> DataView {
    match packet.payload {
        Payload::Composite(record) => recorded(v, record),
        Payload::Other { .. } => v,
    }
}

/// The series after each packet of `packets` was taken in, in order.
pub open spec fn dispatched_all(v: DataView, packets: Seq<Packet>) -> DataView
    decreases packets.len(),
{
    if packets.len() == 0 {
        v
    } else {
        dispatched_all(dispatched(v, packets[0]), packets.skip(1))
    }
}

/// The bytes that the link lets through of those that `arrived`: all of them
/// while it is up, none otherwise.
pub open spec fn let_through(status: Status, arrived: Seq<u8>) -> Seq<u8> {
    if status is Connected {
        arrived
    } else {
        Seq::empty()
    }
}

/// The decoder with `bytes` put behind those that wait.
pub open spec fn fed(v: DecoderView, bytes: Seq<u8>) -> DecoderView {
    DecoderView { buffer: v.buffer + bytes, ..v }
}

/// The link, the decoder and the series of one ground station.
pub struct Pipeline {
    pub serial: SerialConnection,
    pub decoder: FrameDecoder,
    pub data: Data,
}

impl Pipeline {
    /// A pipeline for `dialect`: the link down, nothing buffered, the series
    /// empty.
    pub fn new(dialect: Dialect) -> (pipeline: Pipeline)
        ensures
            forall|id: SeriesId| (#[trigger] pipeline.data@.of(id)).len() == 0,
            pipeline.decoder.spec_dialect() == dialect,
            pipeline.decoder@ == (DecoderView {
                buffer: Seq::empty(),
                packets_received: 0,
                unhandled_packets: 0,
                corrupt_frames: 0,
                bytes_discarded: 0,
            }),
            pipeline.serial.spec_status() == Status::Disconnected,
            pipeline.serial.spec_bytes_read() == 0,
    {
        Pipeline { serial: SerialConnection::new(), decoder: FrameDecoder::new(dialect), data: Data::new() }
    }

    /// One step of draining the port: takes what one read gave, `polled`, and
    /// puts the byte, if the link let one through, behind those that wait to
    /// be decoded. Returns whether there was one; the caller stops polling
    /// for this cycle when there was none.
    pub fn poll_byte(&mut self, polled: Option<u8>) -> (taken: bool)
        ensures
            taken == read_outcome(old(self).serial.spec_status(), polled) is Ok,
            taken ==> final(self).decoder@ == (DecoderView {
                buffer: old(self).decoder@.buffer.push(polled->0),
                ..old(self).decoder@
            }),
            !taken ==> final(self).decoder@ == old(self).decoder@ && final(self).serial == old(
                self,
            ).serial,
            final(self).decoder.spec_dialect() == old(self).decoder.spec_dialect(),
            final(self).serial.spec_status() == old(self).serial.spec_status(),
            final(self).serial.configured_like(&old(self).serial),
            final(self).serial.spec_bytes_read() == if taken {
                plus(old(self).serial.spec_bytes_read(), 1)
            } else {
                old(self).serial.spec_bytes_read()
            },
            final(self).data == old(self).data,
    {
        match self.serial.read_byte(polled) {
            Ok(byte) => {
                self.decoder.push_byte(byte);
                true
            },
            Err(_) => false,
        }
    }

    /// Drains what `arrived` at the port since the last cycle: while the link
    /// is up every byte is counted and put, in order, behind those that wait
    /// to be decoded; otherwise none is taken. Returns how many were taken.
    pub fn take_bytes(&mut self, arrived: &Vec<u8>) -> (taken: usize)
        ensures
            taken == let_through(old(self).serial.spec_status(), arrived@).len(),
            final(self).decoder@ == fed(
                old(self).decoder@,
                let_through(old(self).serial.spec_status(), arrived@),
            ),
            final(self).decoder.spec_dialect() == old(self).decoder.spec_dialect(),
            final(self).serial.spec_status() == old(self).serial.spec_status(),
            final(self).serial.configured_like(&old(self).serial),
            final(self).serial.spec_bytes_read() == plus(
                old(self).serial.spec_bytes_read(),
                taken as int,
            ),
            final(self).data == old(self).data,
    {
        let ghost before = self.decoder@;
        let ghost read_before = self.serial.spec_bytes_read();
        if !self.serial.disconnection_allowed() {
            assert(before.buffer + Seq::<u8>::empty() == before.buffer);
            return 0;
        }
        let n: usize = arrived.len();
        let mut i: usize = 0;
        while i < n
            invariant
                n == arrived@.len(),
                i <= n,
                self.serial.spec_status() is Connected,
                self.serial.spec_status() == old(self).serial.spec_status(),
                self.serial.configured_like(&old(self).serial),
                self.serial.spec_bytes_read() == plus(read_before, i as int),
                self.decoder@ == fed(before, arrived@.subrange(0, i as int)),
                self.decoder.spec_dialect() == old(self).decoder.spec_dialect(),
                self.data == old(self).data,
            decreases n - i,
        {
            let taken: bool = self.poll_byte(Some(arrived[i]));
            assert(taken);
            assert(arrived@.subrange(0, i as int).push(arrived@[i as int]) == arrived@.subrange(
                0,
                i + 1,
            ));
            assert(before.buffer + arrived@.subrange(0, i + 1) == (before.buffer
                + arrived@.subrange(0, i as int)).push(arrived@[i as int]));
            i = i + 1;
        }
        assert(arrived@.subrange(0, n as int) == arrived@);
        n
    }

    /// Takes one decoded packet in: the readings of a composite record go to
    /// their series, any other message leaves the series as they are.
    pub fn handle_packet(&mut self, packet: &Packet)
        ensures
            final(self).data@ == dispatched(old(self).data@, *packet),
            final(self).data.labelled_like(&old(self).data),
            final(self).decoder == old(self).decoder,
            final(self).serial == old(self).serial,
    {
        match packet.payload {
            Payload::Composite(record) => {
                self.data.record(&record);
            },
            Payload::Other { .. } => {},
        }
    }

    /// Decodes until no further packet can be had from what has arrived, and
    /// takes each packet in as it comes. Returns how many there were.
    pub fn decode_available(&mut self) -> (count: usize)
        ensures
            count == packets_in(old(self).decoder@.buffer, old(self).decoder.spec_dialect()).len(),
            final(self).data@ == dispatched_all(
                old(self).data@,
                packets_in(old(self).decoder@.buffer, old(self).decoder.spec_dialect()),
            ),
            final(self).data.labelled_like(&old(self).data),
            final(self).decoder@ == drained(old(self).decoder@, old(self).decoder.spec_dialect()),
            final(self).decoder@.buffer.len() < MAX_FRAME_LEN,
            final(self).decoder.spec_dialect() == old(self).decoder.spec_dialect(),
            final(self).serial == old(self).serial,
    {
        let ghost dialect = self.decoder.spec_dialect();
        let ghost first = self.decoder@;
        let ghost before = self.data@;
        let waiting: usize = self.decoder.buffered();
        let mut count: usize = 0;
        let mut more: bool = true;
        while more
            invariant
                self.data.labelled_like(&old(self).data),
                self.serial == old(self).serial,
                self.decoder.spec_dialect() == dialect,
                more ==> drained(self.decoder@, dialect) == drained(first, dialect),
                !more ==> self.decoder@ == drained(first, dialect),
                !more ==> self.decoder@.buffer.len() < MAX_FRAME_LEN,
                more ==> count + packets_in(self.decoder@.buffer, dialect).len() == packets_in(
                    first.buffer,
                    dialect,
                ).len(),
                !more ==> count == packets_in(first.buffer, dialect).len(),
                more ==> dispatched_all(self.data@, packets_in(self.decoder@.buffer, dialect))
                    == dispatched_all(before, packets_in(first.buffer, dialect)),
                !more ==> self.data@ == dispatched_all(before, packets_in(first.buffer, dialect)),
                more ==> count + self.decoder@.buffer.len() <= first.buffer.len(),
                first.buffer.len() == waiting,
            decreases
                    self.decoder@.buffer.len() + if more {
                        1int
                    } else {
                        0int
                    },
        {
            let ghost now = self.decoder@;
            let ghost held = self.data@;
            proof {
                lemma_attempt_bounds(now.buffer, dialect);
            }
            match self.decoder.decode_next() {
                Ok(packet) => {
                    self.handle_packet(&packet);
                    proof {
                        let rest = packets_in(self.decoder@.buffer, dialect);
                        let all = packets_in(now.buffer, dialect);
                        assert(all == seq![packet] + rest);
                        assert(all[0] == packet);
                        assert(all.skip(1) == rest);
                    }
                    count = count + 1;
                },
                Err(NeedMoreData) => {
                    more = false;
                },
            }
        }
        count
    }
    /// One polling cycle: drains what `arrived` at the port, then decodes
    /// until no further packet can be had and takes each packet in. Returns
    /// how many packets there were.
    pub fn poll_cycle(&mut self, arrived: &Vec<u8>) -> (count: usize)
        ensures
            ({
                let dialect = old(self).decoder.spec_dialect();
                let waiting = fed(
                    old(self).decoder@,
                    let_through(old(self).serial.spec_status(), arrived@),
                );
                &&& count == packets_in(waiting.buffer, dialect).len()
                &&& final(self).data@ == dispatched_all(
                    old(self).data@,
                    packets_in(waiting.buffer, dialect),
                )
                &&& final(self).decoder@ == drained(waiting, dialect)
                &&& final(self).decoder@.buffer.len() < MAX_FRAME_LEN
                &&& final(self).decoder.spec_dialect() == dialect
            }),
            final(self).data.labelled_like(&old(self).data),
            final(self).serial.spec_status() == old(self).serial.spec_status(),
            final(self).serial.configured_like(&old(self).serial),
            final(self).serial.spec_bytes_read() == plus(
                old(self).serial.spec_bytes_read(),
                let_through(old(self).serial.spec_status(), arrived@).len() as int,
            ),
    {
        self.take_bytes(arrived);
        self.decode_available()
    }
}

/// Packets are taken in one after the other: taking in two runs of packets
/// in turn is taking in the two runs joined.
pub proof fn lemma_dispatch_in_turn(v: DataView, first: Seq<Packet>, second: Seq<Packet>)
    ensures
        dispatched_all(v, first + second) == dispatched_all(dispatched_all(v, first), second),
    decreases first.len(),
{
    if first.len() == 0 {
        assert(first + second == second);
    } else {
        let joined = first + second;
        assert(joined[0] == first[0]);
        assert(joined.skip(1) == first.skip(1) + second);
        lemma_dispatch_in_turn(dispatched(v, first[0]), first.skip(1), second);
    }
}

/// The series do not depend on how the bytes fall into cycles: a cycle on
/// what has arrived, followed by a cycle on what arrives later, leaves the
/// series as one cycle on all of it would.
pub proof fn lemma_cycles_add_up(
    v: DataView,
    waiting: Seq<u8>,
    sooner: Seq<u8>,
    later: Seq<u8>,
    dialect: Dialect,
)
    ensures
        dispatched_all(
            dispatched_all(v, packets_in(waiting + sooner, dialect)),
            packets_in(residue(waiting + sooner, dialect) + later, dialect),
        ) == dispatched_all(v, packets_in(waiting + sooner + later, dialect)),
        residue(residue(waiting + sooner, dialect) + later, dialect) == residue(
            waiting + sooner + later,
            dialect,
        ),
{
    lemma_stream_can_be_cut_anywhere(waiting + sooner, later, dialect);
    lemma_dispatch_in_turn(
        v,
        packets_in(waiting + sooner, dialect),
        packets_in(residue(waiting + sooner, dialect) + later, dialect),
    );
}

/// A series only grows: whatever packets are taken in, the samples that a
/// series held before stay at its head, in place.
pub proof fn lemma_series_only_grow(v: DataView, packets: Seq<Packet>, id: SeriesId)
    ensures
        v.of(id).len() <= dispatched_all(v, packets).of(id).len() <= v.of(id).len()
            + packets.len(),
        dispatched_all(v, packets).of(id).subrange(0, v.of(id).len() as int) == v.of(id),
    decreases packets.len(),
{
    if packets.len() == 0 {
        assert(v.of(id).subrange(0, v.of(id).len() as int) == v.of(id));
    } else {
        let next = dispatched(v, packets[0]);
        lemma_series_only_grow(next, packets.skip(1), id);
        let last = dispatched_all(next, packets.skip(1)).of(id);
        assert(next.of(id).subrange(0, v.of(id).len() as int) == v.of(id));
        assert(last.subrange(0, v.of(id).len() as int) == last.subrange(
            0,
            next.of(id).len() as int,
        ).subrange(0, v.of(id).len() as int));
    }
}

} // verus!