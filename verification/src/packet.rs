//! Decoded packets and the layout of the composite sensor record.

use vstd::prelude::*;

verus! {

/// Who sent a packet, and its place in the sender's sequence.
#[derive(Clone, Copy, Debug, PartialEq, Eq, Structural)]
pub struct Header {
    pub system_id: u8,
    pub component_id: u8,
    pub sequence: u8,
}

/// One reading of accelerometer, gyroscope and magnetometer, taken at one
/// instant of the device clock.
#[derive(Clone, Copy, Debug, PartialEq, Eq, Structural)]
pub struct CompositeRecord {
    /// Milliseconds since the device booted.
    pub time_boot_ms: u32,
    /// Acceleration along each axis, in milli-g.
    pub xacc: i16,
    pub yacc: i16,
    pub zacc: i16,
    /// Angular rate around each axis, in milliradians per second.
    pub xgyro: i16,
    pub ygyro: i16,
    pub zgyro: i16,
    /// Magnetic field along each axis, in milligauss.
    pub xmag: i16,
    pub ymag: i16,
    pub zmag: i16,
}

/// What a packet carries.
#[derive(Clone, Copy, Debug, PartialEq, Eq, Structural)]
pub enum Payload {
    /// The composite sensor record.
    Composite(CompositeRecord),
    /// A message of the dialect that this library takes note of and does not
    /// look into.
    Other { message_id: u32 },
}

/// A packet whose frame passed every check.
#[derive(Clone, Copy, Debug, PartialEq, Eq, Structural)]
pub struct Packet {
    pub header: Header,
    pub payload: Payload,
}

/// Bytes that the fields of a composite record take up on the wire.
pub const COMPOSITE_LEN: usize = 22;

/// Byte `i` of a payload. A sender leaves off trailing zero bytes, so a byte
/// past the end reads as zero.
pub open spec fn byte_at(payload: Seq<u8>, i: int) -> u8 {
    if 0 <= i < payload.len() {
        payload[i]
    } else {
        0
    }
}

/// The unsigned number that four bytes spell, least significant byte first.
pub open spec fn u32_le(b0: u8, b1: u8, b2: u8, b3: u8) -> int {
    b0 + 256 * b1 + 65_536 * b2 + 16_777_216 * b3
}

/// The signed number that two bytes spell in two's complement, least
/// significant byte first.
pub open spec fn i16_le(lo: u8, hi: u8) -> int {
    if hi >= 128 {
        lo + 256 * hi - 65_536
    } else {
        lo + 256 * hi
    }
}

/// The 16-bit field that starts at byte `at` of a payload.
pub open spec fn field_i16(payload: Seq<u8>, at: int) -> i16 {
    i16_le(byte_at(payload, at), byte_at(payload, at + 1)) as i16
}

/// The composite record that a payload spells: the timestamp in the first
/// four bytes, then the nine readings, two bytes each.
pub open spec fn composite_of(payload: Seq<u8>) -> CompositeRecord {
    CompositeRecord {
        time_boot_ms: u32_le(
            byte_at(payload, 0),
            byte_at(payload, 1),
            byte_at(payload, 2),
            byte_at(payload, 3),
        ) as u32,
        xacc: field_i16(payload, 4),
        yacc: field_i16(payload, 6),
        zacc: field_i16(payload, 8),
        xgyro: field_i16(payload, 10),
        ygyro: field_i16(payload, 12),
        zgyro: field_i16(payload, 14),
        xmag: field_i16(payload, 16),
        ymag: field_i16(payload, 18),
        zmag: field_i16(payload, 20),
    }
}

fn get_byte(payload: &Vec<u8>, i: usize) -> (b: u8)
    ensures
        b == byte_at(payload@, i as int),
{
    if i < payload.len() {
        payload[i]
    } else {
        0
    }
}

fn get_i16(payload: &Vec<u8>, at: usize) -> (v: i16)
    requires
        at < 1000,
    ensures
        v == field_i16(payload@, at as int),
{
    let lo: i32 = get_byte(payload, at) as i32;
    let hi: i32 = get_byte(payload, at + 1) as i32;
    if hi >= 128 {
        (lo + 256 * hi - 65_536) as i16
    } else {
        (lo + 256 * hi) as i16
    }
}

impl CompositeRecord {
    /// Reads a composite record out of the payload of its message.
    pub fn from_payload(payload: &Vec<u8>) -> (record: CompositeRecord)
        ensures
            record == composite_of(payload@),
    {
        let b0: u32 = get_byte(payload, 0) as u32;
        let b1: u32 = get_byte(payload, 1) as u32;
        let b2: u32 = get_byte(payload, 2) as u32;
        let b3: u32 = get_byte(payload, 3) as u32;
        CompositeRecord {
            time_boot_ms: b0 + 256 * b1 + 65_536 * b2 + 16_777_216 * b3,
            xacc: get_i16(payload, 4),
            yacc: get_i16(payload, 6),
            zacc: get_i16(payload, 8),
            xgyro: get_i16(payload, 10),
            ygyro: get_i16(payload, 12),
            zgyro: get_i16(payload, 14),
            xmag: get_i16(payload, 16),
            ymag: get_i16(payload, 18),
            zmag: get_i16(payload, 20),
        }
    }
}

} // verus!
