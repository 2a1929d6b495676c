//! The measurement codec boundary.
//!
//! One datagram is one record attempt. The codec — kiwi_measurements'
//! fixed-width binary layout with a trailing checksum — is an outside
//! collaborator: a decoded record is carried through the pipeline as an
//! opaque value, and the contracts here state exactly when a byte span
//! decodes and when it is rejected, without restating the codec.

use vstd::prelude::*;

verus! {

/// kiwi_measurements' timestamped measurement record. Opaque here: the
/// pipeline never looks inside one, it only batches and hands them on.
#[verifier::external_type_specification]
#[verifier::external_body]
pub struct ExSingleMeasurement(kiwi_measurements::SingleMeasurement);

/// Why the codec rejected a datagram.
#[derive(Clone, Copy, Debug, PartialEq, Eq, Structural)]
pub enum DecodeFailure {
    /// Not exactly one record wide.
    Length,
    /// The trailing checksum does not match.
    Crc,
    /// The leading type code names no known measurement.
    Tag,
    /// A device-identity record whose label bytes are not valid text.
    Text,
}

/// The fixed width of one encoded record, and so of one well-formed
/// datagram.
pub const RECORD_BYTES: usize = 24;

/// The little-endian 16-bit value at positions `i`, `i + 1`.
pub open spec fn u16_le(b: Seq<u8>, i: int) -> u16 {
    (b[i] + b[i + 1] * 256) as u16
}

/// The type codes the codec knows: accelerometer, gyroscope, magnetometer,
/// temperature, barometer, humidity, ambient light, device identity, and
/// signal strength.
pub open spec fn known_code(c: u16) -> bool {
    ||| c == 0xACC1
    ||| c == 0x6e50
    ||| c == 0x9A61
    ||| c == 0x7E70
    ||| c == 0xB480
    ||| c == 0xF0AC
    ||| c == 0x1A2B
    ||| c == 0x1D1D
    ||| c == 0x5A5A
}

/// The device-identity type code, the one whose payload is a text label.
pub const ID_CODE: u16 = 0x1D1D;

/// The CRC-16/XMODEM checksum of `data`, as the crc16 crate computes it.
/// Named, not restated: nothing here re-derives a checksum.
pub uninterp spec fn crc_of(data: Seq<u8>) -> u16;

/// Whether `b` is valid UTF-8, as core::str::from_utf8 decides it. Named,
/// not restated.
pub uninterp spec fn utf8_ok(b: Seq<u8>) -> bool;

/// Whether the last two bytes hold, little-endian, the checksum of the
/// first 22.
pub open spec fn crc_matches(b: Seq<u8>) -> bool {
    u16_le(b, 22) == crc_of(b.take(22))
}

/// A datagram the codec accepts: exactly one record wide, checksummed over
/// its first 22 bytes with the CRC in the last two, carrying a known type
/// code, and — for a device-identity record — a text label.
pub open spec fn wire_ok(b: Seq<u8>) -> bool {
    &&& b.len() == RECORD_BYTES
    &&& crc_matches(b)
    &&& known_code(u16_le(b, 0))
    &&& (u16_le(b, 0) == ID_CODE ==> utf8_ok(b.subrange(2, 14)))
}

/// The record a well-formed datagram decodes to: a function of the bytes
/// alone. Named, not restated: its fields hold floats read straight from
/// the payload, which no contract here can spell out.
pub uninterp spec fn decoded_of(b: Seq<u8>) -> kiwi_measurements::SingleMeasurement;

/// Relies on kiwi_measurements' `SingleMeasurement::try_from`: a datagram
/// that is not exactly 24 bytes is rejected first, then one whose trailing
/// little-endian CRC-16 (XMODEM, over the first 22 bytes) does not match,
/// then an unknown leading type code, then a device-identity record whose
/// label is not valid UTF-8; every other datagram decodes to one record.
#[verifier::external_body]
pub(crate) fn decode_measurement(buf: &[u8]) -> (r: Result<kiwi_measurements::SingleMeasurement, DecodeFailure>)
    ensures
        r is Ok <==> wire_ok(buf@),
        r is Ok ==> r.unwrap() == decoded_of(buf@),
        (r matches Err(DecodeFailure::Length)) <==> buf@.len() != RECORD_BYTES,
        (r matches Err(DecodeFailure::Crc)) <==> (buf@.len() == RECORD_BYTES && u16_le(buf@, 22) != crc_of(buf@.take(22))),
        (r matches Err(DecodeFailure::Tag)) <==> (buf@.len() == RECORD_BYTES && crc_matches(buf@) && !known_code(u16_le(buf@, 0))),
        (r matches Err(DecodeFailure::Text)) <==> (buf@.len() == RECORD_BYTES && crc_matches(buf@) && u16_le(buf@, 0) == ID_CODE && !utf8_ok(buf@.subrange(2, 14))),
{
    match kiwi_measurements::SingleMeasurement::try_from(buf) {
        Ok(m) => Ok(m),
        Err(kiwi_measurements::CommonMeasurementError::Length) => Err(DecodeFailure::Length),
        Err(kiwi_measurements::CommonMeasurementError::CrcMismatch) => Err(DecodeFailure::Crc),
        Err(kiwi_measurements::CommonMeasurementError::Type) => Err(DecodeFailure::Tag),
        Err(kiwi_measurements::CommonMeasurementError::String) => Err(DecodeFailure::Text),
    }
}

/// What serde_json renders a record batch as. Named, not restated: the
/// record's float fields have no place in a contract here.
pub uninterp spec fn batch_json(records: Seq<kiwi_measurements::SingleMeasurement>) -> Seq<char>;

/// Relies on serde_json::to_string for a vector of records: a JSON array in
/// input order. For this type serialization cannot fail — there are no map
/// keys and no fallible Serialize, and a non-finite float renders as null.
#[verifier::external_body]
pub(crate) fn serialize_batch(records: &Vec<kiwi_measurements::SingleMeasurement>) -> (r: String)
    ensures
        r@ == batch_json(records@),
{
    serde_json::to_string(records).unwrap_or_default()
}

} // verus!
