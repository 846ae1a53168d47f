//! The sensor transaction protocol: the command bytes of the two-step
//! measurement (trigger a conversion, then read the scratchpad), checksum
//! validation of the nine-byte scratchpad, and decoding of the signed
//! fixed-point temperature held in its first two bytes.
//!
//! The bus itself is a collaborator: whoever owns the transport sends the
//! command bytes given here and hands the nine received bytes back to
//! [`read_scratchpad`].

use vstd::prelude::*;
use crate::crc::{crc8, crc8_spec};

verus! {

/// The broadcast selector that addresses the single device on the bus.
pub const SKIP_ROM: u8 = 0xCC;

/// The command that starts an analog-to-digital conversion.
pub const CONVERT_T: u8 = 0x44;

/// The command that asks for the nine-byte scratchpad.
pub const READ_SCRATCHPAD: u8 = 0xBE;

/// How the one sensor transaction can fail.
#[derive(Clone, Copy, PartialEq, Eq, Structural, Debug)]
pub enum SensorError {
    /// The nine received bytes do not satisfy the checksum invariant: the
    /// data is discarded, no temperature is produced.
    ChecksumMismatch,
    /// The bus or a display capability itself reported failure.
    TransportFault,
}

/// A temperature, fresh from one read transaction: a signed fixed-point
/// quantity in units of 1/16 degree.
#[derive(Clone, Copy, PartialEq, Eq, Structural, Debug)]
pub struct Temperature {
    /// The raw 16-bit two's-complement count of sixteenths of a degree.
    pub raw: i16,
}

/// The signed value encoded by two bytes, least-significant byte first,
/// in 16-bit two's complement.
pub open spec fn raw_of(lsb: u8, msb: u8) -> int {
    let v = (msb as int) * 256 + (lsb as int);
    if v >= 0x8000 {
        v - 0x10000
    } else {
        v
    }
}

/// A nine-byte scratchpad is valid exactly when the checksum of all nine
/// bytes, the trailing checksum byte included, is zero.
pub open spec fn scratchpad_valid(s: Seq<u8>) -> bool {
    s.len() == 9 && crc8_spec(s) == 0
}

/// A nine-byte scratchpad made by appending the correct checksum byte to
/// eight arbitrary data bytes is valid: the checksum over all nine bytes
/// comes back zero.
pub proof fn lemma_appended_checksum_is_valid(data: Seq<u8>)
    requires
        data.len() == 8,
    ensures
        scratchpad_valid(data.push(crc8_spec(data))),
{
    crate::crc::lemma_crc8_self_check(data);
}

/// The two command bytes that start a conversion: broadcast selector,
/// then convert. The caller must allow the conversion time (at least
/// 1000 ms) to elapse before reading.
pub fn start_commands() -> (r: [u8; 2])
    ensures
        r@ == seq![SKIP_ROM, CONVERT_T],
{
    let r = [SKIP_ROM, CONVERT_T];
    proof {
        assert(r@ =~= seq![SKIP_ROM, CONVERT_T]);
    }
    r
}

/// The two command bytes that ask for the scratchpad: broadcast selector,
/// then read.
pub fn read_commands() -> (r: [u8; 2])
    ensures
        r@ == seq![SKIP_ROM, READ_SCRATCHPAD],
{
    let r = [SKIP_ROM, READ_SCRATCHPAD];
    proof {
        assert(r@ =~= seq![SKIP_ROM, READ_SCRATCHPAD]);
    }
    r
}

/// Decode the two temperature bytes of the scratchpad, least-significant
/// byte first, as a 16-bit two's-complement count of sixteenths.
pub fn decode_temperature(lsb: u8, msb: u8) -> (t: Temperature)
    ensures
        t.raw as int == raw_of(lsb, msb),
{
    let v: u16 = ((msb as u16) << 8) | (lsb as u16);
    proof {
        assert(((msb as u16) << 8) | (lsb as u16) == (msb as int) * 256 + (lsb as int))
            by (bit_vector);
    }
    if v < 0x8000 {
        Temperature { raw: v as i16 }
    } else {
        let m: u16 = !v;
        proof {
            assert(!v == 0xFFFF - v) by (bit_vector);
        }
        Temperature { raw: -(m as i16) - 1 }
    }
}

/// Validate and decode one nine-byte scratchpad, as received from the
/// bus. Exactly the scratchpads whose checksum is zero decode to a
/// temperature; every other reading fails with `ChecksumMismatch` and
/// yields no value.
pub fn read_scratchpad(data: &[u8; 9]) -> (r: Result<Temperature, SensorError>)
    ensures
        scratchpad_valid(data@) ==> r == Ok::<Temperature, SensorError>(
            Temperature { raw: (raw_of(data@[0], data@[1]) as i16) },
        ),
        !scratchpad_valid(data@) ==> r == Err::<Temperature, SensorError>(
            SensorError::ChecksumMismatch,
        ),
{
    let crc = crc8(data.as_slice());
    if crc == 0 {
        let t = decode_temperature(data[0], data[1]);
        proof {
            assert(-0x8000 <= raw_of(data@[0], data@[1]) < 0x8000);
            assert(t.raw == raw_of(data@[0], data@[1]) as i16);
        }
        Ok(t)
    } else {
        Err(SensorError::ChecksumMismatch)
    }
}

} // verus!
