//! Frame parser: interprets an unstuffed frame as the structured
//! header/payload/checksum record.
//!
//! Layout, all multi-byte integers little-endian:
//! `version:1B` (must be 1), `declared_length:2B` (total bytes following
//! that field), `msg_id:4B`, `channel_len:1B` + `channel` (UTF-8),
//! `ctype_len:1B` + `ctype` (UTF-8), `payload_len:2B` + `payload`, and a
//! trailing `crc32:4B` computed over every preceding byte.

use vstd::prelude::*;
use vstd::slice::slice_subrange;
use vstd::string::StringSliceAdditionalSpecFns;
use vstd::utf8::valid_utf8;

use crate::crc::{crc32_mpeg2, crc32_spec};
use crate::MQTT_PACKET_LEN;

verus! {

/// Why a stuffed body was dropped instead of being dispatched.
#[derive(Clone, Copy, Debug, PartialEq, Eq, Structural)]
pub enum SerialFrameError {
    EmptyFrame,
    CobsZeroByte,
    CobsUnexpectedEof,
    LengthMismatch { declared: usize, actual: usize },
    UnsupportedVersion(u8),
    ChannelTooLong,
    CTypeTooLong,
    InvalidChannelUtf8,
    InvalidCTypeUtf8,
    PayloadTooLarge { len: usize },
    PayloadLengthMismatch,
    TopicTooLong,
    CrcMismatch { expected: u32, actual: u32 },
}

/// A successfully validated frame; a zero-copy view into the decoded
/// buffer. Every bound, the UTF-8 fields and the checksum were checked
/// before construction.
#[derive(Debug)]
pub struct SerialParsedFrame<'a> {
    pub version: u8,
    pub msg_id: u32,
    pub channel: &'a str,
    pub ctype: &'a str,
    pub payload: &'a [u8],
}

/// The little-endian 16-bit value at offset `i`.
pub open spec fn le16_at(s: Seq<u8>, i: int) -> int {
    s[i] + 256 * s[i + 1]
}

/// The little-endian 32-bit value at offset `i`.
pub open spec fn le32_at(s: Seq<u8>, i: int) -> int {
    s[i] + 256 * s[i + 1] + 65536 * s[i + 2] + 16777216 * s[i + 3]
}

/// Bytes of the fixed part of the header before the channel field.
pub open spec fn header_min_len() -> int {
    15
}

pub open spec fn chan_len(d: Seq<u8>) -> int {
    d[7] as int
}

/// End offset (exclusive) of the channel bytes, which start at offset 8.
pub open spec fn chan_end(d: Seq<u8>) -> int {
    8 + chan_len(d)
}

pub open spec fn ctype_len(d: Seq<u8>) -> int {
    d[chan_end(d)] as int
}

/// End offset (exclusive) of the ctype bytes, which follow the ctype
/// length byte at `chan_end`.
pub open spec fn ctype_end(d: Seq<u8>) -> int {
    chan_end(d) + 1 + ctype_len(d)
}

pub open spec fn payload_len(d: Seq<u8>) -> int {
    le16_at(d, ctype_end(d))
}

pub open spec fn payload_start(d: Seq<u8>) -> int {
    ctype_end(d) + 2
}

pub open spec fn payload_end(d: Seq<u8>) -> int {
    payload_start(d) + payload_len(d)
}

pub open spec fn channel_bytes(d: Seq<u8>) -> Seq<u8> {
    d.subrange(8, chan_end(d))
}

pub open spec fn ctype_bytes(d: Seq<u8>) -> Seq<u8> {
    d.subrange(chan_end(d) + 1, ctype_end(d))
}

pub open spec fn payload_bytes(d: Seq<u8>) -> Seq<u8> {
    d.subrange(payload_start(d), payload_end(d))
}

/// The checksum stored in the frame's trailing field.
pub open spec fn crc_field(d: Seq<u8>) -> int {
    le32_at(d, payload_end(d))
}

/// The declared length recorded in the header.
pub open spec fn declared_len(d: Seq<u8>) -> int {
    le16_at(d, 1)
}

/// The validation verdict over a decoded buffer: `Ok` when every check of
/// the frame format passes, otherwise the first failing check's error,
/// in validation order.
pub open spec fn frame_check(d: Seq<u8>) -> Result<(), SerialFrameError> {
    if d.len() < header_min_len() {
        Err(SerialFrameError::LengthMismatch { declared: 0, actual: d.len() as usize })
    } else if d[0] != 1 {
        Err(SerialFrameError::UnsupportedVersion(d[0]))
    } else if declared_len(d) != d.len() - 1 {
        Err(SerialFrameError::LengthMismatch {
            declared: declared_len(d) as usize,
            actual: (d.len() - 1) as usize,
        })
    } else if 8 + chan_len(d) > d.len() {
        Err(SerialFrameError::ChannelTooLong)
    } else if !valid_utf8(channel_bytes(d)) {
        Err(SerialFrameError::InvalidChannelUtf8)
    } else if chan_end(d) >= d.len() || ctype_end(d) > d.len() {
        Err(SerialFrameError::CTypeTooLong)
    } else if !valid_utf8(ctype_bytes(d)) {
        Err(SerialFrameError::InvalidCTypeUtf8)
    } else if ctype_end(d) + 2 > d.len() || payload_end(d) + 4 > d.len() {
        Err(SerialFrameError::PayloadLengthMismatch)
    } else if payload_end(d) + 4 != d.len() {
        Err(SerialFrameError::LengthMismatch {
            declared: declared_len(d) as usize,
            actual: (d.len() - 1) as usize,
        })
    } else if payload_len(d) > MQTT_PACKET_LEN as int {
        Err(SerialFrameError::PayloadTooLarge { len: payload_len(d) as usize })
    } else if crc32_spec(d.subrange(0, payload_end(d))) as int != crc_field(d) {
        Err(SerialFrameError::CrcMismatch {
            expected: crc_field(d) as u32,
            actual: crc32_spec(d.subrange(0, payload_end(d))),
        })
    } else {
        Ok(())
    }
}

/// Relies on `core::str::from_utf8`: it returns `Ok` exactly on valid
/// UTF-8 input, and the returned `str` views the very bytes given.
#[verifier::external_body]
pub(crate) fn bytes_as_utf8(b: &[u8]) -> (r: Option<&str>)
    ensures
        r matches Some(s) ==> valid_utf8(b@) && s.spec_bytes() == b@,
        r is None ==> !valid_utf8(b@),
{
    core::str::from_utf8(b).ok()
}

/// Reads the little-endian 16-bit value at offset `i`.
fn read_le16(buf: &[u8], i: usize) -> (v: u16)
    requires
        i + 2 <= buf@.len(),
    ensures
        v as int == le16_at(buf@, i as int),
{
    (buf[i] as u16) + 256 * (buf[i + 1] as u16)
}

/// Reads the little-endian 32-bit value at offset `i`.
fn read_le32(buf: &[u8], i: usize) -> (v: u32)
    requires
        i + 4 <= buf@.len(),
    ensures
        v as int == le32_at(buf@, i as int),
{
    (buf[i] as u32) + 256 * (buf[i + 1] as u32) + 65536 * (buf[i + 2] as u32) + 16777216 * (buf[i
        + 3] as u32)
}

/// Validates a decoded buffer against the frame format and returns the
/// parsed record, or the first failing check's error. Verified to read
/// only in bounds, whatever the input.
pub fn parse_serial_frame<'a>(buf: &'a [u8]) -> (r: Result<
    SerialParsedFrame<'a>,
    SerialFrameError,
>)
    ensures
        match r {
            Ok(frame) => {
                &&& frame_check(buf@) == Ok::<(), SerialFrameError>(())
                &&& frame.version == 1
                &&& frame.msg_id as int == le32_at(buf@, 3)
                &&& frame.channel.spec_bytes() == channel_bytes(buf@)
                &&& frame.ctype.spec_bytes() == ctype_bytes(buf@)
                &&& frame.payload@ == payload_bytes(buf@)
            },
            Err(e) => frame_check(buf@) == Err::<(), SerialFrameError>(e),
        },
{
    let n = buf.len();
    if n < 15 {
        return Err(SerialFrameError::LengthMismatch { declared: 0, actual: n });
    }

    let version = buf[0];
    if version != 1 {
        return Err(SerialFrameError::UnsupportedVersion(version));
    }

    let declared = read_le16(buf, 1) as usize;
    if declared != n - 1 {
        return Err(SerialFrameError::LengthMismatch { declared, actual: n - 1 });
    }

    let msg_id = read_le32(buf, 3);

    let channel_len = buf[7] as usize;
    if channel_len > n - 8 {
        assert(8 + chan_len(buf@) > buf@.len());
        return Err(SerialFrameError::ChannelTooLong);
    }
    let channel_end = 8 + channel_len;
    let channel = match bytes_as_utf8(slice_subrange(buf, 8, channel_end)) {
        Some(s) => s,
        None => {
            return Err(SerialFrameError::InvalidChannelUtf8);
        },
    };

    if channel_end >= n {
        return Err(SerialFrameError::CTypeTooLong);
    }
    let ct_len = buf[channel_end] as usize;
    if ct_len > n - (channel_end + 1) {
        assert(ctype_end(buf@) > buf@.len());
        return Err(SerialFrameError::CTypeTooLong);
    }
    let ct_end = channel_end + 1 + ct_len;
    let ctype = match bytes_as_utf8(slice_subrange(buf, channel_end + 1, ct_end)) {
        Some(s) => s,
        None => {
            return Err(SerialFrameError::InvalidCTypeUtf8);
        },
    };

    if 2 > n - ct_end {
        assert(ctype_end(buf@) + 2 > buf@.len());
        return Err(SerialFrameError::PayloadLengthMismatch);
    }
    let pay_len = read_le16(buf, ct_end) as usize;
    let pay_start = ct_end + 2;
    if pay_len + 4 > n - pay_start {
        assert(payload_end(buf@) + 4 > buf@.len());
        return Err(SerialFrameError::PayloadLengthMismatch);
    }
    let pay_end = pay_start + pay_len;

    if pay_end + 4 != n {
        return Err(SerialFrameError::LengthMismatch { declared, actual: n - 1 });
    }

    if pay_len > MQTT_PACKET_LEN {
        return Err(SerialFrameError::PayloadTooLarge { len: pay_len });
    }

    let crc_expected = read_le32(buf, pay_end);
    let crc_actual = crc32_mpeg2(slice_subrange(buf, 0, pay_end));
    if crc_actual != crc_expected {
        return Err(SerialFrameError::CrcMismatch { expected: crc_expected, actual: crc_actual });
    }

    let payload = slice_subrange(buf, pay_start, pay_end);
    Ok(SerialParsedFrame { version, msg_id, channel, ctype, payload })
}

/// Law: a buffer too short for the fixed header, or a supported frame
/// whose declared length disagrees with its decoded length (less the
/// version byte), is reported as a `LengthMismatch` carrying both
/// lengths — and, the parser being verified, never as an out-of-bounds
/// access. (A frame of an unsupported version is reported as that
/// first.)
pub proof fn lemma_length_mismatch_detected(d: Seq<u8>)
    ensures
        d.len() < header_min_len() ==> frame_check(d) == Err::<(), SerialFrameError>(
            SerialFrameError::LengthMismatch { declared: 0, actual: d.len() as usize },
        ),
        d.len() >= header_min_len() && d[0] == 1 && declared_len(d) != d.len() - 1
            ==> frame_check(d) == Err::<(), SerialFrameError>(SerialFrameError::LengthMismatch {
            declared: declared_len(d) as usize,
            actual: (d.len() - 1) as usize,
        }),
{
}

/// Law: a channel length that would read past the buffer is reported as
/// `ChannelTooLong`.
pub proof fn lemma_channel_bound_checked(d: Seq<u8>)
    requires
        d.len() >= header_min_len(),
        d[0] == 1,
        declared_len(d) == d.len() - 1,
        8 + chan_len(d) > d.len(),
    ensures
        frame_check(d) == Err::<(), SerialFrameError>(SerialFrameError::ChannelTooLong),
{
}

/// Law: a ctype length that would read past the buffer (or a channel that
/// leaves no room for the ctype length byte) is reported as
/// `CTypeTooLong`.
pub proof fn lemma_ctype_bound_checked(d: Seq<u8>)
    requires
        d.len() >= header_min_len(),
        d[0] == 1,
        declared_len(d) == d.len() - 1,
        8 + chan_len(d) <= d.len(),
        valid_utf8(channel_bytes(d)),
        chan_end(d) >= d.len() || ctype_end(d) > d.len(),
    ensures
        frame_check(d) == Err::<(), SerialFrameError>(SerialFrameError::CTypeTooLong),
{
}

/// Law: a payload length above the configured maximum is reported as
/// `PayloadTooLarge`, whatever the trailing checksum holds.
pub proof fn lemma_payload_cap_enforced(d: Seq<u8>)
    requires
        d.len() >= header_min_len(),
        d[0] == 1,
        declared_len(d) == d.len() - 1,
        8 + chan_len(d) <= d.len(),
        valid_utf8(channel_bytes(d)),
        chan_end(d) < d.len(),
        ctype_end(d) <= d.len(),
        valid_utf8(ctype_bytes(d)),
        ctype_end(d) + 2 <= d.len(),
        payload_end(d) + 4 == d.len(),
        payload_len(d) > MQTT_PACKET_LEN as int,
    ensures
        frame_check(d) == Err::<(), SerialFrameError>(SerialFrameError::PayloadTooLarge {
            len: payload_len(d) as usize,
        }),
{
}

} // verus!
