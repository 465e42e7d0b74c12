//! Tests for the checksum, the byte unstuffer and the frame parser.

use serial_gateway::cobs::cobs_decode_in_place;
use serial_gateway::crc::crc32_mpeg2;
use serial_gateway::frame::{parse_serial_frame, SerialFrameError};

/// A reference COBS encoder, independent of the library's decoder, used
/// to generate stuffed test fixtures.
fn cobs_encode(data: &[u8]) -> Vec<u8> {
    let mut out = vec![0u8];
    let mut code_idx = 0;
    let mut code: u8 = 1;
    for &b in data {
        if b == 0 {
            out[code_idx] = code;
            code_idx = out.len();
            out.push(0);
            code = 1;
        } else {
            out.push(b);
            code += 1;
            if code == 0xFF {
                out[code_idx] = code;
                code_idx = out.len();
                out.push(0);
                code = 1;
            }
        }
    }
    out[code_idx] = code;
    out
}

/// Builds a wire frame: header, payload and a correct trailing CRC.
fn build_frame(version: u8, msg_id: u32, channel: &[u8], ctype: &[u8], payload: &[u8]) -> Vec<u8> {
    let mut f = vec![version, 0, 0];
    f.extend_from_slice(&msg_id.to_le_bytes());
    f.push(channel.len() as u8);
    f.extend_from_slice(channel);
    f.push(ctype.len() as u8);
    f.extend_from_slice(ctype);
    f.extend_from_slice(&(payload.len() as u16).to_le_bytes());
    f.extend_from_slice(payload);
    let declared = (f.len() + 4 - 1) as u16;
    f[1..3].copy_from_slice(&declared.to_le_bytes());
    let crc = crc32_mpeg2(&f);
    f.extend_from_slice(&crc.to_le_bytes());
    f
}

#[test]
fn crc32_mpeg2_matches_reference() {
    assert_eq!(crc32_mpeg2(b"123456789"), 0x0376E6E7);
}

#[test]
fn crc32_mpeg2_empty_is_initial_register() {
    assert_eq!(crc32_mpeg2(b""), 0xFFFF_FFFF);
}

#[test]
fn cobs_round_trip_zero_free_bodies() {
    for len in 0..100usize {
        let body: Vec<u8> = (0..len).map(|i| (i % 255) as u8 + 1).collect();
        let mut stuffed = cobs_encode(&body);
        let decoded_len = cobs_decode_in_place(&mut stuffed).expect("must decode");
        assert_eq!(&stuffed[..decoded_len], &body[..]);
    }
}

#[test]
fn cobs_round_trip_bodies_with_zeros() {
    let cases: Vec<Vec<u8>> = vec![
        vec![0],
        vec![0, 0],
        vec![1, 2, 0, 3],
        vec![0, 1, 0],
        (0..600).map(|i| (i % 256) as u8).collect(),
    ];
    for body in cases {
        let mut stuffed = cobs_encode(&body);
        let decoded_len = cobs_decode_in_place(&mut stuffed).expect("must decode");
        assert_eq!(&stuffed[..decoded_len], &body[..]);
    }
}

#[test]
fn cobs_zero_length_code_is_rejected() {
    let mut buf = vec![0u8];
    assert_eq!(cobs_decode_in_place(&mut buf), Err(SerialFrameError::CobsZeroByte));
    let mut buf = vec![3u8, 7, 8, 0, 9];
    assert_eq!(cobs_decode_in_place(&mut buf), Err(SerialFrameError::CobsZeroByte));
}

#[test]
fn cobs_truncated_input_is_rejected() {
    let mut buf = vec![5u8, 1];
    assert_eq!(cobs_decode_in_place(&mut buf), Err(SerialFrameError::CobsUnexpectedEof));
    let mut buf = vec![2u8, 1, 4];
    assert_eq!(cobs_decode_in_place(&mut buf), Err(SerialFrameError::CobsUnexpectedEof));
}

#[test]
fn parse_accepts_well_formed_frame() {
    let frame = build_frame(1, 7, b"a", b"t", b"hi");
    let parsed = parse_serial_frame(&frame).expect("must parse");
    assert_eq!(parsed.version, 1);
    assert_eq!(parsed.msg_id, 7);
    assert_eq!(parsed.channel, "a");
    assert_eq!(parsed.ctype, "t");
    assert_eq!(parsed.payload, b"hi");
}

#[test]
fn parse_reads_message_id_little_endian() {
    let frame = build_frame(1, 0xDEAD_BEEF, b"chan", b"json", b"payload");
    let parsed = parse_serial_frame(&frame).expect("must parse");
    assert_eq!(parsed.msg_id, 0xDEAD_BEEF);
    assert_eq!(frame[3..7], [0xEF, 0xBE, 0xAD, 0xDE]);
}

#[test]
fn parse_rejects_short_input() {
    let r = parse_serial_frame(&[1, 2, 3]);
    assert_eq!(r.unwrap_err(), SerialFrameError::LengthMismatch { declared: 0, actual: 3 });
}

#[test]
fn parse_rejects_unsupported_version() {
    let frame = build_frame(2, 7, b"a", b"t", b"hi");
    let r = parse_serial_frame(&frame);
    assert_eq!(r.unwrap_err(), SerialFrameError::UnsupportedVersion(2));
}

#[test]
fn parse_rejects_declared_length_mismatch() {
    let mut frame = build_frame(1, 7, b"a", b"t", b"hi");
    let actual = frame.len() - 1;
    let wrong = (actual + 1) as u16;
    frame[1..3].copy_from_slice(&wrong.to_le_bytes());
    let r = parse_serial_frame(&frame);
    assert_eq!(r.unwrap_err(), SerialFrameError::LengthMismatch {
        declared: actual + 1,
        actual,
    });
}

#[test]
fn parse_rejects_channel_running_past_buffer() {
    // Minimal 15-byte frame whose channel length points far past the end.
    let mut frame = vec![1u8, 14, 0, 7, 0, 0, 0, 200, 0, 0, 0, 0, 0, 0, 0];
    assert_eq!(frame.len(), 15);
    frame[7] = 200;
    let r = parse_serial_frame(&frame);
    assert_eq!(r.unwrap_err(), SerialFrameError::ChannelTooLong);
}

#[test]
fn parse_rejects_ctype_running_past_buffer() {
    // The channel fills the rest of the buffer, leaving no ctype length.
    let frame = vec![1u8, 14, 0, 7, 0, 0, 0, 7, b'a', b'a', b'a', b'a', b'a', b'a', b'a'];
    let r = parse_serial_frame(&frame);
    assert_eq!(r.unwrap_err(), SerialFrameError::CTypeTooLong);

    // A ctype length that points past the end.
    let frame2 = vec![1u8, 15, 0, 7, 0, 0, 0, 1, b'a', 200, 0, 0, 0, 0, 0, 0];
    let r2 = parse_serial_frame(&frame2);
    assert_eq!(r2.unwrap_err(), SerialFrameError::CTypeTooLong);
}

#[test]
fn parse_rejects_invalid_channel_utf8() {
    let frame = build_frame(1, 7, &[0xFF], b"t", b"hi");
    let r = parse_serial_frame(&frame);
    assert_eq!(r.unwrap_err(), SerialFrameError::InvalidChannelUtf8);
}

#[test]
fn parse_rejects_invalid_ctype_utf8() {
    let frame = build_frame(1, 7, b"a", &[0xC0], b"hi");
    let r = parse_serial_frame(&frame);
    assert_eq!(r.unwrap_err(), SerialFrameError::InvalidCTypeUtf8);
}

#[test]
fn parse_rejects_payload_running_past_buffer() {
    let mut frame = build_frame(1, 7, b"a", b"t", b"hi");
    // Claim a payload longer than what remains before the checksum.
    let pay_len_offset = 3 + 4 + 1 + 1 + 1 + 1;
    frame[pay_len_offset..pay_len_offset + 2].copy_from_slice(&100u16.to_le_bytes());
    let r = parse_serial_frame(&frame);
    assert_eq!(r.unwrap_err(), SerialFrameError::PayloadLengthMismatch);
}

#[test]
fn parse_rejects_trailing_garbage() {
    let mut frame = build_frame(1, 7, b"a", b"t", b"hi");
    frame.push(0x55);
    let actual = frame.len() - 1;
    frame[1..3].copy_from_slice(&(actual as u16).to_le_bytes());
    let declared = actual;
    let r = parse_serial_frame(&frame);
    assert_eq!(r.unwrap_err(), SerialFrameError::LengthMismatch { declared, actual });
}

#[test]
fn parse_rejects_oversized_payload() {
    let payload = vec![0x42u8; 1025];
    let frame = build_frame(1, 7, b"a", b"t", &payload);
    let r = parse_serial_frame(&frame);
    assert_eq!(r.unwrap_err(), SerialFrameError::PayloadTooLarge { len: 1025 });
}

#[test]
fn parse_accepts_payload_at_the_cap() {
    let payload = vec![0x42u8; 1024];
    let frame = build_frame(1, 7, b"a", b"t", &payload);
    let parsed = parse_serial_frame(&frame).expect("payload at the cap is fine");
    assert_eq!(parsed.payload.len(), 1024);
}

#[test]
fn parse_rejects_corrupted_checksum() {
    let mut frame = build_frame(1, 7, b"a", b"t", b"hi");
    let n = frame.len();
    frame[n - 1] ^= 0xFF;
    let expected = u32::from_le_bytes([frame[n - 4], frame[n - 3], frame[n - 2], frame[n - 1]]);
    let actual = crc32_mpeg2(&frame[..n - 4]);
    let r = parse_serial_frame(&frame);
    assert_eq!(r.unwrap_err(), SerialFrameError::CrcMismatch { expected, actual });
}
