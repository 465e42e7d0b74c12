//! Dispatcher: turns a completed stuffed body into the egress topic and
//! payload.
//!
//! The body is unstuffed in place, validated as a frame, and the topic is
//! built by bounded concatenation of the caller's prefix, a literal
//! separator, and the frame's channel string.

use vstd::prelude::*;
use vstd::slice::{slice_subrange, slice_to_vec};
use vstd::string::StringSliceAdditionalSpecFns;
use vstd::utf8::is_ascii_chars;

use crate::cobs::{cobs_decode_in_place, cobs_decode_spec};
use crate::frame::{
    channel_bytes,
    frame_check,
    parse_serial_frame,
    payload_bytes,
    SerialFrameError,
};

verus! {

/// The egress bound on topic length, in bytes.
pub const TOPIC_LEN: usize = 64;

/// Declares `heapless::String`, the fixed-capacity string the topic is
/// built in, so values of it can cross contracts; its contents are only
/// spoken of through `topic_bytes`.
#[verifier::external_type_specification]
#[verifier::external_body]
pub struct ExHeaplessString<const N: usize>(heapless::String<N>);

/// The bytes a bounded topic string holds.
pub uninterp spec fn topic_bytes(t: heapless::String<64>) -> Seq<u8>;

/// Relies on `heapless::String::new`: a fresh string holds no bytes.
#[verifier::external_body]
fn topic_new() -> (t: heapless::String<64>)
    ensures
        topic_bytes(t) == Seq::<u8>::empty(),
{
    heapless::String::new()
}

/// Relies on `heapless::String::push_str`: the bytes of `s` are appended
/// whole when they fit the string's capacity of 64 bytes; otherwise the
/// string is left unchanged and an error is returned.
#[verifier::external_body]
fn topic_push(t: &mut heapless::String<64>, s: &str) -> (r: Result<(), ()>)
    ensures
        r is Ok <==> topic_bytes(*old(t)).len() + s.spec_bytes().len() <= TOPIC_LEN,
        r is Ok ==> topic_bytes(*final(t)) == topic_bytes(*old(t)) + s.spec_bytes(),
        r is Err ==> topic_bytes(*final(t)) == topic_bytes(*old(t)),
{
    t.push_str(s)
}

/// The bytes of the literal separator between the topic prefix and the
/// channel name.
pub open spec fn data_separator() -> Seq<u8> {
    seq![47u8, 100u8, 97u8, 116u8, 97u8, 47u8]
}

/// What dispatching a stuffed body yields: the egress topic bytes and the
/// payload bytes, or the first error on the way there — empty frame,
/// unstuffing error, a failed frame check, or a topic that outgrows the
/// bound.
pub open spec fn dispatch_spec(s: Seq<u8>, prefix: Seq<u8>) -> Result<
    (Seq<u8>, Seq<u8>),
    SerialFrameError,
> {
    if s.len() == 0 {
        Err(SerialFrameError::EmptyFrame)
    } else {
        match cobs_decode_spec(s) {
            Err(e) => Err(e),
            Ok(d) => {
                if d.len() == 0 {
                    Err(SerialFrameError::EmptyFrame)
                } else {
                    match frame_check(d) {
                        Err(e) => Err(e),
                        Ok(_) => {
                            if prefix.len() + data_separator().len() + channel_bytes(d).len()
                                > TOPIC_LEN {
                                Err(SerialFrameError::TopicTooLong)
                            } else {
                                Ok(
                                    (
                                        prefix + data_separator() + channel_bytes(d),
                                        payload_bytes(d),
                                    ),
                                )
                            }
                        },
                    }
                }
            },
        }
    }
}

/// Unstuffs the body in `buf` in place, validates it as a frame, and
/// builds the egress topic (`prefix`, then `/data/`, then the channel)
/// and a copy of the payload — or reports why the frame is dropped.
pub fn prepare_dispatch(buf: &mut Vec<u8>, prefix: &str) -> (r: Result<
    (heapless::String<64>, Vec<u8>),
    SerialFrameError,
>)
    ensures
        match r {
            Ok(tp) => {
                &&& dispatch_spec(old(buf)@, prefix.spec_bytes()) matches Ok(p)
                &&& topic_bytes(tp.0) == p.0
                &&& tp.1@ == p.1
            },
            Err(e) => dispatch_spec(old(buf)@, prefix.spec_bytes()) == Err::<
                (Seq<u8>, Seq<u8>),
                SerialFrameError,
            >(e),
        },
{
    if buf.len() == 0 {
        return Err(SerialFrameError::EmptyFrame);
    }

    let decoded_len = match cobs_decode_in_place(buf) {
        Ok(w) => w,
        Err(e) => {
            return Err(e);
        },
    };
    if decoded_len == 0 {
        return Err(SerialFrameError::EmptyFrame);
    }
    let ghost d = cobs_decode_spec(old(buf)@)->Ok_0;

    let frame_slice = slice_subrange(buf.as_slice(), 0, decoded_len);
    assert(frame_slice@ == d);
    let parsed = match parse_serial_frame(frame_slice) {
        Ok(p) => p,
        Err(e) => {
            return Err(e);
        },
    };

    let separator = "/data/";
    proof {
        reveal_strlit("/data/");
        assert(is_ascii_chars(separator@));
        vstd::utf8::is_ascii_chars_encode_utf8(separator@);
        assert(separator.spec_bytes() =~= data_separator());
    }

    let mut topic = topic_new();
    if topic_push(&mut topic, prefix).is_err() {
        return Err(SerialFrameError::TopicTooLong);
    }
    if topic_push(&mut topic, separator).is_err() {
        return Err(SerialFrameError::TopicTooLong);
    }
    if topic_push(&mut topic, parsed.channel).is_err() {
        return Err(SerialFrameError::TopicTooLong);
    }
    proof {
        assert(topic_bytes(topic) =~= prefix.spec_bytes() + data_separator() + channel_bytes(d));
    }

    let payload = slice_to_vec(parsed.payload);
    Ok((topic, payload))
}

} // verus!
