//! Relay-command parsing: turns a control payload of hexadecimal byte
//! pairs into per-output values for the relay driver.
//!
//! Each pair of text characters names one output's value; a missing,
//! incomplete or malformed pair leaves that output untouched (`None`).

use vstd::prelude::*;
use vstd::utf8::valid_utf8;

use crate::frame::bytes_as_utf8;
use crate::mac::{hex_digit_checked, hex_digit_value, is_hex_digit};

verus! {

/// How many relay outputs a command addresses.
pub const NUM_OUT: usize = 4;

/// Why a control payload was rejected outright.
#[derive(Clone, Copy, Debug, PartialEq, Eq, Structural)]
pub enum RelayCommandError {
    InvalidUtf8,
}

/// The value one pair of text bytes encodes, as integer parsing of
/// two-character hexadecimal text sees it: two digits, or a sign
/// followed by what still yields a representable value.
pub open spec fn hex_pair_value(a: u8, b: u8) -> Option<u8> {
    if is_hex_digit(a) && is_hex_digit(b) {
        Some((16 * hex_digit_value(a) + hex_digit_value(b)) as u8)
    } else if a == 43 && is_hex_digit(b) {
        Some(hex_digit_value(b))
    } else if a == 45 && b == 48 {
        Some(0u8)
    } else {
        None
    }
}

/// The value commanded for output `i`, if the payload holds a complete,
/// well-formed pair for it.
pub open spec fn relay_slot(payload: Seq<u8>, i: int) -> Option<u8> {
    if 2 * i + 2 <= payload.len() {
        hex_pair_value(payload[2 * i], payload[2 * i + 1])
    } else {
        None
    }
}

/// The value of the pair at text positions `2 * i`, `2 * i + 1`.
fn pair_at(payload: &[u8], i: usize) -> (r: Option<u8>)
    requires
        i < 4,
    ensures
        r == relay_slot(payload@, i as int),
{
    if 2 * i + 2 > payload.len() {
        return None;
    }
    let a = payload[2 * i];
    let b = payload[2 * i + 1];
    match hex_digit_checked(a) {
        Some(va) => match hex_digit_checked(b) {
            Some(vb) => Some(16 * va + vb),
            None => None,
        },
        None => {
            if a == 43 {
                hex_digit_checked(b)
            } else if a == 45 && b == 48 {
                Some(0)
            } else {
                None
            }
        },
    }
}

/// One output's reaction to a command value: the new hold deadline (in
/// seconds, `u64::MAX` meaning held indefinitely) and the level to drive,
/// if any — `true` is the released (high) level, `false` the driven (low)
/// level of the active-low outputs. Zero releases the output at once,
/// 255 holds it indefinitely, any other value holds it that many seconds
/// past `now`; an absent command leaves the output untouched.
pub open spec fn relay_apply_slot(timer: Option<u64>, now: u64, cmd: Option<u8>) -> (
    Option<u64>,
    Option<bool>,
) {
    match cmd {
        None => (timer, None),
        Some(s) => {
            if s == 0 {
                (None, Some(true))
            } else if s == 255 {
                (Some(u64::MAX), Some(false))
            } else {
                (Some((now + s) as u64), Some(false))
            }
        },
    }
}

/// One output's reaction to the clock reaching `now`: a deadline in the
/// past releases the output and clears the timer; a pending deadline
/// keeps it driven; an output without a deadline is left untouched.
pub open spec fn relay_expire_slot(timer: Option<u64>, now: u64) -> (Option<u64>, Option<bool>) {
    match timer {
        None => (None, None),
        Some(t) => {
            if t < now {
                (None, Some(true))
            } else {
                (Some(t), Some(false))
            }
        },
    }
}

/// One output's reaction to a command value; see `relay_apply_slot`.
fn relay_apply_one(timer: Option<u64>, now: u64, cmd: Option<u8>) -> (r: (Option<u64>, Option<
    bool,
>))
    requires
        now < u64::MAX - 255,
    ensures
        r == relay_apply_slot(timer, now, cmd),
{
    match cmd {
        None => (timer, None),
        Some(s) => {
            if s == 0 {
                (None, Some(true))
            } else if s == 255 {
                (Some(u64::MAX), Some(false))
            } else {
                (Some(now + s as u64), Some(false))
            }
        },
    }
}

/// Applies a parsed relay command to the four outputs' hold deadlines,
/// returning the new deadlines and the level each addressed output must
/// be driven to. The clock is ruled away from the last 255 seconds of
/// its range so a deadline cannot wrap.
pub fn apply_relay_packet(timers: [Option<u64>; 4], now: u64, command: [Option<u8>; 4]) -> (r: (
    [Option<u64>; 4],
    [Option<bool>; 4],
))
    requires
        now < u64::MAX - 255,
    ensures
        forall|i: int|
            0 <= i < 4 ==> (#[trigger] r.0@[i], r.1@[i]) == relay_apply_slot(
                timers@[i],
                now,
                command@[i],
            ),
{
    let s0 = relay_apply_one(timers[0], now, command[0]);
    let s1 = relay_apply_one(timers[1], now, command[1]);
    let s2 = relay_apply_one(timers[2], now, command[2]);
    let s3 = relay_apply_one(timers[3], now, command[3]);
    let r = ([s0.0, s1.0, s2.0, s3.0], [s0.1, s1.1, s2.1, s3.1]);
    proof {
        assert(r.0@ =~= seq![s0.0, s1.0, s2.0, s3.0]);
        assert(r.1@ =~= seq![s0.1, s1.1, s2.1, s3.1]);
        assert(timers@ =~= seq![timers@[0], timers@[1], timers@[2], timers@[3]]);
        assert(command@ =~= seq![command@[0], command@[1], command@[2], command@[3]]);
    }
    r
}

/// One output's reaction to the clock; see `relay_expire_slot`.
fn relay_expire_one(timer: Option<u64>, now: u64) -> (r: (Option<u64>, Option<bool>))
    ensures
        r == relay_expire_slot(timer, now),
{
    match timer {
        None => (None, None),
        Some(t) => {
            if t < now {
                (None, Some(true))
            } else {
                (Some(t), Some(false))
            }
        },
    }
}

/// Releases every output whose hold deadline has passed and keeps the
/// rest driven, returning the new deadlines and the levels to drive.
pub fn expire_relay_timers(timers: [Option<u64>; 4], now: u64) -> (r: (
    [Option<u64>; 4],
    [Option<bool>; 4],
))
    ensures
        forall|i: int|
            0 <= i < 4 ==> (#[trigger] r.0@[i], r.1@[i]) == relay_expire_slot(timers@[i], now),
{
    let s0 = relay_expire_one(timers[0], now);
    let s1 = relay_expire_one(timers[1], now);
    let s2 = relay_expire_one(timers[2], now);
    let s3 = relay_expire_one(timers[3], now);
    let r = ([s0.0, s1.0, s2.0, s3.0], [s0.1, s1.1, s2.1, s3.1]);
    proof {
        assert(r.0@ =~= seq![s0.0, s1.0, s2.0, s3.0]);
        assert(r.1@ =~= seq![s0.1, s1.1, s2.1, s3.1]);
        assert(timers@ =~= seq![timers@[0], timers@[1], timers@[2], timers@[3]]);
    }
    r
}

/// The smaller of a bound and an optional deadline.
pub open spec fn nearer_deadline(bound: u64, timer: Option<u64>) -> u64 {
    match timer {
        None => bound,
        Some(t) => {
            if t < bound {
                t
            } else {
                bound
            }
        },
    }
}

/// The earliest pending hold deadline, or `u64::MAX` when none is set:
/// how long the driver may sleep before an output must be released.
pub fn soonest_deadline(timers: &[Option<u64>; 4]) -> (d: u64)
    ensures
        d == nearer_deadline(
            nearer_deadline(
                nearer_deadline(nearer_deadline(u64::MAX, timers@[0]), timers@[1]),
                timers@[2],
            ),
            timers@[3],
        ),
{
    let mut d = u64::MAX;
    if let Some(t) = timers[0] {
        if t < d {
            d = t;
        }
    }
    if let Some(t) = timers[1] {
        if t < d {
            d = t;
        }
    }
    if let Some(t) = timers[2] {
        if t < d {
            d = t;
        }
    }
    if let Some(t) = timers[3] {
        if t < d {
            d = t;
        }
    }
    d
}

/// Parses a control payload into per-output relay values: the payload
/// must be UTF-8 text; each complete hexadecimal pair commands one
/// output, and every other position is left untouched.
pub fn parse_relay_command(payload: &[u8]) -> (r: Result<[Option<u8>; 4], RelayCommandError>)
    ensures
        r is Ok <==> valid_utf8(payload@),
        r matches Ok(slots) ==> forall|i: int| 0 <= i < 4 ==> slots@[i] == relay_slot(payload@, i),
{
    if bytes_as_utf8(payload).is_none() {
        return Err(RelayCommandError::InvalidUtf8);
    }
    let s0 = pair_at(payload, 0);
    let s1 = pair_at(payload, 1);
    let s2 = pair_at(payload, 2);
    let s3 = pair_at(payload, 3);
    let slots = [s0, s1, s2, s3];
    proof {
        assert(slots@ =~= seq![s0, s1, s2, s3]);
    }
    Ok(slots)
}

} // verus!
