//! Hardware-address helpers: parsing a MAC address from its textual
//! `aa:bb:cc:dd:ee:ff` form.

use vstd::prelude::*;
use vstd::string::StringSliceAdditionalSpecFns;

verus! {

/// Whether `b` is an ASCII hexadecimal digit.
pub open spec fn is_hex_digit(b: u8) -> bool {
    (48 <= b <= 57) || (97 <= b <= 102) || (65 <= b <= 70)
}

/// The numeric value of an ASCII hexadecimal digit (0 on other bytes).
pub open spec fn hex_digit_value(b: u8) -> u8 {
    if 48 <= b <= 57 {
        (b - 48) as u8
    } else if 97 <= b <= 102 {
        (b - 97 + 10) as u8
    } else if 65 <= b <= 70 {
        (b - 65 + 10) as u8
    } else {
        0
    }
}

/// The value of a hexadecimal digit, or `None` if `b` is none.
pub fn hex_digit_checked(b: u8) -> (r: Option<u8>)
    ensures
        r == if is_hex_digit(b) {
            Some(hex_digit_value(b))
        } else {
            None::<u8>
        },
        r matches Some(v) ==> v < 16,
{
    if 48 <= b && b <= 57 {
        Some(b - 48)
    } else if 97 <= b && b <= 102 {
        Some(b - 97 + 10)
    } else if 65 <= b && b <= 70 {
        Some(b - 65 + 10)
    } else {
        None
    }
}

/// The value of an ASCII hexadecimal digit. Digits outside the
/// hexadecimal alphabet are ruled out by contract.
pub fn from_hex_digit(b: u8) -> (v: u8)
    requires
        is_hex_digit(b),
    ensures
        v == hex_digit_value(b),
        v < 16,
{
    match hex_digit_checked(b) {
        Some(v) => v,
        None => {
            proof {
                assert(false);
            }
            0
        },
    }
}

/// Whether the bytes spell a MAC address: six hexadecimal byte pairs
/// separated by colons, seventeen bytes in all.
pub open spec fn is_mac_text(b: Seq<u8>) -> bool {
    &&& b.len() == 17
    &&& forall|i: int| 0 <= i < 17 && i % 3 != 2 ==> is_hex_digit(#[trigger] b[i])
    &&& forall|i: int| 0 <= i < 17 && i % 3 == 2 ==> #[trigger] b[i] == 58
}

/// The MAC byte at position `i` of a textual address.
pub open spec fn mac_byte(b: Seq<u8>, i: int) -> u8 {
    (16 * hex_digit_value(b[3 * i]) + hex_digit_value(b[3 * i + 1])) as u8
}

/// Parses a textual MAC address into its six bytes. Text that is not a
/// MAC address is ruled out by contract.
pub fn parse_mac(s: &str) -> (out: [u8; 6])
    requires
        is_mac_text(s.spec_bytes()),
    ensures
        forall|i: int| 0 <= i < 6 ==> out@[i] == mac_byte(s.spec_bytes(), i),
{
    let b = s.as_bytes();
    let o0 = 16 * from_hex_digit(b[0]) + from_hex_digit(b[1]);
    let o1 = 16 * from_hex_digit(b[3]) + from_hex_digit(b[4]);
    let o2 = 16 * from_hex_digit(b[6]) + from_hex_digit(b[7]);
    let o3 = 16 * from_hex_digit(b[9]) + from_hex_digit(b[10]);
    let o4 = 16 * from_hex_digit(b[12]) + from_hex_digit(b[13]);
    let o5 = 16 * from_hex_digit(b[15]) + from_hex_digit(b[16]);
    let out = [o0, o1, o2, o3, o4, o5];
    proof {
        assert(out@ =~= seq![o0, o1, o2, o3, o4, o5]);
    }
    out
}

} // verus!
