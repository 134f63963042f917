//! Decoding of hex-encoded selectors and code identifiers.

use vstd::prelude::*;

use crate::errors::GenError;

verus! {

/// A character that is a hex digit, in either case.
pub open spec fn is_hex_digit(c: char) -> bool {
    ('0' <= c && c <= '9') || ('a' <= c && c <= 'f') || ('A' <= c && c <= 'F')
}

/// The value of a hex digit.
pub open spec fn hex_digit_value(c: char) -> int
    recommends
        is_hex_digit(c),
{
    if '0' <= c && c <= '9' {
        c as int - '0' as int
    } else if 'a' <= c && c <= 'f' {
        c as int - 'a' as int + 10
    } else {
        c as int - 'A' as int + 10
    }
}

/// A decodable hex string: even length, hex digits only.
pub open spec fn valid_hex(s: Seq<char>) -> bool {
    s.len() % 2 == 0 && forall|i: int| 0 <= i < s.len() ==> is_hex_digit(s[i])
}

/// The bytes a hex string denotes: one byte per digit pair, the first digit
/// of a pair being the high nibble.
pub open spec fn hex_bytes(s: Seq<char>) -> Seq<u8>
    recommends
        valid_hex(s),
    decreases s.len(),
{
    if s.len() < 2 {
        Seq::empty()
    } else {
        seq![(hex_digit_value(s[0]) * 16 + hex_digit_value(s[1])) as u8] + hex_bytes(s.skip(2))
    }
}

/// Relies on `hex::decode`: turns each pair of hex digits into one byte and
/// rejects odd-length input or any non-hex character (both cases accepted).
#[verifier::external_body]
fn hex_decode(s: &str) -> (r: Option<Vec<u8>>)
    ensures
        match r {
            Some(v) => valid_hex(s@) && v@ == hex_bytes(s@),
            None => !valid_hex(s@),
        },
{
    hex::decode(s).ok()
}

/// `s` without a single leading `0x` marker, if it has one.
pub open spec fn strip_hex_prefix(s: Seq<char>) -> Seq<char> {
    if s.len() >= 2 && s[0] == '0' && s[1] == 'x' {
        s.skip(2)
    } else {
        s
    }
}

/// Parses a hex string, accepting an optional `0x` prefix, into its bytes.
pub fn hex_to_bytes(s: &str) -> (r: Result<Vec<u8>, GenError>)
    ensures
        match r {
            Ok(v) => valid_hex(strip_hex_prefix(s@)) && v@ == hex_bytes(strip_hex_prefix(s@)),
            Err(e) => !valid_hex(strip_hex_prefix(s@)) && e == GenError::InvalidHex,
        },
{
    let n = s.unicode_len();
    let stripped: &str = if n >= 2 && s.get_char(0) == '0' && s.get_char(1) == 'x' {
        let t = s.substring_char(2, n);
        proof {
            assert(t@ =~= strip_hex_prefix(s@));
        }
        t
    } else {
        s
    };
    match hex_decode(stripped) {
        Some(v) => Ok(v),
        None => Err(GenError::InvalidHex),
    }
}

} // verus!
