//! Percent-encoding of query strings.
//!
//! The remote API expects the query component encoded the way JavaScript's
//! component encoding does it: ASCII alphanumerics and `- _ . ! ~ * ' ( )`
//! pass through, every other UTF-8 byte becomes `%` and two uppercase hex
//! digits.

use vstd::prelude::*;
use vstd::string::StrSliceExecFns;
use crate::text::dec_digit;

verus! {

/// A byte the encoding leaves untouched.
pub open spec fn is_unreserved(b: u8) -> bool {
    (0x41 <= b <= 0x5a) || (0x61 <= b <= 0x7a) || (0x30 <= b <= 0x39) || b == 0x2d || b == 0x5f
        || b == 0x2e || b == 0x21 || b == 0x7e || b == 0x2a || b == 0x27 || b == 0x28 || b == 0x29
}

/// The uppercase hex digit character for a value in `0..16`.
pub open spec fn hex_digit(n: int) -> char {
    if n < 10 {
        dec_digit(n)
    } else {
        ((0x41 + n - 10) as u8) as char
    }
}

/// The characters one byte encodes to.
pub open spec fn enc_byte(b: u8) -> Seq<char> {
    if is_unreserved(b) {
        seq![b as char]
    } else {
        seq!['%', hex_digit(b as int / 16), hex_digit(b as int % 16)]
    }
}

/// Percent-encoding of a byte sequence.
pub open spec fn percent_encoded_bytes(bytes: Seq<u8>) -> Seq<char>
    decreases bytes.len(),
{
    if bytes.len() == 0 {
        Seq::empty()
    } else {
        percent_encoded_bytes(bytes.drop_last()) + enc_byte(bytes.last())
    }
}

/// Component encoding of a string: its UTF-8 bytes percent-encoded.
pub open spec fn spec_encode_uri_component(s: Seq<char>) -> Seq<char> {
    percent_encoded_bytes(vstd::utf8::encode_utf8(s))
}

/// Relies on String::from_utf8: ASCII bytes decode to the characters
/// with the same code points.
#[verifier::external_body]
fn ascii_bytes_to_string(v: Vec<u8>) -> (r: String)
    requires
        forall|i: int| 0 <= i < v@.len() ==> v@[i] < 0x80,
    ensures
        r@ == v@.map_values(|b: u8| b as char),
{
    match String::from_utf8(v) {
        Ok(s) => s,
        Err(_) => String::new(),
    }
}

/// Percent-encode a string for use as a URL query component.
pub fn encode_uri_component(s: &str) -> (r: String)
    ensures
        r@ == spec_encode_uri_component(s@),
{
    let bytes = s.as_bytes_vec();
    proof {
        assert(bytes@ == vstd::utf8::encode_utf8(s@));
    }
    let mut out: Vec<u8> = Vec::new();
    let mut i: usize = 0;
    while i < bytes.len()
        invariant
            i <= bytes@.len(),
            forall|k: int| 0 <= k < out@.len() ==> out@[k] < 0x80,
            out@.map_values(|b: u8| b as char) == percent_encoded_bytes(
                bytes@.subrange(0, i as int),
            ),
        decreases bytes@.len() - i,
    {
        let b = bytes[i];
        let ghost before = out@;
        if (0x41 <= b && b <= 0x5a) || (0x61 <= b && b <= 0x7a) || (0x30 <= b && b <= 0x39) || b
            == 0x2d || b == 0x5f || b == 0x2e || b == 0x21 || b == 0x7e || b == 0x2a || b == 0x27
            || b == 0x28 || b == 0x29 {
            out.push(b);
            proof {
                assert(out@.map_values(|x: u8| x as char) =~= before.map_values(|x: u8| x as char)
                    + seq![b as char]);
            }
        } else {
            out.push(0x25);
            let hi = b / 16;
            let lo = b % 16;
            let hb: u8 = if hi < 10 {
                0x30 + hi
            } else {
                0x41 + (hi - 10)
            };
            let lb: u8 = if lo < 10 {
                0x30 + lo
            } else {
                0x41 + (lo - 10)
            };
            out.push(hb);
            out.push(lb);
            proof {
                assert(hb as char == hex_digit(b as int / 16));
                assert(lb as char == hex_digit(b as int % 16));
                assert(0x25u8 as char == '%');
                assert(out@.map_values(|x: u8| x as char) =~= before.map_values(|x: u8| x as char)
                    + enc_byte(b));
            }
        }
        proof {
            let pre = bytes@.subrange(0, i as int);
            let post = bytes@.subrange(0, i + 1);
            assert(post.drop_last() =~= pre);
            assert(post.last() == bytes@[i as int]);
        }
        i = i + 1;
    }
    proof {
        assert(bytes@.subrange(0, bytes@.len() as int) =~= bytes@);
    }
    ascii_bytes_to_string(out)
}

} // verus!
