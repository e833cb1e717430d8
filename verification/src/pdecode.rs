//! Percent-decoding of the encoded filename.
//!
//! A `%` followed by two hexadecimal digits becomes the byte they denote;
//! any other character passes through as its own byte value (its code,
//! reduced modulo 256 - the filename group only ever holds ASCII). An
//! incomplete or malformed escape passes through verbatim.
use vstd::prelude::*;

use crate::text::str_to_chars;

verus! {

pub open spec fn is_hex_char(c: char) -> bool {
    ('0' <= c && c <= '9') || ('a' <= c && c <= 'f') || ('A' <= c && c <= 'F')
}

pub open spec fn hex_val(c: char) -> int {
    if '0' <= c && c <= '9' {
        c as u32 - 48
    } else if 'a' <= c && c <= 'f' {
        c as u32 - 87
    } else if 'A' <= c && c <= 'F' {
        c as u32 - 55
    } else {
        0
    }
}

/// The bytes that a percent-encoded text denotes.
pub open spec fn spec_percent_decode(s: Seq<char>) -> Seq<u8>
    decreases s.len(),
{
    if s.len() == 0 {
        Seq::empty()
    } else if s[0] == '%' && s.len() >= 3 && is_hex_char(s[1]) && is_hex_char(s[2]) {
        seq![(hex_val(s[1]) * 16 + hex_val(s[2])) as u8] + spec_percent_decode(s.skip(3))
    } else {
        seq![(s[0] as u32 % 256) as u8] + spec_percent_decode(s.skip(1))
    }
}

fn is_hex_char_x(c: char) -> (b: bool)
    ensures
        b == is_hex_char(c),
{
    ('0' <= c && c <= '9') || ('a' <= c && c <= 'f') || ('A' <= c && c <= 'F')
}

fn hex_val_x(c: char) -> (v: u8)
    ensures
        v as int == hex_val(c),
        v < 16,
{
    if '0' <= c && c <= '9' {
        (c as u32 - 48) as u8
    } else if 'a' <= c && c <= 'f' {
        (c as u32 - 87) as u8
    } else if 'A' <= c && c <= 'F' {
        (c as u32 - 55) as u8
    } else {
        0
    }
}

/// Decode the percent-encoded characters to bytes.
#[verifier::loop_isolation(false)]
pub fn percent_decode(text: &str) -> (r: Vec<u8>)
    ensures
        r@ == spec_percent_decode(text@),
{
    let chars = str_to_chars(text);
    let mut out: Vec<u8> = Vec::new();
    let mut i: usize = 0;
    proof {
        assert(chars@.skip(0) =~= chars@);
        assert(out@ + spec_percent_decode(chars@) =~= spec_percent_decode(chars@));
    }
    while i < chars.len()
        invariant
            0 <= i <= chars.len(),
            out@ + spec_percent_decode(chars@.skip(i as int)) == spec_percent_decode(chars@),
        decreases chars.len() - i,
    {
        let ghost rest = chars@.skip(i as int);
        proof {
            assert(rest[0] == chars@[i as int]);
        }
        if chars[i] == '%' && chars.len() - i >= 3 && is_hex_char_x(chars[i + 1]) && is_hex_char_x(
            chars[i + 2],
        ) {
            proof {
                assert(rest[1] == chars@[i + 1]);
                assert(rest[2] == chars@[i + 2]);
            }
            let h = hex_val_x(chars[i + 1]);
            let l = hex_val_x(chars[i + 2]);
            let b: u8 = h * 16 + l;
            out.push(b);
            proof {
                assert(rest.skip(3) =~= chars@.skip(i + 3));
                assert(out@ + spec_percent_decode(chars@.skip(i + 3)) =~= spec_percent_decode(
                    chars@,
                ));
            }
            i = i + 3;
        } else {
            let b: u8 = (chars[i] as u32 % 256) as u8;
            out.push(b);
            proof {
                assert(rest.skip(1) =~= chars@.skip(i + 1));
                assert(out@ + spec_percent_decode(chars@.skip(i + 1)) =~= spec_percent_decode(
                    chars@,
                ));
            }
            i = i + 1;
        }
    }
    proof {
        assert(chars@.skip(i as int) =~= Seq::<char>::empty());
        assert(out@ =~= spec_percent_decode(chars@));
    }
    out
}

} // verus!
