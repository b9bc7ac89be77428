//! Parsing a six-hex-digit sRGB color string into an RGB triple.
//!
//! A color string may carry leading `#` characters; after stripping them it
//! must consist of exactly six hexadecimal digits, upper or lower case.
//! Anything else is a conversion error.

use vstd::prelude::*;

verus! {

/// Failure to read a color string as three RGB bytes.
pub enum HexToRgbError {
    ConversionError,
}

/// Whether `c` is a hexadecimal digit.
pub open spec fn is_hex_digit(c: char) -> bool {
    ('0' <= c && c <= '9') || ('a' <= c && c <= 'f') || ('A' <= c && c <= 'F')
}

/// The numeric value of the hexadecimal digit `c`.
pub open spec fn hex_digit_value(c: char) -> u8
    recommends
        is_hex_digit(c),
{
    if '0' <= c && c <= '9' {
        ((c as u8) - ('0' as u8)) as u8
    } else if 'a' <= c && c <= 'f' {
        ((c as u8) - ('a' as u8) + 10) as u8
    } else {
        ((c as u8) - ('A' as u8) + 10) as u8
    }
}

/// `s` with every leading `#` removed.
pub open spec fn strip_hash_prefix(s: Seq<char>) -> Seq<char>
    decreases s.len(),
{
    if s.len() > 0 && s[0] == '#' {
        strip_hash_prefix(s.drop_first())
    } else {
        s
    }
}

/// Whether `s`, after stripping leading `#`s, is exactly six hex digits.
pub open spec fn parses_as_rgb(s: Seq<char>) -> bool {
    let t = strip_hash_prefix(s);
    t.len() == 6 && (forall|i: int| 0 <= i < 6 ==> is_hex_digit(#[trigger] t[i]))
}

/// The byte encoded by the two hex digits `hi`, `lo`.
pub open spec fn hex_byte(hi: char, lo: char) -> u8
    recommends
        is_hex_digit(hi),
        is_hex_digit(lo),
{
    (hex_digit_value(hi) * 16 + hex_digit_value(lo)) as u8
}

/// The three bytes encoded by a string that parses as an RGB color.
pub open spec fn rgb_value(s: Seq<char>) -> Seq<u8>
    recommends
        parses_as_rgb(s),
{
    let t = strip_hash_prefix(s);
    seq![hex_byte(t[0], t[1]), hex_byte(t[2], t[3]), hex_byte(t[4], t[5])]
}

/// The numeric value of the hexadecimal digit `c`, or an error if `c` is
/// no such digit.
fn hex_digit(c: char) -> (r: Result<u8, HexToRgbError>)
    ensures
        r is Ok <==> is_hex_digit(c),
        r is Ok ==> r->Ok_0 == hex_digit_value(c) && r->Ok_0 <= 15,
{
    let code = c as u32;
    if 0x30 <= code && code <= 0x39 {
        Ok((code - 0x30) as u8)
    } else if 0x61 <= code && code <= 0x66 {
        Ok((code - 0x61 + 10) as u8)
    } else if 0x41 <= code && code <= 0x46 {
        Ok((code - 0x41 + 10) as u8)
    } else {
        Err(HexToRgbError::ConversionError)
    }
}

/// Reads a color string as three RGB bytes: leading `#`s are stripped and
/// exactly six hexadecimal digits must remain.
pub fn hex_to_rgb(hex: &str) -> (r: Result<[u8; 3], HexToRgbError>)
    ensures
        r is Ok <==> parses_as_rgb(hex@),
        r is Ok ==> r->Ok_0@ == rgb_value(hex@),
{
    let len = hex.unicode_len();
    let mut start: usize = 0;
    proof {
        assert(hex@.skip(0) =~= hex@);
    }
    while start < len && hex.get_char(start) == '#'
        invariant
            start <= len,
            len == hex@.len(),
            strip_hash_prefix(hex@) == strip_hash_prefix(hex@.skip(start as int)),
        decreases len - start,
    {
        proof {
            assert(hex@.skip(start as int).drop_first() =~= hex@.skip(start as int + 1));
        }
        start = start + 1;
    }
    proof {
        let t = hex@.skip(start as int);
        if start == len {
            assert(t =~= Seq::<char>::empty());
        }
        assert(strip_hash_prefix(t) == t);
    }
    if len - start != 6 {
        return Err(HexToRgbError::ConversionError);
    }
    proof {
        let t = strip_hash_prefix(hex@);
        assert(t[0] == hex@[start as int]);
        assert(t[1] == hex@[start as int + 1]);
        assert(t[2] == hex@[start as int + 2]);
        assert(t[3] == hex@[start as int + 3]);
        assert(t[4] == hex@[start as int + 4]);
        assert(t[5] == hex@[start as int + 5]);
    }
    let d0 = match hex_digit(hex.get_char(start)) {
        Ok(v) => v,
        Err(e) => {
            return Err(e);
        },
    };
    let d1 = match hex_digit(hex.get_char(start + 1)) {
        Ok(v) => v,
        Err(e) => {
            return Err(e);
        },
    };
    let d2 = match hex_digit(hex.get_char(start + 2)) {
        Ok(v) => v,
        Err(e) => {
            return Err(e);
        },
    };
    let d3 = match hex_digit(hex.get_char(start + 3)) {
        Ok(v) => v,
        Err(e) => {
            return Err(e);
        },
    };
    let d4 = match hex_digit(hex.get_char(start + 4)) {
        Ok(v) => v,
        Err(e) => {
            return Err(e);
        },
    };
    let d5 = match hex_digit(hex.get_char(start + 5)) {
        Ok(v) => v,
        Err(e) => {
            return Err(e);
        },
    };
    let bytes: [u8; 3] = [d0 * 16 + d1, d2 * 16 + d3, d4 * 16 + d5];
    proof {
        assert(bytes@ =~= rgb_value(hex@));
    }
    Ok(bytes)
}

} // verus!
