//! Colours written in hexadecimal, and the alpha channel of pixel data.
use vstd::prelude::*;
use crate::error::VcsrError;
use crate::text::chars_of;

verus! {

pub open spec fn is_hex(c: char) -> bool {
    ('0' <= c && c <= '9') || ('a' <= c && c <= 'f') || ('A' <= c && c <= 'F')
}

pub open spec fn hex_value(c: char) -> nat {
    if '0' <= c && c <= '9' {
        (c as int - '0' as int) as nat
    } else if 'a' <= c && c <= 'f' {
        (c as int - 'a' as int + 10) as nat
    } else {
        (c as int - 'A' as int + 10) as nat
    }
}

/// The byte written by the two hexadecimal digits at `i`.
pub open spec fn hex_byte(s: Seq<char>, i: int) -> u8 {
    (hex_value(s[i]) * 16 + hex_value(s[i + 1])) as u8
}

/// `RRGGBB` or `RRGGBBAA`; six digits mean full opacity. An odd length, any
/// other length, or a character that is not a hexadecimal digit is a
/// colour error.
pub open spec fn decode_hex_spec(s: Seq<char>) -> Result<(u8, u8, u8, u8), VcsrError> {
    if (s.len() == 6 || s.len() == 8) && forall|i: int| 0 <= i < s.len() ==> is_hex(#[trigger] s[i]) {
        Ok((
            hex_byte(s, 0),
            hex_byte(s, 2),
            hex_byte(s, 4),
            if s.len() == 8 { hex_byte(s, 6) } else { 255u8 },
        ))
    } else {
        Err(VcsrError::ColourError)
    }
}

fn hex_digit(c: char) -> (r: Option<u8>)
    ensures
        r is Some <==> is_hex(c),
        r is Some ==> r->0 == hex_value(c),
{
    if '0' <= c && c <= '9' {
        Some((c as u32 - '0' as u32) as u8)
    } else if 'a' <= c && c <= 'f' {
        Some((c as u32 - 'a' as u32 + 10) as u8)
    } else if 'A' <= c && c <= 'F' {
        Some((c as u32 - 'A' as u32 + 10) as u8)
    } else {
        None
    }
}

/// Decodes a colour written `RRGGBB` or `RRGGBBAA` into red, green, blue
/// and alpha.
pub fn decode_hex(s: &str) -> (r: Result<(u8, u8, u8, u8), VcsrError>)
    ensures
        r == decode_hex_spec(s@),
{
    let cs = chars_of(s);
    let n = cs.len();
    if n != 6 && n != 8 {
        return Err(VcsrError::ColourError);
    }
    let mut bytes: Vec<u8> = Vec::new();
    let mut i: usize = 0;
    while i < n
        invariant
            n == cs@.len(),
            cs@ == s@,
            n == 6 || n == 8,
            i % 2 == 0,
            i <= n,
            bytes@.len() == i / 2,
            forall|k: int| 0 <= k < i ==> is_hex(#[trigger] cs@[k]),
            forall|k: int| 0 <= k < i / 2 ==> bytes@[k] == hex_byte(cs@, 2 * k),
        decreases n - i,
    {
        let hi = hex_digit(cs[i]);
        let lo = hex_digit(cs[i + 1]);
        match (hi, lo) {
            (Some(hi), Some(lo)) => {
                bytes.push(hi * 16 + lo);
            },
            _ => {
                proof {
                    if !is_hex(cs@[i as int]) {
                        assert(!is_hex(s@[i as int]));
                    } else {
                        assert(!is_hex(s@[i + 1]));
                    }
                }
                return Err(VcsrError::ColourError);
            },
        }
        i = i + 2;
    }
    let alpha = if n == 8 { bytes[3] } else { 255 };
    Ok((bytes[0], bytes[1], bytes[2], alpha))
}

/// Sets the alpha channel of every pixel of RGBA data.
pub fn putalpha(pixels: &mut Vec<u8>, alpha: u8)
    ensures
        final(pixels)@.len() == old(pixels)@.len(),
        forall|i: int| 0 <= i < old(pixels)@.len() ==> #[trigger] final(pixels)@[i] == if i % 4 == 3 {
            alpha
        } else {
            old(pixels)@[i]
        },
{
    let mut i: usize = 0;
    while i < pixels.len()
        invariant
            pixels@.len() == old(pixels)@.len(),
            forall|k: int| 0 <= k < pixels@.len() ==> #[trigger] pixels@[k] == if k < i && k % 4 == 3 {
                alpha
            } else {
                old(pixels)@[k]
            },
        decreases pixels@.len() - i,
    {
        if i % 4 == 3 {
            pixels.set(i, alpha);
        }
        i = i + 1;
    }
}

} // verus!
