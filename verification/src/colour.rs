use vstd::prelude::*;

verus! {

/// An 8-bit-per-channel RGB colour.
#[derive(Debug, Clone, Copy, PartialEq, Eq, Structural, Hash)]
pub struct Colour {
    pub r: u8,
    pub g: u8,
    pub b: u8,
}

/// The characters of `s` that remain once every `'#'` is dropped.
pub open spec fn strip_hash(s: Seq<char>) -> Seq<char> {
    s.filter(|c: char| c != '#')
}

pub open spec fn is_hex_digit(c: char) -> bool {
    ('0' <= c && c <= '9') || ('a' <= c && c <= 'f') || ('A' <= c && c <= 'F')
}

/// Numeric value of a single hexadecimal digit.
pub open spec fn hex_val(c: char) -> int {
    if '0' <= c && c <= '9' {
        c as int - '0' as int
    } else if 'a' <= c && c <= 'f' {
        c as int - 'a' as int + 10
    } else {
        c as int - 'A' as int + 10
    }
}

/// A well-formed colour code: exactly six hexadecimal digits.
pub open spec fn is_hex6(s: Seq<char>) -> bool {
    s.len() == 6 && forall|i: int| 0 <= i < 6 ==> is_hex_digit(#[trigger] s[i])
}

pub open spec fn byte_of_pair(hi: char, lo: char) -> u8 {
    (hex_val(hi) * 16 + hex_val(lo)) as u8
}

/// The colour denoted by six hexadecimal digits, two per channel,
/// red first.
pub open spec fn colour_of_hex(s: Seq<char>) -> Colour {
    Colour {
        r: byte_of_pair(s[0], s[1]),
        g: byte_of_pair(s[2], s[3]),
        b: byte_of_pair(s[4], s[5]),
    }
}

/// The packed little-endian pixel value `0x00RRGGBB`.
pub open spec fn colour_bits(c: Colour) -> u32 {
    (c.b as u32) | ((c.g as u32) << 8u32) | ((c.r as u32) << 16u32)
}

impl Colour {
    /// Pack the three channels into one `0x00RRGGBB` word, the layout a
    /// 32-bit frame buffer expects.
    pub fn bitwise(&self) -> (v: u32)
        ensures
            v == colour_bits(*self),
    {
        (self.b as u32) | ((self.g as u32) << 8u32) | ((self.r as u32) << 16u32)
    }

    /// Parse a six-digit hexadecimal colour code; `'#'` characters may appear
    /// anywhere and are ignored. The input must be well formed.
    pub fn from_hex(hex: &str) -> (c: Colour)
        requires
            is_hex6(strip_hash(hex@)),
        ensures
            c == colour_of_hex(strip_hash(hex@)),
    {
        let digits = strip_hash_chars(hex);
        let r = pair_value(digits[0], digits[1]);
        let g = pair_value(digits[2], digits[3]);
        let b = pair_value(digits[4], digits[5]);
        Colour { r, g, b }
    }

    /// Checked form of [`Colour::from_hex`]: `None` exactly when the input,
    /// with `'#'` characters dropped, is not six hexadecimal digits.
    pub fn try_from_hex(hex: &str) -> (r: Option<Colour>)
        ensures
            match r {
                Some(c) => is_hex6(strip_hash(hex@)) && c == colour_of_hex(strip_hash(hex@)),
                None => !is_hex6(strip_hash(hex@)),
            },
    {
        let digits = strip_hash_chars(hex);
        if digits.len() != 6 {
            return None;
        }
        let mut i: usize = 0;
        while i < 6
            invariant
                i <= 6,
                digits@ == strip_hash(hex@),
                digits@.len() == 6,
                forall|j: int| 0 <= j < i ==> is_hex_digit(#[trigger] digits@[j]),
            decreases 6 - i,
        {
            if !hex_digit_check(digits[i]) {
                return None;
            }
            i += 1;
        }
        Some(Self::from_hex(hex))
    }
}

/// Collect the characters of `s` other than `'#'`, in order.
fn strip_hash_chars(s: &str) -> (out: Vec<char>)
    ensures
        out@ == strip_hash(s@),
{
    let n = s.unicode_len();
    let mut out: Vec<char> = Vec::new();
    let mut i: usize = 0;
    proof {
        reveal(Seq::filter);
        assert(s@.take(0) =~= Seq::<char>::empty());
    }
    while i < n
        invariant
            i <= n,
            n == s@.len(),
            out@ == strip_hash(s@.take(i as int)),
        decreases n - i,
    {
        let c = s.get_char(i);
        if c != '#' {
            out.push(c);
        }
        proof {
            reveal(Seq::filter);
            assert(s@.take(i + 1).drop_last() =~= s@.take(i as int));
            assert(s@.take(i + 1).last() == s@[i as int]);
            assert(out@ == strip_hash(s@.take(i + 1)));
        }
        i += 1;
    }
    proof {
        assert(s@.take(n as int) =~= s@);
    }
    out
}

/// Whether `c` is a hexadecimal digit.
fn hex_digit_check(c: char) -> (b: bool)
    ensures
        b == is_hex_digit(c),
{
    ('0' <= c && c <= '9') || ('a' <= c && c <= 'f') || ('A' <= c && c <= 'F')
}

/// Numeric value of one hexadecimal digit character.
fn hex_digit_value(c: char) -> (v: u8)
    requires
        is_hex_digit(c),
    ensures
        v as int == hex_val(c),
        v < 16,
{
    let u = c as u32;
    if c >= '0' && c <= '9' {
        (u - '0' as u32) as u8
    } else if c >= 'a' && c <= 'f' {
        (u - 'a' as u32 + 10) as u8
    } else {
        (u - 'A' as u32 + 10) as u8
    }
}

/// The byte written as two hexadecimal digits, high digit first.
fn pair_value(hi: char, lo: char) -> (v: u8)
    requires
        is_hex_digit(hi),
        is_hex_digit(lo),
    ensures
        v == byte_of_pair(hi, lo),
{
    hex_digit_value(hi) * 16 + hex_digit_value(lo)
}

} // verus!
