//! 24-bit colours: construction, parsing from `RRGGBB` text and brightness
//! scaling.
use vstd::prelude::*;

use crate::text::{
    chars_of, hex_digit, hex_digit_char, hex_digit_value, lemma_hex_digit_char, trim, trim_bounds,
};

verus! {

/// A 24-bit RGB color.
#[derive(Debug, Clone, Copy, PartialEq, Eq, Structural)]
pub struct Rgb {
    pub r: u8,
    pub g: u8,
    pub b: u8,
}

/// The text that `Rgb::from_hex` reads: `s` trimmed of whitespace, without
/// one leading `#`.
pub open spec fn hex_body(s: Seq<char>) -> Seq<char> {
    let t = trim(s);
    if t.len() > 0 && t[0] == '#' {
        t.drop_first()
    } else {
        t
    }
}

/// `t` is six hexadecimal digits, upper or lower case.
pub open spec fn is_six_hex_digits(t: Seq<char>) -> bool {
    t.len() == 6 && forall|i: int| 0 <= i < 6 ==> (#[trigger] hex_digit_value(t[i])) is Some
}

/// The byte written by the two hex digits `t[i]` and `t[i + 1]`.
pub open spec fn hex_pair_value(t: Seq<char>, i: int) -> u8 {
    (hex_digit_value(t[i]).unwrap() * 16 + hex_digit_value(t[i + 1]).unwrap()) as u8
}

/// The colour that `Rgb::from_hex` reads from `s`: `Some` exactly when the
/// body is `RRGGBB`, six hex digits, each pair one channel.
pub open spec fn spec_from_hex(s: Seq<char>) -> Option<Rgb> {
    let t = hex_body(s);
    if is_six_hex_digits(t) {
        Some(Rgb { r: hex_pair_value(t, 0), g: hex_pair_value(t, 2), b: hex_pair_value(t, 4) })
    } else {
        None
    }
}

/// One channel scaled by `level / 255`, rounded down.
pub open spec fn scale_channel(c: u8, level: u8) -> u8 {
    (c as int * level as int / 255) as u8
}

/// The two hex digits of a byte.
pub open spec fn hex_pair(v: u8, upper: bool) -> Seq<char> {
    seq![hex_digit_char(v as int / 16, upper), hex_digit_char(v as int % 16, upper)]
}

/// `RRGGBB` for a colour.
pub open spec fn hex_text(c: Rgb, upper: bool) -> Seq<char> {
    hex_pair(c.r, upper) + hex_pair(c.g, upper) + hex_pair(c.b, upper)
}

fn hex_pair_at(t: &[char], i: usize) -> (r: Option<u8>)
    requires
        i + 2 <= t.len(),
    ensures
        r is Some <==> (hex_digit_value(t@[i as int]) is Some && hex_digit_value(
            t@[i + 1],
        ) is Some),
        r is Some ==> r->0 == hex_pair_value(t@, i as int),
{
    match (hex_digit(t[i]), hex_digit(t[i + 1])) {
        (Some(hi), Some(lo)) => Some((hi * 16 + lo) as u8),
        _ => None,
    }
}

impl Rgb {
    pub fn new(r: u8, g: u8, b: u8) -> (c: Rgb)
        ensures
            c == (Rgb { r, g, b }),
    {
        Rgb { r, g, b }
    }

    /// Black: every channel off.
    pub fn black() -> (c: Rgb)
        ensures
            c == (Rgb { r: 0, g: 0, b: 0 }),
    {
        Rgb { r: 0, g: 0, b: 0 }
    }

    /// White: every channel full.
    pub fn white() -> (c: Rgb)
        ensures
            c == (Rgb { r: 0xFF, g: 0xFF, b: 0xFF }),
    {
        Rgb { r: 0xFF, g: 0xFF, b: 0xFF }
    }

    /// Parse `"RRGGBB"` or `"#RRGGBB"`.
    pub fn from_hex(s: &str) -> (c: Option<Rgb>)
        ensures
            c == spec_from_hex(s@),
    {
        let chars = chars_of(s);
        let (lo, hi) = trim_bounds(chars.as_slice());
        let start = if lo < hi && chars[lo] == '#' {
            lo + 1
        } else {
            lo
        };
        let t = &chars.as_slice()[start..hi];
        proof {
            let whole = chars@.subrange(lo as int, hi as int);
            if lo < hi && chars@[lo as int] == '#' {
                assert(t@ =~= whole.drop_first());
            } else {
                assert(t@ =~= whole);
            }
        }
        assert(t@ == hex_body(s@));
        if t.len() != 6 {
            return None;
        }
        let r = hex_pair_at(t, 0);
        let g = hex_pair_at(t, 2);
        let b = hex_pair_at(t, 4);
        match (r, g, b) {
            (Some(r), Some(g), Some(b)) => {
                assert(is_six_hex_digits(t@));
                Some(Rgb::new(r, g, b))
            },
            _ => {
                assert(!is_six_hex_digits(t@));
                None
            },
        }
    }

    /// Scale brightness by `level` (0..=255).
    pub fn scaled(self, level: u8) -> (c: Rgb)
        ensures
            c.r == scale_channel(self.r, level),
            c.g == scale_channel(self.g, level),
            c.b == scale_channel(self.b, level),
            c.r <= self.r && c.g <= self.g && c.b <= self.b,
    {
        Rgb::new(scale(self.r, level), scale(self.g, level), scale(self.b, level))
    }
}

fn scale(c: u8, level: u8) -> (r: u8)
    ensures
        r == scale_channel(c, level),
        r <= c,
{
    proof {
        lemma_scale_bounds(c, level);
    }
    ((c as u16 * level as u16) / 255) as u8
}

proof fn lemma_scale_bounds(c: u8, level: u8)
    ensures
        c as int * level as int <= 255 * 255,
        c as int * level as int / 255 <= c,
{
    assert(c as int * level as int <= 255 * 255) by (nonlinear_arith)
        requires
            c <= 255,
            level <= 255,
    ;
    assert(c as int * level as int / 255 <= c) by (nonlinear_arith)
        requires
            level <= 255,
            c >= 0,
    ;
}

/// Scaling to full level leaves a colour unchanged.
pub proof fn lemma_scaled_full(c: Rgb)
    ensures
        scale_channel(c.r, 255) == c.r,
        scale_channel(c.g, 255) == c.g,
        scale_channel(c.b, 255) == c.b,
{
    assert(c.r as int * 255 / 255 == c.r as int) by (nonlinear_arith);
    assert(c.g as int * 255 / 255 == c.g as int) by (nonlinear_arith);
    assert(c.b as int * 255 / 255 == c.b as int) by (nonlinear_arith);
}

/// Scaling to level zero gives black.
pub proof fn lemma_scaled_zero(c: Rgb)
    ensures
        scale_channel(c.r, 0) == 0,
        scale_channel(c.g, 0) == 0,
        scale_channel(c.b, 0) == 0,
{
}

/// Every colour written as `RRGGBB`, in upper or lower case, with or without
/// a leading `#`, is accepted by `from_hex` and read back as that colour.
pub proof fn lemma_from_hex_reads_hex_text(c: Rgb, upper: bool, hash: bool)
    ensures
        spec_from_hex(
            if hash {
                seq!['#'] + hex_text(c, upper)
            } else {
                hex_text(c, upper)
            },
        ) == Some(c),
{
    let t = hex_text(c, upper);
    let s = if hash {
        seq!['#'] + t
    } else {
        t
    };
    lemma_hex_digit_char(c.r as int / 16, upper);
    lemma_hex_digit_char(c.r as int % 16, upper);
    lemma_hex_digit_char(c.g as int / 16, upper);
    lemma_hex_digit_char(c.g as int % 16, upper);
    lemma_hex_digit_char(c.b as int / 16, upper);
    lemma_hex_digit_char(c.b as int % 16, upper);
    assert(t.len() == 6);
    assert(t[0] == hex_pair(c.r, upper)[0] && t[1] == hex_pair(c.r, upper)[1]);
    assert(t[2] == hex_pair(c.g, upper)[0] && t[3] == hex_pair(c.g, upper)[1]);
    assert(t[4] == hex_pair(c.b, upper)[0] && t[5] == hex_pair(c.b, upper)[1]);
    assert forall|i: int| 0 <= i < t.len() implies {
        &&& !crate::text::is_white_space(#[trigger] t[i])
        &&& t[i] != '#'
        &&& hex_digit_value(t[i]) is Some
    } by {
        if i < 2 {
            assert(t[i] == hex_pair(c.r, upper)[i]);
        } else if i < 4 {
            assert(t[i] == hex_pair(c.g, upper)[i - 2]);
        } else {
            assert(t[i] == hex_pair(c.b, upper)[i - 4]);
        }
    }
    assert(s.len() > 0 && !crate::text::is_white_space(s[0]));
    assert(crate::text::trim_start(s) == s);
    assert(s.last() == t[5]);
    assert(crate::text::trim_end(s) == s);
    assert(trim(s) == s);
    if hash {
        assert(s.drop_first() =~= t);
    }
    assert(hex_body(s) == t);
    assert(is_six_hex_digits(t));
    assert(hex_pair_value(t, 0) == c.r);
    assert(hex_pair_value(t, 2) == c.g);
    assert(hex_pair_value(t, 4) == c.b);
}

/// A character `0`-`9`, `a`-`f` or `A`-`F`.
pub open spec fn is_hex_char(c: char) -> bool {
    ('0' as u32 <= c as u32 <= '9' as u32) || ('a' as u32 <= c as u32 <= 'f' as u32) || ('A' as u32
        <= c as u32 <= 'F' as u32)
}

/// `from_hex` accepts exactly the texts that, trimmed of whitespace, are six
/// hex digits, or a `#` and six hex digits.
pub proof fn lemma_from_hex_accepts_exactly_rrggbb(s: Seq<char>)
    ensures
        spec_from_hex(s) is Some <==> ({
            let t = trim(s);
            ||| t.len() == 6 && forall|i: int| 0 <= i < 6 ==> is_hex_char(#[trigger] t[i])
            ||| t.len() == 7 && t[0] == '#' && forall|i: int| 1 <= i < 7 ==> is_hex_char(#[trigger] t[i])
        }),
{
    let t = trim(s);
    let b = hex_body(s);
    assert forall|c: char| #[trigger] hex_digit_value(c) is Some <==> is_hex_char(c) by {}
    if t.len() > 0 && t[0] == '#' {
        assert forall|i: int| 0 <= i < b.len() implies b[i] == t[i + 1] by {}
        if t.len() == 7 && (forall|i: int| 1 <= i < 7 ==> is_hex_char(#[trigger] t[i])) {
            assert forall|i: int| 0 <= i < 6 implies (#[trigger] hex_digit_value(b[i])) is Some by {
                assert(is_hex_char(t[i + 1]));
            }
        }
        if is_six_hex_digits(b) {
            assert forall|i: int| 1 <= i < 7 implies is_hex_char(#[trigger] t[i]) by {
                assert(hex_digit_value(b[i - 1]) is Some);
            }
        }
    } else {
        if t.len() == 6 && (forall|i: int| 0 <= i < 6 ==> is_hex_char(#[trigger] t[i])) {
            assert forall|i: int| 0 <= i < 6 implies (#[trigger] hex_digit_value(b[i])) is Some by {
                assert(is_hex_char(t[i]));
            }
        }
    }
}

} // verus!
