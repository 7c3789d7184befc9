//! Colours as `#RRGGBB` text.

use vstd::prelude::*;

use crate::text;

verus! {

/// A colour with its opacity.
#[derive(Debug, Clone, Copy, PartialEq, Eq, Structural)]
pub struct Rgba {
    pub r: u8,
    pub g: u8,
    pub b: u8,
    pub a: u8,
}

impl Rgba {
    /// The same red, green and blue at full opacity.
    pub open spec fn opaque(self) -> Rgba {
        Rgba { r: self.r, g: self.g, b: self.b, a: 255 }
    }
}

/// The upper-case hexadecimal digit for a value below sixteen.
pub open spec fn hex_digit(d: nat) -> char {
    if d < 10 {
        (48 + d) as char
    } else {
        (55 + d) as char
    }
}

/// Two upper-case hexadecimal digits.
pub open spec fn hex2(b: u8) -> Seq<char> {
    seq![hex_digit((b / 16) as nat), hex_digit((b % 16) as nat)]
}

/// `#RRGGBB`; the alpha channel is not written.
pub open spec fn hex_text(c: Rgba) -> Seq<char> {
    seq!['#'] + hex2(c.r) + hex2(c.g) + hex2(c.b)
}

/// The value of a hexadecimal digit, given by its code.
pub open spec fn hex_value(u: int) -> Option<nat> {
    if 48 <= u <= 57 {
        Some((u - 48) as nat)
    } else if 65 <= u <= 70 {
        Some((u - 55) as nat)
    } else if 97 <= u <= 102 {
        Some((u - 87) as nat)
    } else {
        None
    }
}

/// `s` without its leading `#`s.
pub open spec fn without_hashes(s: Seq<char>) -> Seq<char>
    decreases s.len(),
{
    if s.len() > 0 && s[0] == '#' {
        without_hashes(s.skip(1))
    } else {
        s
    }
}

/// The channel value that two hexadecimal digits stand for.
pub open spec fn channel(a: char, b: char) -> Option<u8> {
    match (hex_value(a as int), hex_value(b as int)) {
        (Some(x), Some(y)) => Some((x * 16 + y) as u8),
        _ => None,
    }
}

/// The red, green and blue that a text stands for: six hexadecimal digits
/// behind any number of `#`s.
pub open spec fn rgb_of(s: Seq<char>) -> Option<Rgba> {
    let h = without_hashes(s);
    if h.len() != 6 {
        None
    } else {
        match (channel(h[0], h[1]), channel(h[2], h[3]), channel(h[4], h[5])) {
            (Some(r), Some(g), Some(b)) => Some(Rgba { r, g, b, a: 255 }),
            _ => None,
        }
    }
}

fn push_hex2(s: &mut String, b: u8)
    ensures
        final(s)@ == old(s)@ + hex2(b),
{
    let hi: u8 = b / 16;
    let lo: u8 = b % 16;
    let c: char = if hi < 10 {
        (48 + hi) as char
    } else {
        (55 + hi) as char
    };
    let d: char = if lo < 10 {
        (48 + lo) as char
    } else {
        (55 + lo) as char
    };
    s.push(c);
    s.push(d);
    assert(s@ =~= old(s)@ + hex2(b));
}

/// A colour as `#RRGGBB`.
pub fn hex(rgba: Rgba) -> (r: String)
    ensures
        r@ == hex_text(rgba),
{
    let mut s = String::new();
    s.push('#');
    assert(s@ =~= seq!['#']);
    push_hex2(&mut s, rgba.r);
    push_hex2(&mut s, rgba.g);
    push_hex2(&mut s, rgba.b);
    s
}

fn digit_value(u: u32) -> (r: Option<u8>)
    ensures
        match r {
            Some(d) => hex_value(u as int) == Some(d as nat) && d < 16,
            None => hex_value(u as int) is None,
        },
{
    if 48 <= u && u <= 57 {
        Some((u - 48) as u8)
    } else if 65 <= u && u <= 70 {
        Some((u - 55) as u8)
    } else if 97 <= u && u <= 102 {
        Some((u - 87) as u8)
    } else {
        None
    }
}

fn pair_value(a: char, b: char) -> (r: Option<u8>)
    ensures
        r == channel(a, b),
{
    match (digit_value(a as u32), digit_value(b as u32)) {
        (Some(x), Some(y)) => Some(x * 16 + y),
        _ => None,
    }
}

/// The colour that a text stands for, with full opacity.
pub fn parse_hex(s: &str) -> (r: Option<Rgba>)
    ensures
        r == rgb_of(s@),
{
    let v = text::chars_of(s);
    let mut i: usize = 0;
    assert(s@.skip(0) =~= s@);
    while i < v.len() && v[i] == '#'
        invariant
            v@ == s@,
            i <= v.len(),
            without_hashes(s@) == without_hashes(s@.skip(i as int)),
        decreases v.len() - i,
    {
        assert(s@.skip(i as int).skip(1) =~= s@.skip(i + 1));
        i = i + 1;
    }
    assert(without_hashes(s@) == s@.skip(i as int));
    if v.len() - i != 6 {
        return None;
    }
    match (pair_value(v[i], v[i + 1]), pair_value(v[i + 2], v[i + 3]), pair_value(v[i + 4], v[i + 5])) {
        (Some(r), Some(g), Some(b)) => Some(Rgba { r, g, b, a: 255 }),
        _ => None,
    }
}

/// The tab colour that `#RRGGBB` (or bare `RRGGBB`) stands for, with full
/// opacity.
pub fn parse_hex_rgb(s: &str) -> (r: Option<Rgba>)
    ensures
        r == rgb_of(s@),
{
    parse_hex(s)
}

/// Reading back a written colour gives its red, green and blue.
pub proof fn parse_hex_reads_hex(c: Rgba)
    ensures
        rgb_of(hex_text(c)) == Some(c.opaque()),
{
    let t = hex_text(c);
    reveal_with_fuel(without_hashes, 2);
    let h = t.skip(1);
    assert(hex_digit((c.r / 16) as nat) != '#');
    assert(h[0] == hex_digit((c.r / 16) as nat));
    assert(without_hashes(t) == h);
    assert(h[1] == hex_digit((c.r % 16) as nat));
    assert(h[2] == hex_digit((c.g / 16) as nat));
    assert(h[3] == hex_digit((c.g % 16) as nat));
    assert(h[4] == hex_digit((c.b / 16) as nat));
    assert(h[5] == hex_digit((c.b % 16) as nat));
    lemma_channel(c.r);
    lemma_channel(c.g);
    lemma_channel(c.b);
}

proof fn lemma_channel(b: u8)
    ensures
        channel(hex_digit((b / 16) as nat), hex_digit((b % 16) as nat)) == Some(b),
{
}

} // verus!
