//! Hexadecimal color notation.
use crate::chars::{eq_ascii_ci, eq_ignore_ascii_case};
use crate::style::Rgba;
use vstd::prelude::*;
use vstd::string::StringSliceAdditionalSpecFns;

verus! {

/// The number of leading `#` bytes.
pub open spec fn leading_hashes(b: Seq<u8>) -> nat
    decreases b.len(),
{
    if b.len() > 0 && b[0] == 0x23u8 {
        1 + leading_hashes(b.drop_first())
    } else {
        0
    }
}

/// A UTF-8 continuation byte: a position that is not a character boundary.
pub open spec fn is_continuation(x: u8) -> bool {
    0x80 <= x < 0xC0
}

/// The value of a hexadecimal digit byte.
pub open spec fn hex_digit(x: u8) -> Option<u8> {
    if 0x30 <= x <= 0x39 {
        Some((x - 0x30) as u8)
    } else if 0x61 <= x <= 0x66 {
        Some((x - 0x61 + 10) as u8)
    } else if 0x41 <= x <= 0x46 {
        Some((x - 0x41 + 10) as u8)
    } else {
        None
    }
}

/// `u8::from_str_radix(s, 16)` on the two bytes `[a, b]`: a leading `+` is
/// accepted before a single digit.
pub open spec fn pair_value(a: u8, b: u8) -> Option<u8> {
    if a == 0x2Bu8 {
        hex_digit(b)
    } else if hex_digit(a) is Some && hex_digit(b) is Some {
        Some((hex_digit(a)->0 * 16 + hex_digit(b)->0) as u8)
    } else {
        None
    }
}

/// `u8::from_str_radix` on the digit `a` written twice.
pub open spec fn doubled_value(a: u8) -> Option<u8> {
    if hex_digit(a) is Some {
        Some((hex_digit(a)->0 * 17) as u8)
    } else {
        None
    }
}

/// The bytes after the leading `#`s.
pub open spec fn hex_body(b: Seq<u8>) -> Seq<u8> {
    b.skip(leading_hashes(b) as int)
}

/// Slicing the body into its channels would cut a character in two: the
/// channel cuts are made one by one, and each only after the channels before
/// it parsed.
pub open spec fn hex_slicing_splits_char(t: Seq<u8>) -> bool {
    if t.len() == 3 {
        is_continuation(t[1]) || (doubled_value(t[0]) is Some && is_continuation(t[2]))
    } else if t.len() == 6 {
        is_continuation(t[2]) || (pair_value(t[0], t[1]) is Some && is_continuation(t[4]))
    } else if t.len() == 8 {
        ||| is_continuation(t[2])
        ||| (pair_value(t[0], t[1]) is Some && is_continuation(t[4]))
        ||| (pair_value(t[0], t[1]) is Some && pair_value(t[2], t[3]) is Some && is_continuation(
            t[6],
        ))
    } else {
        false
    }
}

pub open spec fn invalid_digit_error() -> &'static str {
    "Invalid hex digit"
}

pub open spec fn invalid_length_error() -> &'static str {
    "Invalid hex color length"
}

/// The color that `#rgb`, `#rrggbb` or `#rrggbbaa` (given without its
/// leading `#`s, as bytes) denotes.
pub open spec fn hex_color(t: Seq<u8>) -> Result<Rgba, &'static str> {
    if t.len() == 3 {
        if doubled_value(t[0]) is Some && doubled_value(t[1]) is Some && doubled_value(t[2]) is Some {
            Ok(
                Rgba {
                    r: doubled_value(t[0])->0,
                    g: doubled_value(t[1])->0,
                    b: doubled_value(t[2])->0,
                    a: 255,
                },
            )
        } else {
            Err(invalid_digit_error())
        }
    } else if t.len() == 6 {
        if pair_value(t[0], t[1]) is Some && pair_value(t[2], t[3]) is Some && pair_value(t[4], t[5]) is Some {
            Ok(
                Rgba {
                    r: pair_value(t[0], t[1])->0,
                    g: pair_value(t[2], t[3])->0,
                    b: pair_value(t[4], t[5])->0,
                    a: 255,
                },
            )
        } else {
            Err(invalid_digit_error())
        }
    } else if t.len() == 8 {
        if pair_value(t[0], t[1]) is Some && pair_value(t[2], t[3]) is Some && pair_value(t[4], t[5]) is Some
            && pair_value(t[6], t[7]) is Some {
            Ok(
                Rgba {
                    r: pair_value(t[0], t[1])->0,
                    g: pair_value(t[2], t[3])->0,
                    b: pair_value(t[4], t[5])->0,
                    a: pair_value(t[6], t[7])->0,
                },
            )
        } else {
            Err(invalid_digit_error())
        }
    } else {
        Err(invalid_length_error())
    }
}

/// The hexadecimal digit byte for `d` (below 16), in lower or upper case.
pub open spec fn hex_char(d: int, upper: bool) -> u8 {
    if d < 10 {
        (0x30 + d) as u8
    } else if upper {
        (0x41 + d - 10) as u8
    } else {
        (0x61 + d - 10) as u8
    }
}

/// A channel written as two hexadecimal digits.
pub open spec fn hex_pair(x: u8, upper: bool) -> Seq<u8> {
    seq![hex_char(x as int / 16, upper), hex_char(x as int % 16, upper)]
}

/// `k` `#` bytes.
pub open spec fn hashes(k: nat) -> Seq<u8> {
    Seq::new(k, |i: int| 0x23u8)
}

/// A color written as `rrggbbaa` after `k` `#`s.
pub open spec fn rgba_text(c: Rgba, k: nat, upper: bool) -> Seq<u8> {
    hashes(k) + hex_pair(c.r, upper) + hex_pair(c.g, upper) + hex_pair(c.b, upper) + hex_pair(c.a, upper)
}

/// A color written as `rrggbb` after `k` `#`s.
pub open spec fn rgb_text(c: Rgba, k: nat, upper: bool) -> Seq<u8> {
    hashes(k) + hex_pair(c.r, upper) + hex_pair(c.g, upper) + hex_pair(c.b, upper)
}

proof fn lemma_hex_pair_value(x: u8, upper: bool)
    ensures
        pair_value(hex_pair(x, upper)[0], hex_pair(x, upper)[1]) == Some(x),
        hex_pair(x, upper)[0] != 0x23u8,
        !is_continuation(hex_pair(x, upper)[0]),
        !is_continuation(hex_pair(x, upper)[1]),
{
    let hi = x as int / 16;
    let lo = x as int % 16;
    assert(0 <= hi < 16 && 0 <= lo < 16);
    assert(hex_digit(hex_char(hi, upper)) == Some(hi as u8));
    assert(hex_digit(hex_char(lo, upper)) == Some(lo as u8));
    assert(hi * 16 + lo == x);
}

proof fn lemma_hashes_counted(k: nat, t: Seq<u8>)
    requires
        t.len() > 0,
        t[0] != 0x23u8,
    ensures
        leading_hashes(hashes(k) + t) == k,
    decreases k,
{
    let b = hashes(k) + t;
    if k == 0 {
        assert(b =~= t);
    } else {
        lemma_hashes_counted((k - 1) as nat, t);
        assert(b[0] == 0x23u8);
        assert(b.drop_first() =~= hashes((k - 1) as nat) + t);
    }
}

proof fn lemma_hashes_skipped(k: nat, t: Seq<u8>)
    requires
        t.len() > 0,
        t[0] != 0x23u8,
    ensures
        hex_body(hashes(k) + t) == t,
{
    lemma_hashes_counted(k, t);
    assert((hashes(k) + t).skip(k as int) =~= t);
}

/// Writing a color as eight hexadecimal digits (either case, after any
/// number of `#`s) and parsing it gives the color back; parsing never cuts a
/// character there.
pub proof fn lemma_hex_round_trip(c: Rgba, k: nat, upper: bool)
    ensures
        hex_color(hex_body(rgba_text(c, k, upper))) == Ok::<Rgba, &'static str>(c),
        !hex_slicing_splits_char(hex_body(rgba_text(c, k, upper))),
        hex_color(hex_body(rgb_text(c, k, upper))) == Ok::<Rgba, &'static str>(Rgba { a: 255, ..c }),
        !hex_slicing_splits_char(hex_body(rgb_text(c, k, upper))),
{
    lemma_hex_pair_value(c.r, upper);
    lemma_hex_pair_value(c.g, upper);
    lemma_hex_pair_value(c.b, upper);
    lemma_hex_pair_value(c.a, upper);
    let t8 = hex_pair(c.r, upper) + hex_pair(c.g, upper) + hex_pair(c.b, upper) + hex_pair(c.a, upper);
    let t6 = hex_pair(c.r, upper) + hex_pair(c.g, upper) + hex_pair(c.b, upper);
    assert(rgba_text(c, k, upper) =~= hashes(k) + t8);
    assert(rgb_text(c, k, upper) =~= hashes(k) + t6);
    lemma_hashes_skipped(k, t8);
    lemma_hashes_skipped(k, t6);
    assert(t8[2] == hex_pair(c.g, upper)[0] && t8[3] == hex_pair(c.g, upper)[1]);
    assert(t8[4] == hex_pair(c.b, upper)[0] && t8[5] == hex_pair(c.b, upper)[1]);
    assert(t8[6] == hex_pair(c.a, upper)[0] && t8[7] == hex_pair(c.a, upper)[1]);
    assert(t6[4] == hex_pair(c.b, upper)[0] && t6[5] == hex_pair(c.b, upper)[1]);
}

fn digit(x: u8) -> (r: Option<u8>)
    ensures
        r == hex_digit(x),
{
    if 0x30 <= x && x <= 0x39 {
        Some(x - 0x30)
    } else if 0x61 <= x && x <= 0x66 {
        Some(x - 0x61 + 10)
    } else if 0x41 <= x && x <= 0x46 {
        Some(x - 0x41 + 10)
    } else {
        None
    }
}

fn pair(a: u8, b: u8) -> (r: Option<u8>)
    ensures
        r == pair_value(a, b),
{
    if a == 0x2B {
        return digit(b);
    }
    match (digit(a), digit(b)) {
        (Some(x), Some(y)) => Some(x * 16 + y),
        _ => None,
    }
}

fn doubled(a: u8) -> (r: Option<u8>)
    ensures
        r == doubled_value(a),
{
    match digit(a) {
        Some(x) => Some(x * 17),
        None => None,
    }
}

proof fn lemma_leading_hashes(b: Seq<u8>, k: int)
    requires
        0 <= k <= b.len(),
        forall|j: int| 0 <= j < k ==> b[j] == 0x23u8,
        k == b.len() || b[k] != 0x23u8,
    ensures
        leading_hashes(b) == k,
    decreases k,
{
    if k > 0 {
        lemma_leading_hashes(b.drop_first(), k - 1);
    }
}

/// Parse a hex color such as `#f00`, `#ff0000` or `#ff000080`. Leading `#`s
/// are skipped.
pub fn parse_hex_color(hex: &str) -> (r: Result<Rgba, &'static str>)
    requires
        !hex_slicing_splits_char(hex_body(hex.spec_bytes())),
    ensures
        r == hex_color(hex_body(hex.spec_bytes())),
{
    let b = hex.as_bytes();
    let mut k: usize = 0;
    while k < b.len() && b[k] == 0x23
        invariant
            k <= b.len(),
            forall|j: int| 0 <= j < k ==> b@[j] == 0x23u8,
        decreases b.len() - k,
    {
        k += 1;
    }
    proof {
        lemma_leading_hashes(b@, k as int);
    }
    let ghost t = hex_body(hex.spec_bytes());
    assert(t =~= b@.skip(k as int));
    let n = b.len() - k;
    if n == 3 {
        let r = doubled(b[k]);
        let g = doubled(b[k + 1]);
        let bl = doubled(b[k + 2]);
        match (r, g, bl) {
            (Some(r), Some(g), Some(bl)) => Ok(Rgba { r, g, b: bl, a: 255 }),
            _ => Err("Invalid hex digit"),
        }
    } else if n == 6 {
        let r = pair(b[k], b[k + 1]);
        let g = pair(b[k + 2], b[k + 3]);
        let bl = pair(b[k + 4], b[k + 5]);
        match (r, g, bl) {
            (Some(r), Some(g), Some(bl)) => Ok(Rgba { r, g, b: bl, a: 255 }),
            _ => Err("Invalid hex digit"),
        }
    } else if n == 8 {
        let r = pair(b[k], b[k + 1]);
        let g = pair(b[k + 2], b[k + 3]);
        let bl = pair(b[k + 4], b[k + 5]);
        let a = pair(b[k + 6], b[k + 7]);
        match (r, g, bl, a) {
            (Some(r), Some(g), Some(bl), Some(a)) => Ok(Rgba { r, g, b: bl, a }),
            _ => Err("Invalid hex digit"),
        }
    } else {
        Err("Invalid hex color length")
    }
}


/// Whether `parse_hex_color` would cut a character of `hex` in two.
pub fn hex_color_splits_char(hex: &str) -> (r: bool)
    ensures
        r == hex_slicing_splits_char(hex_body(hex.spec_bytes())),
{
    let b = hex.as_bytes();
    let mut k: usize = 0;
    while k < b.len() && b[k] == 0x23
        invariant
            k <= b.len(),
            forall|j: int| 0 <= j < k ==> b@[j] == 0x23u8,
        decreases b.len() - k,
    {
        k += 1;
    }
    proof {
        lemma_leading_hashes(b@, k as int);
    }
    assert(hex_body(hex.spec_bytes()) =~= b@.skip(k as int));
    let n = b.len() - k;
    if n == 3 {
        continuation(b[k + 1]) || (doubled(b[k]).is_some() && continuation(b[k + 2]))
    } else if n == 6 {
        continuation(b[k + 2]) || (pair(b[k], b[k + 1]).is_some() && continuation(b[k + 4]))
    } else if n == 8 {
        let first = pair(b[k], b[k + 1]).is_some();
        let second = pair(b[k + 2], b[k + 3]).is_some();
        continuation(b[k + 2]) || (first && continuation(b[k + 4])) || (first && second
            && continuation(b[k + 6]))
    } else {
        false
    }
}

fn continuation(x: u8) -> (r: bool)
    ensures
        r == is_continuation(x),
{
    0x80 <= x && x < 0xC0
}

/// The color that the CSS keyword `name` denotes in cssparser's table of
/// named colors (ASCII case-insensitive), as red, green, blue.
pub uninterp spec fn css_named_color(name: Seq<char>) -> Option<(u8, u8, u8)>;

/// Looks `name` up with `cssparser::parse_named_color`. Claimed: the result
/// depends on `name` alone and is `Some` exactly when the table holds it.
#[verifier::external_body]
fn lookup_named_color(name: &str) -> (r: Option<(u8, u8, u8)>)
    ensures
        r == css_named_color(name@),
{
    cssparser::color::parse_named_color(name).ok()
}

/// The keyword of the fully transparent color.
pub open spec fn transparent_keyword() -> Seq<char> {
    "transparent"@
}

/// The color of a named-color keyword: `transparent` (any ASCII case) is
/// black with alpha 0; a name of the table is opaque; other names denote none.
pub open spec fn named_color_spec(name: Seq<char>, table: Option<(u8, u8, u8)>) -> Option<Rgba> {
    if eq_ascii_ci(name, transparent_keyword()) {
        Some(Rgba { r: 0, g: 0, b: 0, a: 0 })
    } else {
        match table {
            Some((r, g, b)) => Some(Rgba { r, g, b, a: 255 }),
            None => None,
        }
    }
}

/// The color for `name`, given what the table of named colors holds for it.
pub fn named_color_from_table(name: &str, table: Option<(u8, u8, u8)>) -> (r: Option<Rgba>)
    ensures
        r == named_color_spec(name@, table),
{
    if eq_ignore_ascii_case(name, "transparent") {
        Some(Rgba { r: 0, g: 0, b: 0, a: 0 })
    } else {
        match table {
            Some((r, g, b)) => Some(Rgba { r, g, b, a: 255 }),
            None => None,
        }
    }
}

/// The color that a named-color keyword denotes.
pub fn named_color(name: &str) -> (r: Option<Rgba>)
    ensures
        r == named_color_spec(name@, css_named_color(name@)),
{
    let table = lookup_named_color(name);
    named_color_from_table(name, table)
}

} // verus!
