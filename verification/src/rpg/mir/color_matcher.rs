//! Matching a colour written by a user (a CSS name, `#rgb`, `#rrggbb`, or
//! `rgb(r, g, b)`) to the nearest coloured-square emoji.

use vstd::prelude::*;

use crate::text::{
    chars_eq, chars_range, chars_to_string, find_chars, find_first, split_chars, split_on, lowercase_text,
    str_to_chars, str_to_lowercase, trim, trim_chars, trim_str,
};
use vstd::utf8::{encode_utf8, is_continuation_byte};

verus! {

broadcast use vstd::string::group_string_axioms;

/// A colour as red, green and blue components.
#[derive(Debug, Clone, Copy, PartialEq, Eq, Structural)]
pub struct RGB {
    pub r: u8,
    pub g: u8,
    pub b: u8,
}

/// The colour with the given components.
pub open spec fn rgb(r: u8, g: u8, b: u8) -> RGB {
    RGB { r, g, b }
}

impl RGB {
    /// The colour with the given components.
    pub fn new(r: u8, g: u8, b: u8) -> (c: Self)
        ensures
            c == rgb(r, g, b),
    {
        RGB { r, g, b }
    }

    /// The square of the Euclidean distance between two colours.
    pub open spec fn dist2(self, other: RGB) -> int {
        (self.r - other.r) * (self.r - other.r) + (self.g - other.g) * (self.g - other.g) + (self.b
            - other.b) * (self.b - other.b)
    }

    /// The square of the Euclidean distance between two colours.  Comparing
    /// squared distances orders colours exactly as comparing distances does.
    pub fn distance_squared(&self, other: &RGB) -> (d: u32)
        ensures
            d == self.dist2(*other),
    {
        let dr = self.r as i32 - other.r as i32;
        let dg = self.g as i32 - other.g as i32;
        let db = self.b as i32 - other.b as i32;
        assert(0 <= dr * dr <= 65025 && 0 <= dg * dg <= 65025 && 0 <= db * db <= 65025)
            by (nonlinear_arith)
            requires
                -255 <= dr <= 255,
                -255 <= dg <= 255,
                -255 <= db <= 255,
        ;
        (dr * dr + dg * dg + db * db) as u32
    }
}

// ---------------------------------------------------------------------------
// The coloured squares
// ---------------------------------------------------------------------------

/// The coloured-square emoji with the colour each stands for, in the order in
/// which ties are broken.
pub open spec fn palette() -> Seq<(&'static str, RGB)> {
    seq![
        ("🟥", rgb(255, 0, 0)),
        ("🟧", rgb(255, 165, 0)),
        ("🟨", rgb(255, 255, 0)),
        ("🟩", rgb(0, 255, 0)),
        ("🟦", rgb(0, 0, 255)),
        ("🟪", rgb(128, 0, 128)),
        ("🟫", rgb(165, 42, 42)),
        ("⬛", rgb(0, 0, 0)),
        ("⬜", rgb(255, 255, 255)),
    ]
}

/// The emoji returned when no colour can be read: the blue square.
pub open spec fn default_square() -> &'static str {
    "🟦"
}

/// The coloured-square emoji and the colour each stands for.
pub fn get_color_emoji_map() -> (r: Vec<(&'static str, RGB)>)
    ensures
        r@ == palette(),
{
    let mut map: Vec<(&'static str, RGB)> = Vec::new();
    map.push(("🟥", RGB::new(255, 0, 0)));
    map.push(("🟧", RGB::new(255, 165, 0)));
    map.push(("🟨", RGB::new(255, 255, 0)));
    map.push(("🟩", RGB::new(0, 255, 0)));
    map.push(("🟦", RGB::new(0, 0, 255)));
    map.push(("🟪", RGB::new(128, 0, 128)));
    map.push(("🟫", RGB::new(165, 42, 42)));
    map.push(("⬛", RGB::new(0, 0, 0)));
    map.push(("⬜", RGB::new(255, 255, 255)));
    assert(map@ == palette());
    map
}

/// Among the first `n` squares, the index of the first one nearest to `target`.
pub open spec fn nearest_among(target: RGB, n: nat) -> nat
    decreases n,
{
    if n <= 1 {
        0
    } else {
        let prev = nearest_among(target, (n - 1) as nat);
        if target.dist2(palette()[n - 1].1) < target.dist2(palette()[prev as int].1) {
            (n - 1) as nat
        } else {
            prev
        }
    }
}

/// The index of the square nearest to `target` (the first one among equals).
pub open spec fn nearest_square(target: RGB) -> nat {
    nearest_among(target, palette().len())
}

/// The nearest square's index is one of the first `n`, no square among them is
/// nearer, and every earlier one is farther.
pub proof fn lemma_nearest_among(target: RGB, n: nat)
    requires
        1 <= n <= palette().len(),
    ensures
        nearest_among(target, n) < n,
        forall|j: int|
            0 <= j < n ==> target.dist2((#[trigger] palette()[j]).1) >= target.dist2(
                palette()[nearest_among(target, n) as int].1,
            ),
        forall|j: int|
            0 <= j < nearest_among(target, n) ==> target.dist2((#[trigger] palette()[j]).1) > target.dist2(
                palette()[nearest_among(target, n) as int].1,
            ),
    decreases n,
{
    if n > 1 {
        lemma_nearest_among(target, (n - 1) as nat);
    }
}

/// Law: the square chosen for a colour is at least as near to it as every
/// other square, and strictly nearer than every square listed before it.
pub proof fn nearest_square_is_nearest(target: RGB)
    ensures
        nearest_square(target) < palette().len(),
        forall|j: int|
            0 <= j < palette().len() ==> target.dist2((#[trigger] palette()[j]).1) >= target.dist2(
                palette()[nearest_square(target) as int].1,
            ),
        forall|j: int|
            0 <= j < nearest_square(target) ==> target.dist2((#[trigger] palette()[j]).1) > target.dist2(
                palette()[nearest_square(target) as int].1,
            ),
{
    lemma_nearest_among(target, palette().len());
}

// ---------------------------------------------------------------------------
// Named colours
// ---------------------------------------------------------------------------

/// The CSS colour names the bot knows, with their colours.
pub open spec fn named_color_table() -> Seq<(&'static str, RGB)> {
    seq![
        ("red", rgb(255, 0, 0)),
        ("darkred", rgb(139, 0, 0)),
        ("crimson", rgb(220, 20, 60)),
        ("firebrick", rgb(178, 34, 34)),
        ("maroon", rgb(128, 0, 0)),
        ("orange", rgb(255, 165, 0)),
        ("darkorange", rgb(255, 140, 0)),
        ("orangered", rgb(255, 69, 0)),
        ("coral", rgb(255, 127, 80)),
        ("tomato", rgb(255, 99, 71)),
        ("yellow", rgb(255, 255, 0)),
        ("gold", rgb(255, 215, 0)),
        ("khaki", rgb(240, 230, 140)),
        ("green", rgb(0, 128, 0)),
        ("lime", rgb(0, 255, 0)),
        ("darkgreen", rgb(0, 100, 0)),
        ("olive", rgb(128, 128, 0)),
        ("forestgreen", rgb(34, 139, 34)),
        ("seagreen", rgb(46, 139, 87)),
        ("lightgreen", rgb(144, 238, 144)),
        ("blue", rgb(0, 0, 255)),
        ("darkblue", rgb(0, 0, 139)),
        ("navy", rgb(0, 0, 128)),
        ("skyblue", rgb(135, 206, 235)),
        ("lightblue", rgb(173, 216, 230)),
        ("cyan", rgb(0, 255, 255)),
        ("aqua", rgb(0, 255, 255)),
        ("teal", rgb(0, 128, 128)),
        ("purple", rgb(128, 0, 128)),
        ("violet", rgb(238, 130, 238)),
        ("magenta", rgb(255, 0, 255)),
        ("indigo", rgb(75, 0, 130)),
        ("orchid", rgb(218, 112, 214)),
        ("brown", rgb(165, 42, 42)),
        ("sienna", rgb(160, 82, 45)),
        ("saddlebrown", rgb(139, 69, 19)),
        ("chocolate", rgb(210, 105, 30)),
        ("tan", rgb(210, 180, 140)),
        ("black", rgb(0, 0, 0)),
        ("white", rgb(255, 255, 255)),
        ("gray", rgb(128, 128, 128)),
        ("grey", rgb(128, 128, 128)),
        ("silver", rgb(192, 192, 192)),
        ("lightgray", rgb(211, 211, 211)),
        ("darkgray", rgb(169, 169, 169)),
        ("pink", rgb(255, 192, 203)),
        ("hotpink", rgb(255, 105, 180)),
        ("deeppink", rgb(255, 20, 147)),
    ]
}

/// The colour of the first entry from index `i` on whose name is `name`.
pub open spec fn lookup_named_from(name: Seq<char>, i: nat) -> Option<RGB>
    decreases named_color_table().len() - i,
{
    if i >= named_color_table().len() {
        None
    } else if named_color_table()[i as int].0@ == name {
        Some(named_color_table()[i as int].1)
    } else {
        lookup_named_from(name, i + 1)
    }
}

/// The colour with CSS name `name`, if the bot knows it.
pub open spec fn named_color(name: Seq<char>) -> Option<RGB> {
    lookup_named_from(name, 0)
}

/// The CSS colour names the bot knows, with their colours.
#[verifier::rlimit(40)]
pub fn get_named_colors() -> (r: Vec<(&'static str, RGB)>)
    ensures
        r@ == named_color_table(),
{
    let mut map: Vec<(&'static str, RGB)> = Vec::new();
    map.push(("red", RGB::new(255, 0, 0)));
    map.push(("darkred", RGB::new(139, 0, 0)));
    map.push(("crimson", RGB::new(220, 20, 60)));
    map.push(("firebrick", RGB::new(178, 34, 34)));
    map.push(("maroon", RGB::new(128, 0, 0)));
    map.push(("orange", RGB::new(255, 165, 0)));
    map.push(("darkorange", RGB::new(255, 140, 0)));
    map.push(("orangered", RGB::new(255, 69, 0)));
    map.push(("coral", RGB::new(255, 127, 80)));
    map.push(("tomato", RGB::new(255, 99, 71)));
    map.push(("yellow", RGB::new(255, 255, 0)));
    map.push(("gold", RGB::new(255, 215, 0)));
    map.push(("khaki", RGB::new(240, 230, 140)));
    map.push(("green", RGB::new(0, 128, 0)));
    map.push(("lime", RGB::new(0, 255, 0)));
    map.push(("darkgreen", RGB::new(0, 100, 0)));
    map.push(("olive", RGB::new(128, 128, 0)));
    map.push(("forestgreen", RGB::new(34, 139, 34)));
    map.push(("seagreen", RGB::new(46, 139, 87)));
    map.push(("lightgreen", RGB::new(144, 238, 144)));
    map.push(("blue", RGB::new(0, 0, 255)));
    map.push(("darkblue", RGB::new(0, 0, 139)));
    map.push(("navy", RGB::new(0, 0, 128)));
    map.push(("skyblue", RGB::new(135, 206, 235)));
    map.push(("lightblue", RGB::new(173, 216, 230)));
    map.push(("cyan", RGB::new(0, 255, 255)));
    map.push(("aqua", RGB::new(0, 255, 255)));
    map.push(("teal", RGB::new(0, 128, 128)));
    map.push(("purple", RGB::new(128, 0, 128)));
    map.push(("violet", RGB::new(238, 130, 238)));
    map.push(("magenta", RGB::new(255, 0, 255)));
    map.push(("indigo", RGB::new(75, 0, 130)));
    map.push(("orchid", RGB::new(218, 112, 214)));
    map.push(("brown", RGB::new(165, 42, 42)));
    map.push(("sienna", RGB::new(160, 82, 45)));
    map.push(("saddlebrown", RGB::new(139, 69, 19)));
    map.push(("chocolate", RGB::new(210, 105, 30)));
    map.push(("tan", RGB::new(210, 180, 140)));
    map.push(("black", RGB::new(0, 0, 0)));
    map.push(("white", RGB::new(255, 255, 255)));
    map.push(("gray", RGB::new(128, 128, 128)));
    map.push(("grey", RGB::new(128, 128, 128)));
    map.push(("silver", RGB::new(192, 192, 192)));
    map.push(("lightgray", RGB::new(211, 211, 211)));
    map.push(("darkgray", RGB::new(169, 169, 169)));
    map.push(("pink", RGB::new(255, 192, 203)));
    map.push(("hotpink", RGB::new(255, 105, 180)));
    map.push(("deeppink", RGB::new(255, 20, 147)));
    assert(map@ == named_color_table());
    map
}

fn lookup_named(name: &Vec<char>) -> (r: Option<RGB>)
    ensures
        r == named_color(name@),
{
    let table = get_named_colors();
    let mut i: usize = 0;
    while i < table.len()
        invariant
            i <= table.len(),
            table@ == named_color_table(),
            named_color(name@) == lookup_named_from(name@, i as nat),
        decreases table.len() - i,
    {
        let entry = str_to_chars(table[i].0);
        if chars_eq(&entry, name) {
            return Some(table[i].1);
        }
        i = i + 1;
    }
    None
}

// ---------------------------------------------------------------------------
// Reading numbers as `u8::from_str_radix` does
// ---------------------------------------------------------------------------

/// The value of a digit byte in the given radix (ASCII digits, then letters of
/// either case), if it is one.
pub open spec fn radix_digit(b: u8, radix: nat) -> Option<nat> {
    let v: int = if 48 <= b <= 57 {
        b - 48
    } else if 97 <= b <= 122 {
        b - 87
    } else if 65 <= b <= 90 {
        b - 55
    } else {
        99
    };
    if v < radix {
        Some(v as nat)
    } else {
        None
    }
}

/// Whether every byte of `d` is a digit in the radix.
pub open spec fn all_radix_digits(d: Seq<u8>, radix: nat) -> bool {
    forall|i: int| 0 <= i < d.len() ==> (#[trigger] radix_digit(d[i], radix)) is Some
}

/// The value of a sequence of digits in the radix, most significant first.
pub open spec fn radix_value(d: Seq<u8>, radix: nat) -> nat
    decreases d.len(),
{
    if d.len() == 0 {
        0
    } else {
        radix_value(d.drop_last(), radix) * radix + radix_digit(d.last(), radix).unwrap()
    }
}

/// What `u8::from_str_radix` returns for a string with these bytes: an
/// optional `+`, then at least one digit, the value at most 255.
pub open spec fn parse_u8_radix(src: Seq<u8>, radix: nat) -> Option<u8> {
    let digits = if src.len() > 0 && src[0] == 43 {
        src.drop_first()
    } else {
        src
    };
    if digits.len() == 0 || !all_radix_digits(digits, radix) || radix_value(digits, radix) > 255 {
        None
    } else {
        Some(radix_value(digits, radix) as u8)
    }
}

proof fn lemma_radix_prefix_le(d: Seq<u8>, radix: nat, i: int)
    requires
        0 <= i <= d.len(),
        radix >= 1,
        all_radix_digits(d, radix),
    ensures
        radix_value(d.take(i), radix) <= radix_value(d, radix),
    decreases d.len() - i,
{
    if i < d.len() {
        lemma_radix_prefix_le(d, radix, i + 1);
        assert(d.take(i + 1).drop_last() == d.take(i));
        assert(radix_value(d.take(i), radix) * radix >= radix_value(d.take(i), radix))
            by (nonlinear_arith)
            requires
                radix >= 1,
        ;
    } else {
        assert(d.take(i) == d);
    }
}

fn radix_digit_of(b: u8, radix: u8) -> (r: Option<u8>)
    requires
        2 <= radix <= 36,
    ensures
        r matches Some(v) ==> radix_digit(b, radix as nat) == Some(v as nat),
        r is None ==> radix_digit(b, radix as nat) is None,
{
    let v: u8 = if 48 <= b && b <= 57 {
        b - 48
    } else if 97 <= b && b <= 122 {
        b - 87
    } else if 65 <= b && b <= 90 {
        b - 55
    } else {
        99
    };
    if v < radix {
        Some(v)
    } else {
        None
    }
}

/// What `from_str_radix` returns for an unsigned type whose largest value is
/// `max`, on a string with these bytes: an optional `+`, then at least one
/// digit, the value at most `max`.
pub open spec fn parse_radix_within(src: Seq<u8>, radix: nat, max: nat) -> Option<nat> {
    let digits = if src.len() > 0 && src[0] == 43 {
        src.drop_first()
    } else {
        src
    };
    if digits.len() == 0 || !all_radix_digits(digits, radix) || radix_value(digits, radix) > max {
        None
    } else {
        Some(radix_value(digits, radix))
    }
}

/// `from_str_radix` for an unsigned type whose largest value is `max`, on a
/// string with these bytes (`u32::from_str_radix` when `max` is `u32::MAX`).
pub fn parse_radix_bytes(src: &Vec<u8>, radix: u8, max: u32) -> (r: Option<u32>)
    requires
        2 <= radix <= 36,
    ensures
        match r {
            Some(v) => parse_radix_within(src@, radix as nat, max as nat) == Some(v as nat),
            None => parse_radix_within(src@, radix as nat, max as nat) is None,
        },
{
    let start: usize = if src.len() > 0 && src[0] == 43 {
        1
    } else {
        0
    };
    let ghost digits = if src@.len() > 0 && src@[0] == 43 {
        src@.drop_first()
    } else {
        src@
    };
    assert(digits == src@.skip(start as int));
    if start == src.len() {
        return None;
    }
    let mut acc: u64 = 0;
    let mut i: usize = start;
    while i < src.len()
        invariant
            start <= i <= src.len(),
            2 <= radix <= 36,
            digits == src@.skip(start as int),
            digits == (if src@.len() > 0 && src@[0] == 43 {
                src@.drop_first()
            } else {
                src@
            }),
            digits.len() > 0,
            all_radix_digits(digits.take(i - start), radix as nat),
            acc == radix_value(digits.take(i - start), radix as nat),
            acc <= max,
        decreases src.len() - i,
    {
        let ghost k = i - start;
        assert(digits.take(k + 1).drop_last() == digits.take(k));
        assert(digits.take(k + 1).last() == src@[i as int]);
        match radix_digit_of(src[i], radix) {
            None => {
                assert(digits[k] == src@[i as int]);
                assert(radix_digit(digits[k], radix as nat) is None);
                assert(!all_radix_digits(digits, radix as nat));
                return None;
            },
            Some(d) => {
                assert(all_radix_digits(digits.take(k + 1), radix as nat)) by {
                    assert forall|j: int| 0 <= j < k + 1 implies (#[trigger] radix_digit(
                        digits.take(k + 1)[j],
                        radix as nat,
                    )) is Some by {
                        if j < k {
                            assert(digits.take(k + 1)[j] == digits.take(k)[j]);
                        }
                    }
                }
                assert(acc * (radix as u64) <= 4294967295 * 36) by (nonlinear_arith)
                    requires
                        acc <= 4294967295,
                        radix <= 36,
                ;
                let next = acc * (radix as u64) + (d as u64);
                if next > max as u64 {
                    proof {
                        assert(radix_value(digits.take(k + 1), radix as nat) == acc * (radix as nat)
                            + d);
                        if all_radix_digits(digits, radix as nat) {
                            lemma_radix_prefix_le(digits, radix as nat, k + 1);
                        }
                    }
                    return None;
                }
                acc = next;
            },
        }
        i = i + 1;
    }
    assert(digits.take(i - start) == digits);
    Some(acc as u32)
}

/// `u8::from_str_radix` on a string with these bytes.
pub fn parse_u8_radix_bytes(src: &Vec<u8>, radix: u8) -> (r: Option<u8>)
    requires
        2 <= radix <= 36,
    ensures
        r == parse_u8_radix(src@, radix as nat),
{
    let start: usize = if src.len() > 0 && src[0] == 43 {
        1
    } else {
        0
    };
    let ghost digits = if src@.len() > 0 && src@[0] == 43 {
        src@.drop_first()
    } else {
        src@
    };
    assert(digits == src@.skip(start as int));
    if start == src.len() {
        return None;
    }
    let mut acc: u32 = 0;
    let mut i: usize = start;
    while i < src.len()
        invariant
            start <= i <= src.len(),
            2 <= radix <= 36,
            digits == src@.skip(start as int),
            digits == (if src@.len() > 0 && src@[0] == 43 {
                src@.drop_first()
            } else {
                src@
            }),
            digits.len() > 0,
            all_radix_digits(digits.take(i - start), radix as nat),
            acc == radix_value(digits.take(i - start), radix as nat),
            acc <= 255,
        decreases src.len() - i,
    {
        let ghost k = i - start;
        assert(digits.take(k + 1).drop_last() == digits.take(k));
        assert(digits.take(k + 1).last() == src@[i as int]);
        match radix_digit_of(src[i], radix) {
            None => {
                assert(digits[k] == src@[i as int]);
                assert(radix_digit(digits[k], radix as nat) is None);
                assert(!all_radix_digits(digits, radix as nat));
                assert(parse_u8_radix(src@, radix as nat) is None);
                return None;
            },
            Some(d) => {
                assert(all_radix_digits(digits.take(k + 1), radix as nat)) by {
                    assert forall|j: int| 0 <= j < k + 1 implies (#[trigger] radix_digit(
                        digits.take(k + 1)[j],
                        radix as nat,
                    )) is Some by {
                        if j < k {
                            assert(digits.take(k + 1)[j] == digits.take(k)[j]);
                        }
                    }
                }
                assert(acc * (radix as u32) <= 255 * 36) by (nonlinear_arith)
                    requires
                        acc <= 255,
                        radix <= 36,
                ;
                let next = acc * (radix as u32) + (d as u32);
                if next > 255 {
                    proof {
                        assert(radix_value(digits.take(k + 1), radix as nat) == acc * (radix as nat)
                            + d);
                        if all_radix_digits(digits, radix as nat) {
                            lemma_radix_prefix_le(digits, radix as nat, k + 1);
                        }
                    }
                    assert(parse_u8_radix(src@, radix as nat) is None);
                    return None;
                }
                acc = next;
            },
        }
        i = i + 1;
    }
    assert(digits.take(i - start) == digits);
    Some(acc as u8)
}

// ---------------------------------------------------------------------------
// Reading a colour
// ---------------------------------------------------------------------------

/// Whether slicing `bytes` at `i` splits a character (the slice panics).
pub open spec fn splits_char(bytes: Seq<u8>, i: int) -> bool {
    0 < i < bytes.len() && is_continuation_byte(bytes[i])
}

/// A byte string repeated twice.
pub open spec fn twice(s: Seq<u8>) -> Seq<u8> {
    s + s
}

/// What the `#rgb` / `#rrggbb` reading gives for the bytes after `#`: `None`
/// when slicing them panics, `Some(None)` when they are no colour.
pub open spec fn hex_color(hex: Seq<u8>) -> Option<Option<RGB>> {
    if hex.len() == 3 {
        if splits_char(hex, 1) {
            None
        } else if parse_u8_radix(twice(hex.subrange(0, 1)), 16) is None {
            Some(None)
        } else if splits_char(hex, 2) {
            None
        } else if parse_u8_radix(twice(hex.subrange(1, 2)), 16) is None {
            Some(None)
        } else if parse_u8_radix(twice(hex.subrange(2, 3)), 16) is None {
            Some(None)
        } else {
            Some(
                Some(
                    rgb(
                        parse_u8_radix(twice(hex.subrange(0, 1)), 16).unwrap(),
                        parse_u8_radix(twice(hex.subrange(1, 2)), 16).unwrap(),
                        parse_u8_radix(twice(hex.subrange(2, 3)), 16).unwrap(),
                    ),
                ),
            )
        }
    } else if hex.len() == 6 {
        if splits_char(hex, 2) {
            None
        } else if parse_u8_radix(hex.subrange(0, 2), 16) is None {
            Some(None)
        } else if splits_char(hex, 4) {
            None
        } else if parse_u8_radix(hex.subrange(2, 4), 16) is None {
            Some(None)
        } else if parse_u8_radix(hex.subrange(4, 6), 16) is None {
            Some(None)
        } else {
            Some(
                Some(
                    rgb(
                        parse_u8_radix(hex.subrange(0, 2), 16).unwrap(),
                        parse_u8_radix(hex.subrange(2, 4), 16).unwrap(),
                        parse_u8_radix(hex.subrange(4, 6), 16).unwrap(),
                    ),
                ),
            )
        }
    } else {
        Some(None)
    }
}

/// Whether `b` is an ASCII hexadecimal digit (`0`-`9`, `a`-`f`, `A`-`F`).
pub open spec fn is_hex_digit_byte(b: u8) -> bool {
    (48 <= b <= 57) || (97 <= b <= 102) || (65 <= b <= 70)
}

/// The value of a hexadecimal digit.
pub open spec fn hex_digit_value(b: u8) -> int {
    if 48 <= b <= 57 {
        b - 48
    } else if 97 <= b <= 102 {
        b - 87
    } else {
        b - 55
    }
}

proof fn lemma_two_hex_digits(a: u8, b: u8)
    requires
        is_hex_digit_byte(a),
        is_hex_digit_byte(b),
    ensures
        parse_u8_radix(seq![a, b], 16) == Some((16 * hex_digit_value(a) + hex_digit_value(b)) as u8),
        0 <= 16 * hex_digit_value(a) + hex_digit_value(b) <= 255,
{
    let d = seq![a, b];
    assert(d.len() > 0 && d[0] != 43);
    assert(radix_digit(a, 16) == Some(hex_digit_value(a) as nat));
    assert(radix_digit(b, 16) == Some(hex_digit_value(b) as nat));
    assert(all_radix_digits(d, 16)) by {
        assert forall|i: int| 0 <= i < d.len() implies (#[trigger] radix_digit(d[i], 16)) is Some by {
            if i == 0 {
                assert(d[i] == a);
            } else {
                assert(d[i] == b);
            }
        }
    }
    assert(d.drop_last() == seq![a]);
    assert(seq![a].drop_last() == Seq::<u8>::empty());
    assert(seq![a].last() == a);
    assert(radix_value(Seq::<u8>::empty(), 16) == 0);
    assert(radix_value(seq![a], 16) == radix_value(Seq::<u8>::empty(), 16) * 16 + radix_digit(
        a,
        16,
    ).unwrap());
    assert(radix_value(seq![a], 16) == hex_digit_value(a));
    assert(d.last() == b);
    assert(radix_value(d, 16) == hex_digit_value(a) * 16 + hex_digit_value(b));
}

/// Six hexadecimal digits after `#` read as a colour whose red, green and
/// blue are the values of digits 1-2, 3-4 and 5-6 in base 16.
pub proof fn six_hex_digits_are_read_in_pairs(b0: u8, b1: u8, b2: u8, b3: u8, b4: u8, b5: u8)
    requires
        is_hex_digit_byte(b0),
        is_hex_digit_byte(b1),
        is_hex_digit_byte(b2),
        is_hex_digit_byte(b3),
        is_hex_digit_byte(b4),
        is_hex_digit_byte(b5),
    ensures
        hex_color(seq![b0, b1, b2, b3, b4, b5]) == Some(
            Some(
                rgb(
                    (16 * hex_digit_value(b0) + hex_digit_value(b1)) as u8,
                    (16 * hex_digit_value(b2) + hex_digit_value(b3)) as u8,
                    (16 * hex_digit_value(b4) + hex_digit_value(b5)) as u8,
                ),
            ),
        ),
{
    let h = seq![b0, b1, b2, b3, b4, b5];
    assert(h.subrange(0, 2) == seq![b0, b1]);
    assert(h.subrange(2, 4) == seq![b2, b3]);
    assert(h.subrange(4, 6) == seq![b4, b5]);
    lemma_two_hex_digits(b0, b1);
    lemma_two_hex_digits(b2, b3);
    lemma_two_hex_digits(b4, b5);
    assert(!splits_char(h, 2) && !splits_char(h, 4));
}

/// A decimal component of `rgb(...)`: the trimmed piece read as `u8`.
pub open spec fn rgb_component(piece: Seq<char>) -> Option<u8> {
    parse_u8_radix(encode_utf8(trim(piece)), 10)
}

/// What the `rgb(...)` / `rgba(...)` reading gives for a lowercased colour:
/// `None` when `)` comes before `(` (the slice between them panics).
pub open spec fn rgb_function_color(color: Seq<char>) -> Option<Option<RGB>> {
    match (find_first(color, seq!['(']), find_first(color, seq![')'])) {
        (Some(start), Some(end)) => if start + 1 > end {
            None
        } else {
            let values = split_on(color.subrange((start + 1) as int, end as int), ',');
            if values.len() >= 3 {
                match (
                    rgb_component(values[0]),
                    rgb_component(values[1]),
                    rgb_component(values[2]),
                ) {
                    (Some(r), Some(g), Some(b)) => Some(Some(rgb(r, g, b))),
                    _ => Some(None),
                }
            } else {
                Some(None)
            }
        },
        _ => Some(None),
    }
}

/// What reading a colour gives: `None` when the reading panics, `Some(None)`
/// when the text names no colour, else the colour.  The text is trimmed and
/// lowercased, then read as a CSS name, as `#rgb` or `#rrggbb`, or as
/// `rgb(r, g, b)` (also `rgba(...)`: only the first three values count).
#[verifier::opaque]
pub open spec fn read_color(s: Seq<char>) -> Option<Option<RGB>> {
    let color = lowercase_text(trim(s));
    if named_color(color) is Some {
        Some(named_color(color))
    } else if color.len() > 0 && color[0] == '#' {
        hex_color(encode_utf8(color).skip(1))
    } else if color.len() >= 3 && color.take(3) == seq!['r', 'g', 'b'] {
        rgb_function_color(color)
    } else {
        Some(None)
    }
}

fn bytes_range(b: &[u8], from: usize, to: usize) -> (r: Vec<u8>)
    requires
        from <= to <= b@.len(),
    ensures
        r@ == b@.subrange(from as int, to as int),
{
    let mut out: Vec<u8> = Vec::new();
    let mut i = from;
    while i < to
        invariant
            from <= i <= to <= b@.len(),
            out@ == b@.subrange(from as int, i as int),
        decreases to - i,
    {
        out.push(b[i]);
        assert(b@.subrange(from as int, i + 1) == b@.subrange(from as int, i as int).push(b@[i as int]));
        i = i + 1;
    }
    out
}

fn doubled(b: &Vec<u8>) -> (r: Vec<u8>)
    ensures
        r@ == twice(b@),
{
    let mut out = b.clone();
    let mut i: usize = 0;
    while i < b.len()
        invariant
            i <= b.len(),
            out@ == b@ + b@.take(i as int),
        decreases b.len() - i,
    {
        out.push(b[i]);
        assert(b@.take(i + 1) == b@.take(i as int).push(b@[i as int]));
        i = i + 1;
    }
    assert(b@.take(b.len() as int) == b@);
    out
}

/// Whether slicing `hex` at `i` splits a character.
fn splits_char_at(hex: &Vec<u8>, i: usize) -> (r: bool)
    ensures
        r == splits_char(hex@, i as int),
{
    0 < i && i < hex.len() && 0x80 <= hex[i] && hex[i] <= 0xbf
}

fn hex_color_of(hex: &Vec<u8>) -> (r: Option<Option<RGB>>)
    ensures
        r == hex_color(hex@),
{
    if hex.len() == 3 {
        if splits_char_at(hex, 1) {
            return None;
        }
        let r = parse_u8_radix_bytes(&doubled(&bytes_range(hex.as_slice(), 0, 1)), 16);
        if r.is_none() {
            return Some(None);
        }
        if splits_char_at(hex, 2) {
            return None;
        }
        let g = parse_u8_radix_bytes(&doubled(&bytes_range(hex.as_slice(), 1, 2)), 16);
        if g.is_none() {
            return Some(None);
        }
        let b = parse_u8_radix_bytes(&doubled(&bytes_range(hex.as_slice(), 2, 3)), 16);
        if b.is_none() {
            return Some(None);
        }
        Some(Some(RGB::new(r.unwrap(), g.unwrap(), b.unwrap())))
    } else if hex.len() == 6 {
        if splits_char_at(hex, 2) {
            return None;
        }
        let r = parse_u8_radix_bytes(&bytes_range(hex.as_slice(), 0, 2), 16);
        if r.is_none() {
            return Some(None);
        }
        if splits_char_at(hex, 4) {
            return None;
        }
        let g = parse_u8_radix_bytes(&bytes_range(hex.as_slice(), 2, 4), 16);
        if g.is_none() {
            return Some(None);
        }
        let b = parse_u8_radix_bytes(&bytes_range(hex.as_slice(), 4, 6), 16);
        if b.is_none() {
            return Some(None);
        }
        Some(Some(RGB::new(r.unwrap(), g.unwrap(), b.unwrap())))
    } else {
        Some(None)
    }
}

fn rgb_component_of(piece: &Vec<char>) -> (r: Option<u8>)
    ensures
        r == rgb_component(piece@),
{
    let t = trim_chars(piece);
    let s = chars_to_string(&t);
    let bytes = bytes_range(s.as_str().as_bytes(), 0, s.as_str().as_bytes().len());
    assert(bytes@ == encode_utf8(t@));
    parse_u8_radix_bytes(&bytes, 10)
}

fn rgb_function_color_of(color: &Vec<char>) -> (r: Option<Option<RGB>>)
    ensures
        r == rgb_function_color(color@),
{
    let open_paren = vec!['('];
    let close_paren = vec![')'];
    assert(open_paren@ == seq!['(']);
    assert(close_paren@ == seq![')']);
    let start = match find_chars(color, &open_paren) {
        Some(s) => s,
        None => return Some(None),
    };
    let end = match find_chars(color, &close_paren) {
        Some(e) => e,
        None => return Some(None),
    };
    proof {
        crate::text::lemma_find_from_facts(color@, seq!['('], 0);
        crate::text::lemma_find_from_facts(color@, seq![')'], 0);
    }
    if start >= end {
        return None;
    }
    let inner = chars_range(color, start + 1, end);
    let values = split_chars(&inner, ',');
    if values.len() >= 3 {
        let r = rgb_component_of(&values[0]);
        let g = rgb_component_of(&values[1]);
        let b = rgb_component_of(&values[2]);
        match (r, g, b) {
            (Some(r), Some(g), Some(b)) => Some(Some(RGB::new(r, g, b))),
            _ => Some(None),
        }
    } else {
        Some(None)
    }
}

/// Reads a colour as `read_color` does: `None` where the reading would
/// slice the text inside a character.
pub fn read_color_of(color_str: &str) -> (r: Option<Option<RGB>>)
    ensures
        r == read_color(color_str@),
{
    reveal(read_color);
    let trimmed = trim_str(color_str);
    let color = str_to_lowercase(trimmed.as_str());
    let cv = str_to_chars(color.as_str());
    if let Some(c) = lookup_named(&cv) {
        return Some(Some(c));
    }
    if cv.len() > 0 && cv[0] == '#' {
        let bytes = color.as_str().as_bytes();
        proof {
            assert(bytes@ == encode_utf8(cv@));
            lemma_encode_nonempty(cv@);
        }
        let hex = bytes_range(bytes, 1, bytes.len());
        assert(hex@ == encode_utf8(cv@).skip(1));
        return hex_color_of(&hex);
    }
    if cv.len() >= 3 && cv[0] == 'r' && cv[1] == 'g' && cv[2] == 'b' {
        assert(cv@.take(3) == seq!['r', 'g', 'b']);
        return rgb_function_color_of(&cv);
    }
    proof {
        if cv@.len() >= 3 && cv@.take(3) == seq!['r', 'g', 'b'] {
            assert(cv@[0] == cv@.take(3)[0]);
            assert(cv@[1] == cv@.take(3)[1]);
            assert(cv@[2] == cv@.take(3)[2]);
        }
    }
    Some(None)
}

/// Reads a colour written as a CSS name, `#rgb`, `#rrggbb` or `rgb(r, g, b)`.
pub fn parse_color(color_str: &str) -> (r: Option<RGB>)
    requires
        read_color(color_str@) is Some,
    ensures
        r == read_color(color_str@).unwrap(),
{
    read_color_of(color_str).unwrap()
}

proof fn lemma_encode_nonempty(s: Seq<char>)
    requires
        s.len() > 0,
    ensures
        encode_utf8(s).len() >= 1,
{
    reveal_with_fuel(encode_utf8, 1);
}

/// The square chosen for an optional colour text: the default square when
/// there is no text or it names no colour (also text that cannot be read,
/// where reading it would cut a character in two or finds `)` before `(`),
/// else the square nearest to it.
pub open spec fn closest_color_emoji(color_str: Option<Seq<char>>) -> &'static str {
    match color_str {
        None => default_square(),
        Some(s) => if s.len() == 0 {
            default_square()
        } else {
            match read_color(s) {
                Some(Some(c)) => palette()[nearest_square(c) as int].0,
                _ => default_square(),
            }
        },
    }
}

/// The coloured-square emoji nearest to the colour written in `color_str`,
/// or the blue square when there is none.
pub fn get_closest_color_emoji(color_str: Option<&str>) -> (r: &'static str)
    ensures
        r == closest_color_emoji(
            match color_str {
                Some(s) => Some(s@),
                None => None,
            },
        ),
{
    let default_emoji = "🟦";
    let s = match color_str {
        Some(s) => {
            if s.is_empty() {
                return default_emoji;
            }
            s
        },
        None => return default_emoji,
    };
    let target = match read_color_of(s) {
        Some(Some(c)) => c,
        _ => return default_emoji,
    };
    let emoji_map = get_color_emoji_map();
    let mut best: usize = 0;
    let mut min_distance = target.distance_squared(&emoji_map[0].1);
    let mut i: usize = 1;
    while i < emoji_map.len()
        invariant
            1 <= i <= emoji_map.len(),
            best < i,
            emoji_map@ == palette(),
            best == nearest_among(target, i as nat),
            min_distance == target.dist2(palette()[best as int].1),
        decreases emoji_map.len() - i,
    {
        let d = target.distance_squared(&emoji_map[i].1);
        if d < min_distance {
            min_distance = d;
            best = i;
        }
        i = i + 1;
    }
    emoji_map[best].0
}

} // verus!
