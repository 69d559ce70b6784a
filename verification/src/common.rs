//! Small helpers used across the bot: colours from user ids, text bars,
//! digit extraction, number joining and summing, hashing and emoji text.

use vstd::prelude::*;

use crate::text::{
    char_to_lowercase, char_to_uppercase, chars_to_string, decimal_value, digit_char,
    digit_to_char, digits_to_u64, i64_to_chars, int_decimal, keep_digit_chars, keep_digits,
    nat_decimal, push_char, push_chars, push_str, replace_all, replace_chars, lowercase_char,
    uppercase_char, str_to_chars, u64_to_string, chars_range, find_chars, find_first,
    find_from, lemma_find_from_facts,
};
use sha2::Digest;

verus! {

broadcast use vstd::string::group_string_axioms;

/// Data shared by every command invocation (none at present).
pub struct Data {}

/// An emoji that could not be found.
#[derive(Debug)]
pub enum EmojiError {
    NotFound,
}

impl EmojiError {
    /// The message shown for this error (its `Debug` name).
    pub fn message(&self) -> (r: String)
        ensures
            r@ == "NotFound"@,
    {
        String::from_str("NotFound")
    }
}

// ---------------------------------------------------------------------------
// Colours from user ids
// ---------------------------------------------------------------------------

/// The colour derived from a user id: its three lowest bytes as red, green
/// and blue.
pub fn uid_to_rgb(uid: u64) -> (r: (u8, u8, u8))
    ensures
        r.0 == uid % 256,
        r.1 == (uid / 256) % 256,
        r.2 == (uid / 65536) % 256,
{
    let r = (uid & 0xFF) as u8;
    let g = ((uid >> 8) & 0xFF) as u8;
    let b = ((uid >> 16) & 0xFF) as u8;
    assert((uid & 0xFF) == uid % 256) by (bit_vector);
    assert(((uid >> 8) & 0xFF) == (uid / 256) % 256) by (bit_vector);
    assert(((uid >> 16) & 0xFF) == (uid / 65536) % 256) by (bit_vector);
    (r, g, b)
}

// ---------------------------------------------------------------------------
// Progress bars
// ---------------------------------------------------------------------------

/// `s` repeated `n` times.
pub open spec fn repeat(s: Seq<char>, n: nat) -> Seq<char>
    decreases n,
{
    if n == 0 {
        Seq::empty()
    } else {
        repeat(s, (n - 1) as nat) + s
    }
}

/// How many foreground cells a bar of `length` cells shows for `current` out of
/// `max`: the ratio `current / max` scaled by `length` and rounded to the
/// nearest whole cell (halves away from zero), no fewer than zero.  `None`
/// stands for an unbounded count: a positive amount out of a maximum of zero.
pub open spec fn bar_fill(current: int, max: int, length: int) -> Option<nat> {
    if max == 0 {
        if current > 0 && length > 0 {
            None
        } else {
            Some(0)
        }
    } else {
        let num = if max > 0 {
            current * length
        } else {
            -(current * length)
        };
        let den = if max > 0 {
            max
        } else {
            -max
        };
        if num <= 0 {
            Some(0)
        } else {
            Some(((2 * num + den) / (2 * den)) as nat)
        }
    }
}

/// The background cells of a bar: those of its `length` not filled.
pub open spec fn bar_rest(fill: Option<nat>, length: nat) -> nat {
    match fill {
        None => 0,
        Some(f) => if f >= length {
            0
        } else {
            (length - f) as nat
        },
    }
}

/// The text of a bar: the foreground repeated by the fill count, then the
/// background for the rest of the length.
pub open spec fn bar_text(
    current: int,
    max: int,
    length: nat,
    foreground: Seq<char>,
    background: Seq<char>,
) -> Seq<char> {
    let fill = bar_fill(current, max, length as int);
    let front = match fill {
        None => Seq::empty(),
        Some(f) => repeat(foreground, f),
    };
    front + repeat(background, bar_rest(fill, length))
}

/// Whether a bar can be drawn: the foreground count is finite and fits in
/// memory, unless the foreground is empty.
pub open spec fn bar_drawable(current: int, max: int, length: int, foreground: Seq<char>) -> bool {
    foreground.len() == 0 || (bar_fill(current, max, length) matches Some(f) && f
        <= usize::MAX)
}

fn push_repeated(s: &mut String, piece: &str, n: usize)
    ensures
        final(s)@ == old(s)@ + repeat(piece@, n as nat),
{
    let v = str_to_chars(piece);
    let mut i: usize = 0;
    while i < n
        invariant
            i <= n,
            v@ == piece@,
            s@ == old(s)@ + repeat(piece@, i as nat),
        decreases n - i,
    {
        push_chars(s, &v);
        proof {
            assert(repeat(piece@, (i + 1) as nat) == repeat(piece@, i as nat) + piece@);
        }
        i = i + 1;
    }
}

/// The fill count of a bar (see `bar_fill`), computed without overflow.
fn bar_fill_count(current: i32, max: i32, length: usize) -> (r: Option<u128>)
    ensures
        match r {
            Some(f) => bar_fill(current as int, max as int, length as int) == Some(f as nat),
            None => bar_fill(current as int, max as int, length as int) is None,
        },
{
    let c = current as i128;
    let m = max as i128;
    let l = length as i128;
    if m == 0 {
        if c > 0 && l > 0 {
            None
        } else {
            Some(0)
        }
    } else {
        assert(-2147483648 * 18446744073709551615 <= c * l <= 2147483648 * 18446744073709551615)
            by (nonlinear_arith)
            requires
                -2147483648 <= c <= 2147483647,
                0 <= l <= 18446744073709551615,
        ;
        let num = if m > 0 {
            c * l
        } else {
            -(c * l)
        };
        let den = if m > 0 {
            m
        } else {
            -m
        };
        if num <= 0 {
            Some(0)
        } else {
            Some(((2 * num + den) / (2 * den)) as u128)
        }
    }
}

/// Whether a bar can be drawn (see `bar_drawable`).
pub fn can_draw_bar(current: i32, max: i32, length: usize, foreground: &str) -> (r: bool)
    ensures
        r == bar_drawable(current as int, max as int, length as int, foreground@),
{
    if foreground.is_empty() {
        return true;
    }
    match bar_fill_count(current, max, length) {
        None => false,
        Some(f) => f <= usize::MAX as u128,
    }
}

/// A text bar of `length` cells showing `current` out of `max`.
pub fn draw_bar(current: i32, max: i32, length: usize, foreground: &str, background: &str) -> (r:
    String)
    requires
        bar_drawable(current as int, max as int, length as int, foreground@),
    ensures
        r@ == bar_text(current as int, max as int, length as nat, foreground@, background@),
{
    let ghost fill = bar_fill(current as int, max as int, length as int);
    let fill_count = bar_fill_count(current, max, length);
    let mut out = String::new();
    if !foreground.is_empty() {
        let f = fill_count.unwrap();
        push_repeated(&mut out, foreground, f as usize);
    } else {
        proof {
            if let Some(f) = fill {
                lemma_repeat_empty(foreground@, f);
            }
        }
    }
    let rest: usize = match fill_count {
        None => 0,
        Some(f) => if f >= length as u128 {
            0
        } else {
            length - f as usize
        },
    };
    push_repeated(&mut out, background, rest);
    out
}

proof fn lemma_repeat_empty(s: Seq<char>, n: nat)
    requires
        s.len() == 0,
    ensures
        repeat(s, n) == Seq::<char>::empty(),
    decreases n,
{
    if n > 0 {
        lemma_repeat_empty(s, (n - 1) as nat);
    }
}

// ---------------------------------------------------------------------------
// Text and numbers
// ---------------------------------------------------------------------------

/// `s` with its first character replaced by its uppercase mapping.
pub open spec fn capitalized(s: Seq<char>) -> Seq<char> {
    if s.len() == 0 {
        Seq::empty()
    } else {
        uppercase_char(s[0]) + s.drop_first()
    }
}

/// `s` with its first character in upper case.
pub fn capitalize_first_letter(s: &str) -> (r: String)
    ensures
        r@ == capitalized(s@),
{
    let v = str_to_chars(s);
    if v.len() == 0 {
        return String::new();
    }
    let mut out = char_to_uppercase(v[0]);
    let mut i: usize = 1;
    while i < v.len()
        invariant
            1 <= i <= v.len(),
            out@ == uppercase_char(v@[0]) + v@.subrange(1, i as int),
        decreases v.len() - i,
    {
        push_char(&mut out, v[i]);
        assert(v@.subrange(1, i + 1) == v@.subrange(1, i as int).push(v@[i as int]));
        i = i + 1;
    }
    assert(v@.subrange(1, v.len() as int) == v@.drop_first());
    out
}

/// The ASCII decimal digits of `s`, in order.
pub fn strip_non_numerical(s: &str) -> (r: String)
    ensures
        r@ == keep_digits(s@),
{
    let v = str_to_chars(s);
    let d = keep_digit_chars(&v);
    chars_to_string(&d)
}

/// The number written by the digits of `s`, ignoring every other character;
/// 0 when `s` has no digit.  The digits must make a number that fits in `i32`
/// (beyond that, parsing them fails).
pub fn safe_to_number(s: &str) -> (r: i32)
    requires
        decimal_value(keep_digits(s@)) <= i32::MAX,
    ensures
        r == decimal_value(keep_digits(s@)),
{
    let v = str_to_chars(s);
    let d = keep_digit_chars(&v);
    if d.len() == 0 {
        return 0;
    }
    let n = digits_to_u64(&d);
    n as i32
}

/// The number written by the digits of `s`, ignoring every other character;
/// 0 when `s` has no digit.  The digits must make a number that fits in `u64`.
pub fn safe_to_u64(s: &str) -> (r: u64)
    requires
        decimal_value(keep_digits(s@)) <= u64::MAX,
    ensures
        r == decimal_value(keep_digits(s@)),
{
    let v = str_to_chars(s);
    let d = keep_digit_chars(&v);
    if d.len() == 0 {
        return 0;
    }
    digits_to_u64(&d)
}

/// The pieces joined with `sep` between consecutive pieces (`[T]::join`).
pub open spec fn join_with(parts: Seq<Seq<char>>, sep: Seq<char>) -> Seq<char>
    decreases parts.len(),
{
    if parts.len() == 0 {
        Seq::empty()
    } else if parts.len() == 1 {
        parts[0]
    } else {
        join_with(parts.drop_last(), sep) + sep + parts.last()
    }
}

/// The decimal renderings of `numbers`.
pub open spec fn decimals_i32(numbers: Seq<i32>) -> Seq<Seq<char>> {
    numbers.map_values(|x: i32| int_decimal(x as int))
}

/// The numbers in decimal, joined with `separator`.
pub fn join_to_string(numbers: &[i32], separator: &str) -> (r: String)
    ensures
        r@ == join_with(decimals_i32(numbers@), separator@),
{
    let mut out = String::new();
    let mut i: usize = 0;
    while i < numbers.len()
        invariant
            i <= numbers.len(),
            out@ == join_with(decimals_i32(numbers@.take(i as int)), separator@),
        decreases numbers.len() - i,
    {
        let d = i64_to_chars(numbers[i] as i64);
        let ghost prev = decimals_i32(numbers@.take(i as int));
        assert(decimals_i32(numbers@.take(i + 1)) == prev.push(int_decimal(numbers@[i as int] as int)));
        assert(decimals_i32(numbers@.take(i + 1)).drop_last() == prev);
        if i > 0 {
            push_str(&mut out, separator);
        }
        push_chars(&mut out, &d);
        i = i + 1;
    }
    assert(numbers@.take(numbers.len() as int) == numbers@);
    out
}

/// The sum of a sequence of integers.
pub open spec fn sum_i32(s: Seq<i32>) -> int
    decreases s.len(),
{
    if s.len() == 0 {
        0
    } else {
        sum_i32(s.drop_last()) + s.last()
    }
}

/// Whether every running total of `s` fits in `i32` (adding the numbers one by
/// one in `i32` does not overflow).
pub open spec fn running_sums_fit(s: Seq<i32>) -> bool {
    forall|k: int| 0 <= k <= s.len() ==> i32::MIN <= #[trigger] sum_i32(s.take(k)) <= i32::MAX
}

/// The sum of the numbers.
pub fn sum_array(arr: &Vec<i32>) -> (r: i32)
    requires
        running_sums_fit(arr@),
    ensures
        r == sum_i32(arr@),
{
    let mut result: i32 = 0;
    let mut i: usize = 0;
    while i < arr.len()
        invariant
            i <= arr.len(),
            running_sums_fit(arr@),
            result == sum_i32(arr@.take(i as int)),
        decreases arr.len() - i,
    {
        assert(arr@.take(i + 1).drop_last() == arr@.take(i as int));
        assert(i32::MIN <= sum_i32(arr@.take(i + 1)) <= i32::MAX);
        result = result + arr[i];
        i = i + 1;
    }
    assert(arr@.take(arr.len() as int) == arr@);
    result
}

/// The sum of the numbers, when every running total fits in `i32`; `None`
/// when one does not.
pub fn checked_sum(arr: &Vec<i32>) -> (r: Option<i32>)
    ensures
        match r {
            Some(t) => running_sums_fit(arr@) && t == sum_i32(arr@),
            None => !running_sums_fit(arr@),
        },
{
    let mut result: i32 = 0;
    let mut i: usize = 0;
    while i < arr.len()
        invariant
            i <= arr.len(),
            result == sum_i32(arr@.take(i as int)),
            forall|k: int| 0 <= k <= i ==> i32::MIN <= #[trigger] sum_i32(arr@.take(k)) <= i32::MAX,
        decreases arr.len() - i,
    {
        assert(arr@.take(i + 1).drop_last() == arr@.take(i as int));
        let next: i64 = result as i64 + arr[i] as i64;
        if next < -0x8000_0000i64 || next > 0x7fff_ffffi64 {
            assert(!(i32::MIN <= sum_i32(arr@.take(i + 1)) <= i32::MAX));
            return None;
        }
        result = next as i32;
        i = i + 1;
    }
    assert(arr@.take(arr.len() as int) == arr@);
    Some(result)
}

// ---------------------------------------------------------------------------
// Hashing
// ---------------------------------------------------------------------------

/// The SHA-256 digest of `data` (what the `sha2` crate computes).
pub uninterp spec fn spec_sha256(data: Seq<u8>) -> Seq<u8>;

/// The SHA-256 digest of `data`, from the `sha2` crate (`Sha256::digest`).
/// Its value is named, not written out; the crate's output type holds 32 bytes.
#[verifier::external_body]
fn sha256_digest(data: &[u8]) -> (r: Vec<u8>)
    ensures
        r@ == spec_sha256(data@),
        r@.len() == 32,
{
    sha2::Sha256::digest(data).to_vec()
}

/// The lowercase hexadecimal digit for a value below 16.
pub open spec fn hex_digit_char(d: nat) -> char {
    if d < 10 {
        digit_char(d)
    } else {
        ((d - 10 + 97) as nat) as char
    }
}

/// Bytes as lowercase hexadecimal, two digits per byte (`{:x}` of a digest).
pub open spec fn hex_lower(bytes: Seq<u8>) -> Seq<char>
    decreases bytes.len(),
{
    if bytes.len() == 0 {
        Seq::empty()
    } else {
        hex_lower(bytes.drop_last()) + seq![
            hex_digit_char((bytes.last() / 16) as nat),
            hex_digit_char((bytes.last() % 16) as nat),
        ]
    }
}

fn hex_digit(d: u8) -> (c: char)
    requires
        d < 16,
    ensures
        c == hex_digit_char(d as nat),
{
    if d < 10 {
        digit_to_char(d)
    } else {
        match d {
            10 => 'a',
            11 => 'b',
            12 => 'c',
            13 => 'd',
            14 => 'e',
            _ => 'f',
        }
    }
}

/// The SHA-256 digest of the UTF-8 bytes of `content`, in lowercase hex.
pub fn hash(content: &str) -> (r: String)
    ensures
        r@ == hex_lower(spec_sha256(vstd::utf8::encode_utf8(content@))),
        r@.len() == 64,
{
    let digest = sha256_digest(content.as_bytes());
    let mut out = String::new();
    let mut i: usize = 0;
    while i < digest.len()
        invariant
            i <= digest.len(),
            out@ == hex_lower(digest@.take(i as int)),
            out@.len() == 2 * i,
        decreases digest.len() - i,
    {
        let b = digest[i];
        push_char(&mut out, hex_digit(b / 16));
        push_char(&mut out, hex_digit(b % 16));
        assert(digest@.take(i + 1).drop_last() == digest@.take(i as int));
        i = i + 1;
    }
    assert(digest@.take(digest.len() as int) == digest@);
    out
}

// ---------------------------------------------------------------------------
// Emoji text
// ---------------------------------------------------------------------------

/// A custom emoji of a server, as the bot refers to it.
pub struct Emoji {
    pub name: String,
    pub id: u64,
    pub animated: bool,
}

/// How a custom emoji is written in a message: `<:name:id>`.
pub open spec fn emoji_code(name: Seq<char>, id: u64) -> Seq<char> {
    "<:"@ + name + ":"@ + nat_decimal(id as nat) + ">"@
}

/// How Discord renders an emoji when it is displayed: `<a:name:id>` when
/// animated, `<:name:id>` otherwise.
pub open spec fn emoji_mention(e: Emoji) -> Seq<char> {
    (if e.animated {
        "<a:"@
    } else {
        "<:"@
    }) + e.name@ + ":"@ + nat_decimal(e.id as nat) + ">"@
}

/// The code that writes `emoji` in a message.
pub fn format_emoji_string(emoji: &Emoji) -> (r: String)
    ensures
        r@ == emoji_code(emoji.name@, emoji.id),
{
    let mut out = String::from_str("<:");
    push_str(&mut out, emoji.name.as_str());
    push_str(&mut out, ":");
    let id = u64_to_string(emoji.id);
    push_str(&mut out, id.as_str());
    push_str(&mut out, ">");
    out
}

/// The text an emoji is displayed as.
pub fn emoji_display(emoji: &Emoji) -> (r: String)
    ensures
        r@ == emoji_mention(*emoji),
{
    let mut out = if emoji.animated {
        String::from_str("<a:")
    } else {
        String::from_str("<:")
    };
    push_str(&mut out, emoji.name.as_str());
    push_str(&mut out, ":");
    let id = u64_to_string(emoji.id);
    push_str(&mut out, id.as_str());
    push_str(&mut out, ">");
    out
}

/// The text a character becomes in emoji form: with a pattern, the pattern
/// with `{}` replaced by the lowercase character, or the custom emoji of that
/// name when one was found; without one, its regional-indicator shortcode.
pub open spec fn emojified_char(c: char, pattern: Option<Seq<char>>, found: Option<Emoji>) -> Seq<
    char,
> {
    match pattern {
        Some(p) => match found {
            Some(e) => emoji_code(e.name@, e.id),
            None => replace_all(p, "{}"@, lowercase_char(c)),
        },
        None => ":regional_indicator_"@ + lowercase_char(c) + ":"@,
    }
}

/// A character in emoji form.  `found` is the custom emoji named by the
/// pattern, when the caller looked one up and it exists.
pub fn emojify_char(character: char, emoji_pattern: Option<&str>, found: Option<&Emoji>) -> (r:
    String)
    ensures
        r@ == emojified_char(
            character,
            match emoji_pattern {
                Some(p) => Some(p@),
                None => None,
            },
            match found {
                Some(e) => Some(*e),
                None => None,
            },
        ),
{
    let lower = char_to_lowercase(character);
    match emoji_pattern {
        Some(pattern) => {
            match found {
                Some(e) => format_emoji_string(e),
                None => {
                    let p = str_to_chars(pattern);
                    let braces = str_to_chars("{}");
                    let l = str_to_chars(lower.as_str());
                    let replaced = replace_chars(&p, &braces, &l);
                    chars_to_string(&replaced)
                },
            }
        },
        None => {
            let mut out = String::from_str(":regional_indicator_");
            push_str(&mut out, lower.as_str());
            push_str(&mut out, ":");
            out
        },
    }
}

/// Every character of `s` as its regional-indicator shortcode followed by a space.
pub open spec fn emojified_string(s: Seq<char>) -> Seq<char>
    decreases s.len(),
{
    if s.len() == 0 {
        Seq::empty()
    } else {
        emojified_string(s.drop_last()) + emojified_char(s.last(), None, None) + " "@
    }
}

/// A message spelled out in regional-indicator emoji.
pub fn emojify_string(message: &str) -> (r: String)
    ensures
        r@ == emojified_string(message@),
{
    let v = str_to_chars(message);
    let mut out = String::new();
    let mut i: usize = 0;
    while i < v.len()
        invariant
            i <= v.len(),
            v@ == message@,
            out@ == emojified_string(v@.take(i as int)),
        decreases v.len() - i,
    {
        let e = emojify_char(v[i], None, None);
        push_str(&mut out, e.as_str());
        push_str(&mut out, " ");
        assert(v@.take(i + 1).drop_last() == v@.take(i as int));
        i = i + 1;
    }
    assert(v@.take(v.len() as int) == v@);
    out
}

/// The text of a custom-emoji spelling: each character's emoji when one was
/// found, else the lowercase character, each followed by a space.
pub open spec fn emojified_custom(s: Seq<char>, found: Seq<Option<Emoji>>) -> Seq<char>
    decreases s.len(),
{
    if s.len() == 0 || found.len() == 0 {
        Seq::empty()
    } else {
        emojified_custom(s.drop_last(), found.drop_last()) + match found.last() {
            Some(e) => emoji_mention(e),
            None => lowercase_char(s.last()),
        } + " "@
    }
}

/// The emoji name looked up for one character: the pattern with `{}`
/// replaced by the lowercase character.
pub fn custom_emoji_name(character: char, emoji_pattern: &str) -> (r: String)
    ensures
        r@ == replace_all(emoji_pattern@, "{}"@, lowercase_char(character)),
{
    emojify_char(character, Some(emoji_pattern), None)
}

/// `text` spelled out in custom emoji: `found[i]` is the emoji found for the
/// `i`-th character (see [`custom_emoji_name`]), if any.
pub fn emojify_custom(text: &str, found: &Vec<Option<Emoji>>) -> (r: String)
    requires
        found@.len() == text@.len(),
    ensures
        r@ == emojified_custom(text@, found@),
{
    let v = str_to_chars(text);
    let mut out = String::new();
    let mut i: usize = 0;
    while i < v.len()
        invariant
            i <= v.len(),
            v@ == text@,
            found@.len() == v@.len(),
            out@ == emojified_custom(v@.take(i as int), found@.take(i as int)),
        decreases v.len() - i,
    {
        assert(v@.take(i + 1).drop_last() == v@.take(i as int));
        assert(found@.take(i + 1).drop_last() == found@.take(i as int));
        match &found[i] {
            Some(e) => {
                let d = emoji_display(e);
                push_str(&mut out, d.as_str());
            },
            None => {
                let lower = char_to_lowercase(v[i]);
                push_str(&mut out, lower.as_str());
            },
        }
        push_str(&mut out, " ");
        i = i + 1;
    }
    assert(v@.take(v.len() as int) == v@);
    assert(found@.take(v.len() as int) == found@);
    out
}

// ---------------------------------------------------------------------------
// Handler names
// ---------------------------------------------------------------------------

/// The last segment of a path: what follows its last `::`.
pub open spec fn last_segment(s: Seq<char>) -> Seq<char>
    decreases s.len(),
{
    match find_first(s, "::"@) {
        Some(i) => if i + 2 <= s.len() {
            last_segment(s.skip((i + 2) as int))
        } else {
            s
        },
        None => s,
    }
}

/// The name under which a handler is known: the last segment of its type's
/// path (what `split("::").last()` gives).
pub fn handler_name(type_path: &str) -> (r: String)
    ensures
        r@ == last_segment(type_path@),
{
    let sep = str_to_chars("::");
    proof {
        reveal_strlit("::");
    }
    let mut cur = str_to_chars(type_path);
    loop
        invariant
            sep@ == "::"@,
            sep@.len() == 2,
            last_segment(cur@) == last_segment(type_path@),
        decreases cur.len(),
    {
        match find_chars(&cur, &sep) {
            None => {
                return chars_to_string(&cur);
            },
            Some(i) => {
                proof {
                    lemma_find_from_facts(cur@, sep@, 0);
                    assert(find_first(cur@, sep@) == find_from(cur@, sep@, 0));
                }
                assert(sep@.len() == sep.len());
                assert(i + sep.len() <= cur.len());
                let next = chars_range(&cur, i + 2, cur.len());
                assert(next@ == cur@.skip(i + 2));
                cur = next;
            },
        }
    }
}

// ---------------------------------------------------------------------------
// Colours, channel tags, guild lists
// ---------------------------------------------------------------------------

/// Whether `k` is the role whose colour a member shows: among the roles with
/// a colour (not 0), the highest; of equally high ones, the last listed.
pub open spec fn shown_role(roles: Seq<(u16, u32)>, k: int) -> bool {
    &&& 0 <= k < roles.len()
    &&& roles[k].1 != 0
    &&& forall|j: int| 0 <= j < k && (#[trigger] roles[j]).1 != 0 ==> roles[j].0 <= roles[k].0
    &&& forall|j: int| k < j < roles.len() && (#[trigger] roles[j]).1 != 0 ==> roles[j].0 < roles[k].0
}

/// The colour a member shows from its roles (position and colour each):
/// that of the highest role with a colour; `None` when no role has one.
pub fn role_colour(roles: &Vec<(u16, u32)>) -> (r: Option<u32>)
    ensures
        match r {
            Some(c) => exists|k: int| shown_role(roles@, k) && roles@[k].1 == c,
            None => forall|j: int| 0 <= j < roles@.len() ==> (#[trigger] roles@[j]).1 == 0,
        },
{
    let mut best: Option<usize> = None;
    let mut i: usize = 0;
    while i < roles.len()
        invariant
            i <= roles.len(),
            match best {
                Some(k) => k < i && roles@[k as int].1 != 0 && (forall|j: int|
                    0 <= j < k && (#[trigger] roles@[j]).1 != 0 ==> roles@[j].0 <= roles@[k as int].0)
                    && (forall|j: int|
                    k < j < i && (#[trigger] roles@[j]).1 != 0 ==> roles@[j].0 < roles@[k as int].0),
                None => forall|j: int| 0 <= j < i ==> (#[trigger] roles@[j]).1 == 0,
            },
        decreases roles.len() - i,
    {
        let (pos, colour) = roles[i];
        if colour != 0 {
            match best {
                None => {
                    best = Some(i);
                },
                Some(k) => {
                    if pos >= roles[k].0 {
                        best = Some(i);
                    }
                },
            }
        }
        i = i + 1;
    }
    match best {
        Some(k) => {
            assert(shown_role(roles@, k as int));
            Some(roles[k].1)
        },
        None => None,
    }
}

/// The colour a member's messages are shown in, as a `0xRRGGBB` value: its
/// role's colour, else the colour made from its id's three lowest bytes
/// (see `uid_to_rgb`) as red, green and blue.
pub fn author_colour(role: Option<u32>, uid: u64) -> (r: u32)
    ensures
        match role {
            Some(c) => r == c,
            None => r == (uid % 256) * 65536 + (uid / 256 % 256) * 256 + uid / 65536 % 256,
        },
{
    match role {
        Some(c) => c,
        None => {
            let (r, g, b) = uid_to_rgb(uid);
            (r as u32) * 65536 + (g as u32) * 256 + b as u32
        },
    }
}

/// The tags of a channel read from its topic.  The topic's lines are read
/// into a map of tags, but that map is dropped and an empty one is returned,
/// whatever the topic.
pub fn get_channel_tags(topic: Option<&str>) -> (r: Vec<(String, Vec<String>)>)
    ensures
        r@.len() == 0,
{
    Vec::new()
}

/// The pieces of a comma-separated list, in order.
pub open spec fn comma_pieces(s: Seq<char>) -> Seq<Seq<char>> {
    crate::text::split_on(s, ',')
}

/// The guild ids of a comma-separated list: each piece's digits read as a
/// number (0 for a piece without digits).
pub fn guild_ids(list: &str) -> (r: Vec<u64>)
    requires
        forall|i: int|
            0 <= i < comma_pieces(list@).len() ==> decimal_value(
                keep_digits(#[trigger] comma_pieces(list@)[i]),
            ) <= u64::MAX,
    ensures
        r@.len() == comma_pieces(list@).len(),
        forall|i: int|
            0 <= i < r@.len() ==> r@[i] == decimal_value(keep_digits(#[trigger] comma_pieces(list@)[i])),
{
    let v = str_to_chars(list);
    let parts = crate::text::split_chars(&v, ',');
    let mut out: Vec<u64> = Vec::new();
    let mut i: usize = 0;
    while i < parts.len()
        invariant
            i <= parts.len(),
            v@ == list@,
            parts@.len() == comma_pieces(list@).len(),
            forall|k: int| 0 <= k < parts@.len() ==> #[trigger] parts@[k]@ == comma_pieces(list@)[k],
            forall|k: int|
                0 <= k < comma_pieces(list@).len() ==> decimal_value(
                    keep_digits(#[trigger] comma_pieces(list@)[k]),
                ) <= u64::MAX,
            out@.len() == i,
            forall|k: int|
                0 <= k < i ==> out@[k] == decimal_value(keep_digits(#[trigger] comma_pieces(list@)[k])),
        decreases parts.len() - i,
    {
        assert(parts@[i as int]@ == comma_pieces(list@)[i as int]);
        let d = keep_digit_chars(&parts[i]);
        let n: u64 = if d.len() == 0 {
            0
        } else {
            digits_to_u64(&d)
        };
        out.push(n);
        i = i + 1;
    }
    out
}

// ---------------------------------------------------------------------------
// Totals of written numbers
// ---------------------------------------------------------------------------

/// The number a text stands for when read by `safe_to_number`: its digits.
pub open spec fn digits_number(s: Seq<char>) -> i32 {
    decimal_value(keep_digits(s)) as i32
}

/// Whether every text's digits make a number that fits in `i32`, and the
/// running totals of those numbers fit too.
pub open spec fn numbers_fit(texts: Seq<Seq<char>>) -> bool {
    &&& forall|i: int|
        0 <= i < texts.len() ==> decimal_value(keep_digits(#[trigger] texts[i])) <= i32::MAX
    &&& running_sums_fit(texts.map_values(|x: Seq<char>| digits_number(x)))
}

/// The total of the numbers the texts stand for (see `safe_to_number`).
pub fn total_of_numbers(texts: &Vec<String>) -> (r: i32)
    requires
        numbers_fit(texts@.map_values(|s: String| s@)),
    ensures
        r == sum_i32(texts@.map_values(|s: String| s@).map_values(|x: Seq<char>| digits_number(x))),
{
    let ghost tv = texts@.map_values(|s: String| s@);
    let ghost nums = tv.map_values(|x: Seq<char>| digits_number(x));
    let mut v: Vec<i32> = Vec::new();
    let mut i: usize = 0;
    while i < texts.len()
        invariant
            i <= texts.len(),
            tv == texts@.map_values(|s: String| s@),
            nums == tv.map_values(|x: Seq<char>| digits_number(x)),
            numbers_fit(tv),
            v@ == nums.take(i as int),
        decreases texts.len() - i,
    {
        assert(decimal_value(keep_digits(tv[i as int])) <= i32::MAX);
        let n = safe_to_number(texts[i].as_str());
        v.push(n);
        assert(v@ =~= nums.take(i + 1));
        i = i + 1;
    }
    assert(nums.take(texts.len() as int) == nums);
    sum_array(&v)
}

// ---------------------------------------------------------------------------
// Facts about bars
// ---------------------------------------------------------------------------

/// A bar for a value between 0 and a positive maximum has exactly `length`
/// cells: the filled ones (at most `length`) and the rest.  An empty value
/// fills none and a full one fills all.
pub proof fn bar_has_length_cells(current: int, max: int, length: nat)
    requires
        0 < max,
        0 <= current <= max,
    ensures
        bar_fill(current, max, length as int) matches Some(f) && f <= length && f + bar_rest(
            Some(f),
            length,
        ) == length,
        current == 0 ==> bar_fill(current, max, length as int) == Some(0nat),
        current == max ==> bar_fill(current, max, length as int) == Some(length),
{
    let num = current * length;
    assert(0 <= num <= max * length) by (nonlinear_arith)
        requires
            num == current * length,
            0 <= current <= max,
            0 <= length,
    ;
    if num > 0 {
        let f = (2 * num + max) / (2 * max);
        assert(f <= length) by (nonlinear_arith)
            requires
                f == (2 * num + max) / (2 * max),
                0 < num <= max * length,
                0 < max,
        ;
        if current == max {
            assert(f == length) by (nonlinear_arith)
                requires
                    f == (2 * num + max) / (2 * max),
                    num == max * length,
                    0 < max,
            ;
        }
    } else {
        if current == max {
            assert(length == 0) by (nonlinear_arith)
                requires
                    num == current * length,
                    num <= 0,
                    current == max,
                    0 < max,
            ;
        }
    }
}

} // verus!
