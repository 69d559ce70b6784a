//! Character-level text helpers shared by the rest of the library.
//!
//! Strings are modelled by their `Seq<char>` view.  The helpers here give the
//! library the pieces of `str` behaviour that its rules depend on (trimming,
//! searching, replacing, splitting, decimal rendering and parsing), each with
//! a statement of what it computes.

use vstd::prelude::*;

verus! {

broadcast use vstd::string::group_string_axioms;

// ---------------------------------------------------------------------------
// Conversions between `&str`, `String` and `Vec<char>`
// ---------------------------------------------------------------------------

/// Appends one character to a `String` (std's `String::push`).
#[verifier::external_body]
pub(crate) fn push_char(s: &mut String, c: char)
    ensures
        final(s)@ == old(s)@.push(c),
{
    s.push(c);
}

/// The characters of a string slice, in order.
pub fn str_to_chars(s: &str) -> (r: Vec<char>)
    ensures
        r@ == s@,
{
    let mut out: Vec<char> = Vec::new();
    for c in it: s.chars()
        invariant
            it.seq() == s@,
            out@ == it.seq().take(it.index() as int),
    {
        out.push(c);
    }
    out
}

/// A `String` holding the given characters.
pub fn chars_to_string(v: &Vec<char>) -> (r: String)
    ensures
        r@ == v@,
{
    let mut s = String::new();
    let mut i: usize = 0;
    while i < v.len()
        invariant
            i <= v.len(),
            s@ == v@.take(i as int),
        decreases v.len() - i,
    {
        push_char(&mut s, v[i]);
        assert(v@.take(i + 1) == v@.take(i as int).push(v@[i as int]));
        i = i + 1;
    }
    assert(v@.take(v.len() as int) == v@);
    s
}

/// Appends the characters of `v` to `s`.
pub fn push_chars(s: &mut String, v: &Vec<char>)
    ensures
        final(s)@ == old(s)@ + v@,
{
    let mut i: usize = 0;
    while i < v.len()
        invariant
            i <= v.len(),
            s@ == old(s)@ + v@.take(i as int),
        decreases v.len() - i,
    {
        push_char(s, v[i]);
        assert(v@.take(i + 1) == v@.take(i as int).push(v@[i as int]));
        i = i + 1;
    }
    assert(v@.take(v.len() as int) == v@);
}

/// Appends a string slice to `s`.
pub fn push_str(s: &mut String, t: &str)
    ensures
        final(s)@ == old(s)@ + t@,
{
    let v = str_to_chars(t);
    push_chars(s, &v);
}

// ---------------------------------------------------------------------------
// Whitespace and trimming
// ---------------------------------------------------------------------------

/// Unicode's `White_Space` property: the characters that `char::is_whitespace`
/// accepts and that `str::trim` removes.
pub open spec fn is_white_space(c: char) -> bool {
    let u = c as u32;
    ||| 0x09 <= u <= 0x0D
    ||| u == 0x20
    ||| u == 0x85
    ||| u == 0xA0
    ||| u == 0x1680
    ||| 0x2000 <= u <= 0x200A
    ||| u == 0x2028
    ||| u == 0x2029
    ||| u == 0x202F
    ||| u == 0x205F
    ||| u == 0x3000
}

/// Whether `c` is a Unicode white-space character.
pub fn is_white_space_char(c: char) -> (r: bool)
    ensures
        r == is_white_space(c),
{
    let u = c as u32;
    (0x09 <= u && u <= 0x0D) || u == 0x20 || u == 0x85 || u == 0xA0 || u == 0x1680 || (0x2000
        <= u && u <= 0x200A) || u == 0x2028 || u == 0x2029 || u == 0x202F || u == 0x205F || u
        == 0x3000
}

/// `s` without its leading white space.
pub open spec fn trim_start(s: Seq<char>) -> Seq<char>
    decreases s.len(),
{
    if s.len() > 0 && is_white_space(s[0]) {
        trim_start(s.drop_first())
    } else {
        s
    }
}

/// `s` without its trailing white space.
pub open spec fn trim_end(s: Seq<char>) -> Seq<char>
    decreases s.len(),
{
    if s.len() > 0 && is_white_space(s.last()) {
        trim_end(s.drop_last())
    } else {
        s
    }
}

/// `s` without leading and trailing white space (`str::trim`).
pub open spec fn trim(s: Seq<char>) -> Seq<char> {
    trim_end(trim_start(s))
}

proof fn lemma_trim_start_skip(s: Seq<char>, i: int)
    requires
        0 <= i < s.len(),
        is_white_space(s[i]),
    ensures
        trim_start(s.skip(i)) == trim_start(s.skip(i + 1)),
{
    assert(s.skip(i).drop_first() == s.skip(i + 1));
}

proof fn lemma_trim_end_take(s: Seq<char>, j: int)
    requires
        0 < j <= s.len(),
        is_white_space(s[j - 1]),
    ensures
        trim_end(s.take(j)) == trim_end(s.take(j - 1)),
{
    assert(s.take(j).drop_last() == s.take(j - 1));
}

/// The characters of `v` without leading and trailing white space.
pub fn trim_chars(v: &Vec<char>) -> (r: Vec<char>)
    ensures
        r@ == trim(v@),
{
    let n = v.len();
    let mut i: usize = 0;
    assert(v@.skip(0) == v@);
    while i < n && is_white_space_char(v[i])
        invariant
            n == v.len(),
            i <= n,
            trim_start(v@) == trim_start(v@.skip(i as int)),
        decreases n - i,
    {
        proof {
            lemma_trim_start_skip(v@, i as int);
        }
        i = i + 1;
    }
    let ghost rest = v@.skip(i as int);
    assert(trim_start(rest) == rest);
    let mut j: usize = n;
    assert(rest.take(rest.len() as int) == rest);
    while j > i && is_white_space_char(v[j - 1])
        invariant
            n == v.len(),
            i <= j <= n,
            rest == v@.skip(i as int),
            trim_end(rest) == trim_end(rest.take(j - i)),
        decreases j,
    {
        proof {
            lemma_trim_end_take(rest, (j - i) as int);
        }
        j = j - 1;
    }
    assert(trim_end(rest.take(j - i)) == rest.take(j - i));
    let mut out: Vec<char> = Vec::new();
    let mut k: usize = i;
    while k < j
        invariant
            i <= k <= j <= n,
            n == v.len(),
            out@ == v@.subrange(i as int, k as int),
        decreases j - k,
    {
        out.push(v[k]);
        assert(v@.subrange(i as int, k + 1) == v@.subrange(i as int, k as int).push(v@[k as int]));
        k = k + 1;
    }
    assert(out@ == rest.take(j - i));
    out
}

/// `s` with leading and trailing white space removed (`str::trim`).
pub fn trim_str(s: &str) -> (r: String)
    ensures
        r@ == trim(s@),
{
    let v = str_to_chars(s);
    let t = trim_chars(&v);
    chars_to_string(&t)
}

// ---------------------------------------------------------------------------
// Case mapping (Unicode tables, named)
// ---------------------------------------------------------------------------

/// Whether every character of `s` is ASCII.
pub open spec fn is_ascii_text(s: Seq<char>) -> bool {
    forall|i: int| 0 <= i < s.len() ==> (#[trigger] s[i] as u32) < 128
}

/// The ASCII lowercase of a character: `A`..`Z` become `a`..`z`, others stay.
pub open spec fn ascii_lower(c: char) -> char {
    if 'A' <= c <= 'Z' {
        ((c as u32) + 32) as char
    } else {
        c
    }
}

/// The ASCII uppercase of a character: `a`..`z` become `A`..`Z`, others stay.
pub open spec fn ascii_upper(c: char) -> char {
    if 'a' <= c <= 'z' {
        ((c as u32) - 32) as char
    } else {
        c
    }
}

/// Every character of `s` in ASCII lowercase.
pub open spec fn ascii_lowercase(s: Seq<char>) -> Seq<char> {
    s.map_values(|c: char| ascii_lower(c))
}

/// Every character of `s` in ASCII uppercase.
pub open spec fn ascii_uppercase(s: Seq<char>) -> Seq<char> {
    s.map_values(|c: char| ascii_upper(c))
}

/// The lowercase of a string as `str::to_lowercase` gives it: the ASCII map
/// on ASCII text, Unicode's mapping (named below) otherwise.
pub open spec fn lowercase_text(s: Seq<char>) -> Seq<char> {
    if is_ascii_text(s) {
        ascii_lowercase(s)
    } else {
        spec_str_lowercase(s)
    }
}

/// The uppercase of a string as `str::to_uppercase` gives it: the ASCII map
/// on ASCII text, Unicode's mapping (named below) otherwise.
pub open spec fn uppercase_text(s: Seq<char>) -> Seq<char> {
    if is_ascii_text(s) {
        ascii_uppercase(s)
    } else {
        spec_str_uppercase(s)
    }
}

/// The characters `char::to_lowercase` yields: the ASCII lowercase of an
/// ASCII character, Unicode's mapping (named below) otherwise.
pub open spec fn lowercase_char(c: char) -> Seq<char> {
    if (c as u32) < 128 {
        seq![ascii_lower(c)]
    } else {
        spec_char_lowercase(c)
    }
}

/// The characters `char::to_uppercase` yields: the ASCII uppercase of an
/// ASCII character, Unicode's mapping (named below) otherwise.
pub open spec fn uppercase_char(c: char) -> Seq<char> {
    if (c as u32) < 128 {
        seq![ascii_upper(c)]
    } else {
        spec_char_uppercase(c)
    }
}

/// What `str::to_lowercase` returns for a string with these characters.
pub uninterp spec fn spec_str_lowercase(s: Seq<char>) -> Seq<char>;

/// What `str::to_uppercase` returns for a string with these characters.
pub uninterp spec fn spec_str_uppercase(s: Seq<char>) -> Seq<char>;

/// The characters that `char::to_lowercase` yields for `c`.
pub uninterp spec fn spec_char_lowercase(c: char) -> Seq<char>;

/// The characters that `char::to_uppercase` yields for `c`.
pub uninterp spec fn spec_char_uppercase(c: char) -> Seq<char>;

/// std's `str::to_lowercase`: the Unicode lowercase mapping of the whole string.
/// The mapping is Unicode's table (with the context rule for final sigma); it
/// is given a name here and not written out, except on ASCII text, which std
/// maps with `u8::to_ascii_lowercase`.  Every character maps to at least one
/// character, so the result is no shorter, and empty only for empty text.
#[verifier::external_body]
pub(crate) fn str_to_lowercase(s: &str) -> (r: String)
    ensures
        r@ == spec_str_lowercase(s@),
        is_ascii_text(s@) ==> r@ == ascii_lowercase(s@),
        r@.len() >= s@.len(),
        s@.len() == 0 ==> r@.len() == 0,
{
    s.to_lowercase()
}

/// std's `str::to_uppercase`: the Unicode uppercase mapping of the whole string,
/// given a name here and not written out, except on ASCII text, which std
/// maps with `u8::to_ascii_uppercase`.  Every character maps to at least one
/// character, so the result is no shorter, and empty only for empty text.
#[verifier::external_body]
pub(crate) fn str_to_uppercase(s: &str) -> (r: String)
    ensures
        r@ == spec_str_uppercase(s@),
        is_ascii_text(s@) ==> r@ == ascii_uppercase(s@),
        r@.len() >= s@.len(),
        s@.len() == 0 ==> r@.len() == 0,
{
    s.to_uppercase()
}

/// std's `char::to_lowercase`, its characters collected into a `String`.
/// Unicode's table, named and not written out; an ASCII character maps to
/// its ASCII lowercase alone.
#[verifier::external_body]
pub(crate) fn char_to_lowercase(c: char) -> (r: String)
    ensures
        r@ == spec_char_lowercase(c),
        (c as u32) < 128 ==> r@ == seq![ascii_lower(c)],
{
    c.to_lowercase().collect()
}

/// std's `char::to_uppercase`, its characters collected into a `String`.
/// Unicode's table, named and not written out; an ASCII character maps to
/// its ASCII uppercase alone.
#[verifier::external_body]
pub(crate) fn char_to_uppercase(c: char) -> (r: String)
    ensures
        r@ == spec_char_uppercase(c),
        (c as u32) < 128 ==> r@ == seq![ascii_upper(c)],
{
    c.to_uppercase().collect()
}

// ---------------------------------------------------------------------------
// Decimal digits
// ---------------------------------------------------------------------------

/// Whether `c` is an ASCII decimal digit (what `char::is_digit(10)` accepts).
pub open spec fn is_dec_digit(c: char) -> bool {
    '0' <= c <= '9'
}

/// Whether `c` is an ASCII decimal digit.
pub fn is_dec_digit_char(c: char) -> (r: bool)
    ensures
        r == is_dec_digit(c),
{
    '0' <= c && c <= '9'
}

/// The value of a decimal digit character.
pub open spec fn digit_value(c: char) -> nat {
    ((c as u32) - 48) as nat
}

/// The digit character for `d < 10`.
pub open spec fn digit_char(d: nat) -> char {
    (d + 48) as char
}

/// The value of a sequence of decimal digits, most significant first
/// (0 for the empty sequence).
pub open spec fn decimal_value(s: Seq<char>) -> nat
    decreases s.len(),
{
    if s.len() == 0 {
        0
    } else {
        decimal_value(s.drop_last()) * 10 + digit_value(s.last())
    }
}

/// Whether every character of `s` is a decimal digit.
pub open spec fn all_digits(s: Seq<char>) -> bool {
    forall|i: int| 0 <= i < s.len() ==> is_dec_digit(#[trigger] s[i])
}

/// The decimal rendering of `n` (no sign, no leading zeros).
pub open spec fn nat_decimal(n: nat) -> Seq<char>
    decreases n,
{
    if n < 10 {
        seq![digit_char(n)]
    } else {
        nat_decimal(n / 10).push(digit_char(n % 10))
    }
}

/// The decimal rendering of `i` as `Display` writes it for integers.
pub open spec fn int_decimal(i: int) -> Seq<char> {
    if i < 0 {
        seq!['-'] + nat_decimal((-i) as nat)
    } else {
        nat_decimal(i as nat)
    }
}

/// Reading back the digits of a number written in decimal gives the number:
/// a written number keeps all its characters as digits, and their value is
/// the number.
pub proof fn decimal_round_trip(n: nat)
    ensures
        all_digits(nat_decimal(n)),
        keep_digits(nat_decimal(n)) == nat_decimal(n),
        decimal_value(nat_decimal(n)) == n,
    decreases n,
{
    if n >= 10 {
        decimal_round_trip(n / 10);
        let prev = nat_decimal(n / 10);
        let d = digit_char(n % 10);
        lemma_digit_char(n % 10);
        assert(nat_decimal(n) == prev.push(d));
        assert(nat_decimal(n).drop_last() == prev);
        assert(nat_decimal(n).last() == d);
        assert(decimal_value(nat_decimal(n)) == decimal_value(prev) * 10 + digit_value(d));
        assert((n / 10) * 10 + n % 10 == n);
        assert forall|i: int| 0 <= i < nat_decimal(n).len() implies is_dec_digit(
            #[trigger] nat_decimal(n)[i],
        ) by {
            if i < prev.len() {
                assert(nat_decimal(n)[i] == prev[i]);
            }
        }
    } else {
        let d = digit_char(n);
        lemma_digit_char(n);
        assert(nat_decimal(n) == seq![d]);
        assert(seq![d].drop_last() == Seq::<char>::empty());
        assert(seq![d].last() == d);
        assert(keep_digits(Seq::<char>::empty()) == Seq::<char>::empty());
        assert(Seq::<char>::empty().push(d) == seq![d]);
        assert(decimal_value(seq![d]) == decimal_value(Seq::<char>::empty()) * 10 + digit_value(d));
    }
}

proof fn lemma_digit_char(d: nat)
    requires
        d < 10,
    ensures
        is_dec_digit(digit_char(d)),
        digit_value(digit_char(d)) == d,
{
    if d == 0 {
    } else if d == 1 {
    } else if d == 2 {
    } else if d == 3 {
    } else if d == 4 {
    } else if d == 5 {
    } else if d == 6 {
    } else if d == 7 {
    } else if d == 8 {
    } else {
    }
}

/// The value of a prefix of a digit sequence is at most that of the whole.
pub proof fn lemma_decimal_prefix_le(s: Seq<char>, i: int)
    requires
        0 <= i <= s.len(),
    ensures
        decimal_value(s.take(i)) <= decimal_value(s),
    decreases s.len() - i,
{
    if i < s.len() {
        lemma_decimal_prefix_le(s, i + 1);
        assert(s.take(i + 1).drop_last() == s.take(i));
    } else {
        assert(s.take(i) == s);
    }
}

/// The digit character for a value below ten.
pub fn digit_to_char(d: u8) -> (c: char)
    requires
        d < 10,
    ensures
        c == digit_char(d as nat),
        is_dec_digit(c),
        digit_value(c) == d,
{
    match d {
        0 => '0',
        1 => '1',
        2 => '2',
        3 => '3',
        4 => '4',
        5 => '5',
        6 => '6',
        7 => '7',
        8 => '8',
        _ => '9',
    }
}

fn digits_of_u128(n: u128) -> (r: Vec<char>)
    ensures
        r@ == nat_decimal(n as nat),
    decreases n,
{
    let d = (n % 10) as u8;
    let c = digit_to_char(d);
    if n < 10 {
        let mut v: Vec<char> = Vec::new();
        v.push(c);
        v
    } else {
        let mut v = digits_of_u128(n / 10);
        v.push(c);
        v
    }
}

/// The decimal rendering of a signed integer (`i64::to_string`).
pub fn i64_to_chars(x: i64) -> (r: Vec<char>)
    ensures
        r@ == int_decimal(x as int),
{
    if x < 0 {
        let m: u128 = (-(x as i128)) as u128;
        let digits = digits_of_u128(m);
        let mut v: Vec<char> = Vec::new();
        v.push('-');
        let mut i: usize = 0;
        while i < digits.len()
            invariant
                i <= digits.len(),
                v@ == seq!['-'] + digits@.take(i as int),
            decreases digits.len() - i,
        {
            v.push(digits[i]);
            assert(digits@.take(i + 1) == digits@.take(i as int).push(digits@[i as int]));
            i = i + 1;
        }
        assert(digits@.take(digits.len() as int) == digits@);
        v
    } else {
        digits_of_u128(x as u128)
    }
}

/// The decimal rendering of a signed integer as a `String`.
pub fn i64_to_string(x: i64) -> (r: String)
    ensures
        r@ == int_decimal(x as int),
{
    let v = i64_to_chars(x);
    chars_to_string(&v)
}

/// The decimal rendering of an unsigned integer as a `String`.
pub fn u64_to_string(x: u64) -> (r: String)
    ensures
        r@ == nat_decimal(x as nat),
{
    let v = digits_of_u128(x as u128);
    chars_to_string(&v)
}

// ---------------------------------------------------------------------------
// Parsing decimal digits
// ---------------------------------------------------------------------------

/// The decimal digits of `s`, in order, with every other character dropped.
pub open spec fn keep_digits(s: Seq<char>) -> Seq<char>
    decreases s.len(),
{
    if s.len() == 0 {
        Seq::empty()
    } else if is_dec_digit(s.last()) {
        keep_digits(s.drop_last()).push(s.last())
    } else {
        keep_digits(s.drop_last())
    }
}

pub proof fn lemma_keep_digits_all_digits(s: Seq<char>)
    ensures
        all_digits(keep_digits(s)),
    decreases s.len(),
{
    if s.len() > 0 {
        lemma_keep_digits_all_digits(s.drop_last());
    }
}

/// The ASCII decimal digits of `v`, in order.
pub fn keep_digit_chars(v: &Vec<char>) -> (r: Vec<char>)
    ensures
        r@ == keep_digits(v@),
        all_digits(r@),
{
    let mut out: Vec<char> = Vec::new();
    let mut i: usize = 0;
    while i < v.len()
        invariant
            i <= v.len(),
            out@ == keep_digits(v@.take(i as int)),
        decreases v.len() - i,
    {
        let c = v[i];
        assert(v@.take(i + 1).drop_last() == v@.take(i as int));
        if '0' <= c && c <= '9' {
            out.push(c);
        }
        i = i + 1;
    }
    assert(v@.take(v.len() as int) == v@);
    proof {
        lemma_keep_digits_all_digits(v@);
    }
    out
}

/// The value of a sequence of decimal digits (`str::parse::<u64>` on such a
/// non-empty sequence).
pub fn digits_to_u64(v: &Vec<char>) -> (r: u64)
    requires
        all_digits(v@),
        decimal_value(v@) <= u64::MAX,
    ensures
        r == decimal_value(v@),
{
    let mut acc: u64 = 0;
    let mut i: usize = 0;
    while i < v.len()
        invariant
            i <= v.len(),
            all_digits(v@),
            decimal_value(v@) <= u64::MAX,
            acc == decimal_value(v@.take(i as int)),
        decreases v.len() - i,
    {
        proof {
            lemma_decimal_prefix_le(v@, i + 1);
            assert(v@.take(i + 1).drop_last() == v@.take(i as int));
            assert(is_dec_digit(v@[i as int]));
        }
        let d = (v[i] as u32 - 48) as u64;
        acc = acc * 10 + d;
        i = i + 1;
    }
    assert(v@.take(v.len() as int) == v@);
    acc
}

/// The characters of `v` from position `from` up to `to`.
pub fn chars_range(v: &Vec<char>, from: usize, to: usize) -> (r: Vec<char>)
    requires
        from <= to <= v@.len(),
    ensures
        r@ == v@.subrange(from as int, to as int),
{
    let mut out: Vec<char> = Vec::new();
    let mut i = from;
    while i < to
        invariant
            from <= i <= to <= v@.len(),
            out@ == v@.subrange(from as int, i as int),
        decreases to - i,
    {
        out.push(v[i]);
        assert(v@.subrange(from as int, i + 1) == v@.subrange(from as int, i as int).push(v@[i as int]));
        i = i + 1;
    }
    out
}

/// Whether two character vectors hold the same characters.
pub fn chars_eq(a: &Vec<char>, b: &Vec<char>) -> (r: bool)
    ensures
        r == (a@ == b@),
{
    if a.len() != b.len() {
        return false;
    }
    let mut i: usize = 0;
    while i < a.len()
        invariant
            i <= a.len(),
            a.len() == b.len(),
            forall|j: int| 0 <= j < i ==> a@[j] == b@[j],
        decreases a.len() - i,
    {
        if a[i] != b[i] {
            return false;
        }
        i = i + 1;
    }
    assert(a@ == b@);
    true
}

/// Whether two strings hold the same characters (`==` on `str`).
pub fn str_eq(a: &str, b: &str) -> (r: bool)
    ensures
        r == (a@ == b@),
{
    let x = str_to_chars(a);
    let y = str_to_chars(b);
    chars_eq(&x, &y)
}

/// The value of a sequence of decimal digits when it is at most `bound`,
/// `None` when it is larger.
pub fn bounded_decimal(v: &Vec<char>, bound: u64) -> (r: Option<u64>)
    requires
        all_digits(v@),
    ensures
        match r {
            Some(n) => n == decimal_value(v@) && n <= bound,
            None => decimal_value(v@) > bound,
        },
{
    let mut acc: u64 = 0;
    let mut i: usize = 0;
    while i < v.len()
        invariant
            i <= v.len(),
            all_digits(v@),
            acc == decimal_value(v@.take(i as int)),
            acc <= bound,
        decreases v.len() - i,
    {
        proof {
            lemma_decimal_prefix_le(v@, i + 1);
            assert(v@.take(i + 1).drop_last() == v@.take(i as int));
            assert(is_dec_digit(v@[i as int]));
        }
        let d = (v[i] as u32 - 48) as u64;
        if d > bound || acc > (bound - d) / 10 {
            proof {
                if d <= bound {
                    let q = (bound - d) / 10;
                    assert(acc * 10 + d > bound) by (nonlinear_arith)
                        requires
                            acc > q,
                            q == (bound - d) / 10,
                            d <= bound,
                    ;
                }
            }
            return None;
        }
        proof {
            let q = (bound - d) / 10;
            assert(acc * 10 + d <= bound) by (nonlinear_arith)
                requires
                    acc <= q,
                    q == (bound - d) / 10,
                    d <= bound,
            ;
        }
        acc = acc * 10 + d;
        i = i + 1;
    }
    assert(v@.take(v.len() as int) == v@);
    Some(acc)
}

// ---------------------------------------------------------------------------
// Searching, replacing, splitting
// ---------------------------------------------------------------------------

/// `p` occurs in `s` at index `i`.
pub open spec fn occurs_at(s: Seq<char>, p: Seq<char>, i: int) -> bool {
    0 <= i && i + p.len() <= s.len() && s.subrange(i, i + p.len()) == p
}

/// The first index at or after `i` at which `p` occurs in `s`.
pub open spec fn find_from(s: Seq<char>, p: Seq<char>, i: nat) -> Option<nat>
    decreases s.len() + 1 - i,
{
    if i + p.len() > s.len() {
        None
    } else if occurs_at(s, p, i as int) {
        Some(i)
    } else {
        find_from(s, p, i + 1)
    }
}

/// The first index at which `p` occurs in `s` (`str::find`, counted in characters).
pub open spec fn find_first(s: Seq<char>, p: Seq<char>) -> Option<nat> {
    find_from(s, p, 0)
}

pub proof fn lemma_find_from_facts(s: Seq<char>, p: Seq<char>, i: nat)
    ensures
        find_from(s, p, i) matches Some(k) ==> i <= k && occurs_at(s, p, k as int) && (forall|
            j: int,
        | i <= j < k ==> !occurs_at(s, p, j)),
        find_from(s, p, i) is None ==> forall|j: int| i <= j ==> !occurs_at(s, p, j),
    decreases s.len() + 1 - i,
{
    if i + p.len() > s.len() {
    } else if occurs_at(s, p, i as int) {
    } else {
        lemma_find_from_facts(s, p, i + 1);
    }
}

fn matches_at(s: &Vec<char>, p: &Vec<char>, i: usize) -> (r: bool)
    requires
        i + p.len() <= s.len(),
    ensures
        r == occurs_at(s@, p@, i as int),
{
    let mut k: usize = 0;
    while k < p.len()
        invariant
            k <= p.len(),
            i + p.len() <= s.len(),
            forall|j: int| 0 <= j < k ==> s@[i + j] == p@[j],
        decreases p.len() - k,
    {
        if s[i + k] != p[k] {
            assert(s@.subrange(i as int, i + p.len())[k as int] != p@[k as int]);
            return false;
        }
        k = k + 1;
    }
    assert(s@.subrange(i as int, i + p.len()) == p@);
    true
}

/// The first index at which `p` occurs in `s`.
pub fn find_chars(s: &Vec<char>, p: &Vec<char>) -> (r: Option<usize>)
    ensures
        r matches Some(k) ==> find_first(s@, p@) == Some(k as nat),
        r is None ==> find_first(s@, p@) is None,
{
    if p.len() > s.len() {
        return None;
    }
    let last = s.len() - p.len();
    let mut i: usize = 0;
    loop
        invariant
            p.len() <= s.len(),
            last == s.len() - p.len(),
            i <= last,
            find_first(s@, p@) == find_from(s@, p@, i as nat),
        decreases last - i,
    {
        if matches_at(s, p, i) {
            return Some(i);
        }
        if i == last {
            assert(find_from(s@, p@, (i + 1) as nat) is None);
            return None;
        }
        i = i + 1;
    }
}

/// `s` with every non-overlapping occurrence of `p`, scanned left to right,
/// replaced by `t` (`str::replace`; an empty `p` matches before every character
/// and at the end).
pub open spec fn replace_all(s: Seq<char>, p: Seq<char>, t: Seq<char>) -> Seq<char>
    decreases s.len(),
{
    if p.len() == 0 {
        if s.len() == 0 {
            t
        } else {
            t + seq![s[0]] + replace_all(s.drop_first(), p, t)
        }
    } else if s.len() < p.len() {
        s
    } else if s.take(p.len() as int) == p {
        t + replace_all(s.skip(p.len() as int), p, t)
    } else {
        seq![s[0]] + replace_all(s.drop_first(), p, t)
    }
}

proof fn lemma_replace_all_short(s: Seq<char>, p: Seq<char>, t: Seq<char>)
    requires
        0 < s.len() < p.len(),
    ensures
        replace_all(s, p, t) == seq![s[0]] + replace_all(s.drop_first(), p, t),
{
    assert(seq![s[0]] + s.drop_first() == s);
}

/// `s` with every occurrence of `p` replaced by `t` (`str::replace`).
pub fn replace_chars(s: &Vec<char>, p: &Vec<char>, t: &Vec<char>) -> (r: Vec<char>)
    ensures
        r@ == replace_all(s@, p@, t@),
{
    let n = s.len();
    let mut out: Vec<char> = Vec::new();
    let mut i: usize = 0;
    assert(s@.skip(0) == s@);
    while i < n
        invariant
            n == s.len(),
            i <= n,
            out@ + replace_all(s@.skip(i as int), p@, t@) == replace_all(s@, p@, t@),
        decreases n - i,
    {
        let ghost rest = s@.skip(i as int);
        if p.len() == 0 {
            assert(rest.drop_first() == s@.skip(i + 1));
            let mut k: usize = 0;
            let ghost before = out@;
            while k < t.len()
                invariant
                    k <= t.len(),
                    out@ == before + t@.take(k as int),
                decreases t.len() - k,
            {
                out.push(t[k]);
                assert(t@.take(k + 1) == t@.take(k as int).push(t@[k as int]));
                k = k + 1;
            }
            assert(t@.take(t.len() as int) == t@);
            out.push(s[i]);
            assert(out@ + replace_all(s@.skip(i + 1), p@, t@) == before + replace_all(rest, p@, t@));
            i = i + 1;
        } else if p.len() <= n - i && matches_at(s, p, i) {
            assert(rest.take(p.len() as int) == s@.subrange(i as int, i + p.len()));
            assert(rest.skip(p.len() as int) == s@.skip(i + p.len()));
            let ghost before = out@;
            let mut k: usize = 0;
            while k < t.len()
                invariant
                    k <= t.len(),
                    out@ == before + t@.take(k as int),
                decreases t.len() - k,
            {
                out.push(t[k]);
                assert(t@.take(k + 1) == t@.take(k as int).push(t@[k as int]));
                k = k + 1;
            }
            assert(t@.take(t.len() as int) == t@);
            assert(out@ + replace_all(s@.skip(i + p.len()), p@, t@) == before + replace_all(rest, p@, t@));
            i = i + p.len();
        } else {
            assert(rest.drop_first() == s@.skip(i + 1));
            proof {
                if rest.len() < p.len() {
                    lemma_replace_all_short(rest, p@, t@);
                } else {
                    assert(rest.take(p.len() as int) == s@.subrange(i as int, i + p.len()));
                }
            }
            let ghost before = out@;
            out.push(s[i]);
            assert(out@ + replace_all(s@.skip(i + 1), p@, t@) == before + replace_all(rest, p@, t@));
            i = i + 1;
        }
    }
    assert(s@.skip(n as int) == Seq::<char>::empty());
    if p.len() == 0 {
        let ghost before = out@;
        let mut k: usize = 0;
        while k < t.len()
            invariant
                k <= t.len(),
                out@ == before + t@.take(k as int),
            decreases t.len() - k,
        {
            out.push(t[k]);
            assert(t@.take(k + 1) == t@.take(k as int).push(t@[k as int]));
            k = k + 1;
        }
        assert(t@.take(t.len() as int) == t@);
    }
    out
}

/// Whether `c` is one of the characters a number is written with (a digit
/// or `-`).
pub open spec fn is_number_char(c: char) -> bool {
    is_dec_digit(c) || c == '-'
}

/// Whether `s` holds only characters a number is written with.
pub open spec fn only_number_chars(s: Seq<char>) -> bool {
    forall|i: int| 0 <= i < s.len() ==> is_number_char(#[trigger] s[i])
}

/// Whether `s` holds none of the characters a number is written with.
pub open spec fn no_number_chars(s: Seq<char>) -> bool {
    forall|i: int| 0 <= i < s.len() ==> !is_number_char(#[trigger] s[i])
}

/// A number written in decimal is not empty and holds only digits and `-`.
pub proof fn lemma_int_decimal_chars(i: int)
    ensures
        int_decimal(i).len() > 0,
        only_number_chars(int_decimal(i)),
{
    let n: nat = if i < 0 {
        (-i) as nat
    } else {
        i as nat
    };
    decimal_round_trip(n);
    assert(nat_decimal(n).len() > 0) by {
        if n >= 10 {
            assert(nat_decimal(n) == nat_decimal(n / 10).push(digit_char(n % 10)));
        }
    }
    let d = int_decimal(i);
    assert forall|k: int| 0 <= k < d.len() implies is_number_char(#[trigger] d[k]) by {
        if i < 0 {
            if k > 0 {
                assert(d[k] == nat_decimal(n)[k - 1]);
            }
        } else {
            assert(is_dec_digit(nat_decimal(n)[k]));
        }
    }
}

/// Where replacing a pattern with a number leaves text free of number
/// characters, that text is the original's, unchanged.
pub proof fn lemma_replace_all_plain_prefix(s: Seq<char>, q: Seq<char>, t: Seq<char>, m: int)
    requires
        q.len() > 0,
        t.len() > 0,
        only_number_chars(t),
        0 <= m <= replace_all(s, q, t).len(),
        no_number_chars(replace_all(s, q, t).take(m)),
    ensures
        m <= s.len(),
        s.take(m) == replace_all(s, q, t).take(m),
    decreases s.len(),
{
    let r = replace_all(s, q, t);
    if s.len() < q.len() {
    } else if s.take(q.len() as int) == q {
        if m > 0 {
            assert(r == t + replace_all(s.skip(q.len() as int), q, t));
            assert(r.take(m)[0] == t[0]);
            assert(is_number_char(t[0]));
        }
    } else if m > 0 {
        let rest = replace_all(s.drop_first(), q, t);
        assert(r == seq![s[0]] + rest);
        assert(rest.take(m - 1) == r.take(m).drop_first());
        assert forall|k: int| 0 <= k < m - 1 implies !is_number_char(#[trigger] rest.take(m - 1)[k]) by {
            assert(rest.take(m - 1)[k] == r.take(m)[k + 1]);
        }
        lemma_replace_all_plain_prefix(s.drop_first(), q, t, m - 1);
        assert(s.take(m) == seq![s[0]] + s.drop_first().take(m - 1));
        assert(r.take(m) == seq![s[0]] + rest.take(m - 1));
    }
}

proof fn lemma_occurs_shift(a: Seq<char>, b: Seq<char>, p: Seq<char>, k: int)
    requires
        occurs_at(a + b, p, k),
        k >= a.len(),
    ensures
        occurs_at(b, p, k - a.len()),
{
    assert((a + b).subrange(k, k + p.len()) == b.subrange(k - a.len(), k - a.len() + p.len()));
}

proof fn lemma_occurs_in_number(t: Seq<char>, rest: Seq<char>, p: Seq<char>, k: int)
    requires
        only_number_chars(t),
        no_number_chars(p),
        p.len() > 0,
        0 <= k < t.len(),
    ensures
        !occurs_at(t + rest, p, k),
{
    if occurs_at(t + rest, p, k) {
        assert((t + rest).subrange(k, k + p.len())[0] == t[k]);
        assert(is_number_char(t[k]));
    }
}

/// Replacing a pattern free of number characters with a number leaves no
/// occurrence of the pattern.
pub proof fn lemma_replace_all_removes(s: Seq<char>, p: Seq<char>, t: Seq<char>)
    requires
        p.len() > 0,
        no_number_chars(p),
        t.len() > 0,
        only_number_chars(t),
    ensures
        forall|k: int| !#[trigger] occurs_at(replace_all(s, p, t), p, k),
    decreases s.len(),
{
    let r = replace_all(s, p, t);
    if s.len() < p.len() {
    } else if s.take(p.len() as int) == p {
        let rest = replace_all(s.skip(p.len() as int), p, t);
        lemma_replace_all_removes(s.skip(p.len() as int), p, t);
        assert(r == t + rest);
        assert forall|k: int| !#[trigger] occurs_at(r, p, k) by {
            if occurs_at(r, p, k) {
                if k < t.len() {
                    lemma_occurs_in_number(t, rest, p, k);
                } else {
                    lemma_occurs_shift(t, rest, p, k);
                }
            }
        }
    } else {
        let rest = replace_all(s.drop_first(), p, t);
        lemma_replace_all_removes(s.drop_first(), p, t);
        assert(r == seq![s[0]] + rest);
        assert forall|k: int| !#[trigger] occurs_at(r, p, k) by {
            if occurs_at(r, p, k) {
                if k >= 1 {
                    lemma_occurs_shift(seq![s[0]], rest, p, k);
                } else {
                    assert(r.take(p.len() as int) == p);
                    lemma_replace_all_plain_prefix(s, p, t, p.len() as int);
                }
            }
        }
    }
}

/// Replacing any pattern with a number creates no occurrence of a pattern
/// free of number characters.
pub proof fn lemma_replace_all_keeps_absent(
    s: Seq<char>,
    q: Seq<char>,
    t: Seq<char>,
    p: Seq<char>,
)
    requires
        q.len() > 0,
        p.len() > 0,
        no_number_chars(p),
        t.len() > 0,
        only_number_chars(t),
        forall|k: int| !#[trigger] occurs_at(s, p, k),
    ensures
        forall|k: int| !#[trigger] occurs_at(replace_all(s, q, t), p, k),
    decreases s.len(),
{
    let r = replace_all(s, q, t);
    if s.len() < q.len() {
    } else if s.take(q.len() as int) == q {
        let tail = s.skip(q.len() as int);
        assert forall|k: int| !#[trigger] occurs_at(tail, p, k) by {
            if occurs_at(tail, p, k) {
                assert(tail.subrange(k, k + p.len()) == s.subrange(k + q.len(), k + q.len() + p.len()));
                assert(occurs_at(s, p, k + q.len()));
            }
        }
        lemma_replace_all_keeps_absent(tail, q, t, p);
        let rest = replace_all(tail, q, t);
        assert(r == t + rest);
        assert forall|k: int| !#[trigger] occurs_at(r, p, k) by {
            if occurs_at(r, p, k) {
                if k < t.len() {
                    lemma_occurs_in_number(t, rest, p, k);
                } else {
                    lemma_occurs_shift(t, rest, p, k);
                }
            }
        }
    } else {
        let tail = s.drop_first();
        assert forall|k: int| !#[trigger] occurs_at(tail, p, k) by {
            if occurs_at(tail, p, k) {
                assert(tail.subrange(k, k + p.len()) == s.subrange(k + 1, k + 1 + p.len()));
                assert(occurs_at(s, p, k + 1));
            }
        }
        lemma_replace_all_keeps_absent(tail, q, t, p);
        let rest = replace_all(tail, q, t);
        assert(r == seq![s[0]] + rest);
        assert forall|k: int| !#[trigger] occurs_at(r, p, k) by {
            if occurs_at(r, p, k) {
                if k >= 1 {
                    lemma_occurs_shift(seq![s[0]], rest, p, k);
                } else {
                    assert(r.take(p.len() as int) == p);
                    assert forall|i: int| 0 <= i < p.len() implies !is_number_char(
                        #[trigger] r.take(p.len() as int)[i],
                    ) by {
                        assert(r.take(p.len() as int)[i] == p[i]);
                    }
                    lemma_replace_all_plain_prefix(s, q, t, p.len() as int);
                    assert(s.subrange(0, p.len() as int) == s.take(p.len() as int));
                    assert(occurs_at(s, p, 0));
                }
            }
        }
    }
}

/// `s` with its first occurrence of `p` replaced by `t` (`str::replacen(p, t, 1)`).
pub open spec fn replace_first(s: Seq<char>, p: Seq<char>, t: Seq<char>) -> Seq<char> {
    match find_first(s, p) {
        None => s,
        Some(i) => s.take(i as int) + t + s.skip((i + p.len()) as int),
    }
}

/// `s` with its first occurrence of `p` replaced by `t`.
pub fn replace_first_chars(s: &Vec<char>, p: &Vec<char>, t: &Vec<char>) -> (r: Vec<char>)
    ensures
        r@ == replace_first(s@, p@, t@),
{
    match find_chars(s, p) {
        None => s.clone(),
        Some(i) => {
            proof {
                lemma_find_from_facts(s@, p@, 0);
            }
            let mut out: Vec<char> = Vec::new();
            let mut k: usize = 0;
            while k < i
                invariant
                    k <= i,
                    i + p.len() <= s.len(),
                    out@ == s@.take(k as int),
                decreases i - k,
            {
                out.push(s[k]);
                assert(s@.take(k + 1) == s@.take(k as int).push(s@[k as int]));
                k = k + 1;
            }
            let mut k: usize = 0;
            while k < t.len()
                invariant
                    k <= t.len(),
                    out@ == s@.take(i as int) + t@.take(k as int),
                decreases t.len() - k,
            {
                out.push(t[k]);
                assert(t@.take(k + 1) == t@.take(k as int).push(t@[k as int]));
                k = k + 1;
            }
            assert(t@.take(t.len() as int) == t@);
            let start = i + p.len();
            let mut k: usize = start;
            while k < s.len()
                invariant
                    start <= k <= s.len(),
                    out@ == s@.take(i as int) + t@ + s@.subrange(start as int, k as int),
                decreases s.len() - k,
            {
                out.push(s[k]);
                assert(s@.subrange(start as int, k + 1) == s@.subrange(start as int, k as int).push(
                    s@[k as int],
                ));
                k = k + 1;
            }
            assert(s@.subrange(start as int, s.len() as int) == s@.skip(start as int));
            out
        },
    }
}

/// The pieces of `s` between occurrences of `c` (`str::split(c)`): one more
/// piece than there are occurrences, empty pieces included.
pub open spec fn split_on(s: Seq<char>, c: char) -> Seq<Seq<char>>
    decreases s.len(),
{
    if s.len() == 0 {
        seq![Seq::empty()]
    } else {
        let parts = split_on(s.drop_last(), c);
        if s.last() == c {
            parts.push(Seq::empty())
        } else {
            parts.update(parts.len() - 1, parts.last().push(s.last()))
        }
    }
}

pub proof fn lemma_split_on_nonempty(s: Seq<char>, c: char)
    ensures
        split_on(s, c).len() >= 1,
    decreases s.len(),
{
    if s.len() > 0 {
        lemma_split_on_nonempty(s.drop_last(), c);
    }
}

/// The pieces of `v` between occurrences of `c`.
pub fn split_chars(v: &Vec<char>, c: char) -> (r: Vec<Vec<char>>)
    ensures
        r@.len() == split_on(v@, c).len(),
        forall|k: int| 0 <= k < r@.len() ==> #[trigger] r@[k]@ == split_on(v@, c)[k],
{
    let mut done: Vec<Vec<char>> = Vec::new();
    let mut cur: Vec<char> = Vec::new();
    let mut i: usize = 0;
    while i < v.len()
        invariant
            i <= v.len(),
            done@.len() + 1 == split_on(v@.take(i as int), c).len(),
            forall|k: int|
                0 <= k < done@.len() ==> #[trigger] done@[k]@ == split_on(v@.take(i as int), c)[k],
            cur@ == split_on(v@.take(i as int), c).last(),
        decreases v.len() - i,
    {
        proof {
            lemma_split_on_nonempty(v@.take(i as int), c);
            assert(v@.take(i + 1).drop_last() == v@.take(i as int));
        }
        if v[i] == c {
            done.push(cur);
            cur = Vec::new();
        } else {
            cur.push(v[i]);
        }
        i = i + 1;
    }
    assert(v@.take(v.len() as int) == v@);
    proof {
        lemma_split_on_nonempty(v@, c);
    }
    done.push(cur);
    done
}

} // verus!
