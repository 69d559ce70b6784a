//! Dice: reading terms like `3d6`, rolling them, substituting the totals into
//! a roll expression, and describing the rolls.

use vstd::prelude::*;

use rand::Rng;

use crate::common::{join_with, running_sums_fit, sum_i32};
use crate::text::{
    bounded_decimal, chars_to_string, decimal_value, find_first, lemma_find_from_facts, occurs_at, i64_to_chars, is_dec_digit, int_decimal, keep_digit_chars, keep_digits,
    push_chars, push_str, replace_first, replace_first_chars, split_chars, split_on, str_to_chars,
};

verus! {

broadcast use vstd::string::group_string_axioms;

/// One rolled die: its face and the term (`NdM`) it was rolled for.
#[derive(Debug)]
pub struct Roll {
    pub result: i32,
    pub expression: String,
}

/// A roll as plain values: its face and its term.
pub open spec fn roll_view(r: Roll) -> (i32, Seq<char>) {
    (r.result, r.expression@)
}

/// Rolls as plain values.
pub open spec fn rolls_view(rolls: Seq<Roll>) -> Seq<(i32, Seq<char>)> {
    rolls.map_values(|r: Roll| roll_view(r))
}

/// Why a dice term cannot be rolled.
#[derive(Debug, PartialEq, Eq, Structural)]
pub enum DiceError {
    TooMuchD,
    InvalidFaceCount,
    InvalidDiceCount,
}

impl DiceError {
    /// The message shown for this error (its `Debug` name).
    pub fn message(&self) -> (r: String)
        ensures
            r@ == match self {
                DiceError::TooMuchD => "TooMuchD"@,
                DiceError::InvalidFaceCount => "InvalidFaceCount"@,
                DiceError::InvalidDiceCount => "InvalidDiceCount"@,
            },
    {
        match self {
            DiceError::TooMuchD => String::from_str("TooMuchD"),
            DiceError::InvalidFaceCount => String::from_str("InvalidFaceCount"),
            DiceError::InvalidDiceCount => String::from_str("InvalidDiceCount"),
        }
    }
}

// ---------------------------------------------------------------------------
// Reading a term
// ---------------------------------------------------------------------------

/// The number a piece of a term stands for: its digits, other characters ignored.
pub open spec fn term_number(s: Seq<char>) -> nat {
    decimal_value(keep_digits(s))
}

/// The checks on a count of dice and a count of faces.
pub open spec fn checked_dice(count: nat, faces: nat) -> Result<(int, int), DiceError> {
    if count == 0 {
        Err(DiceError::InvalidDiceCount)
    } else if faces == 0 || faces == 1 {
        Err(DiceError::InvalidFaceCount)
    } else {
        Ok((count as int, faces as int))
    }
}

/// What a dice term means: the pieces around `d` give the count of dice (one
/// when the term starts with `d`) and the count of faces.  `None` when
/// reading it panics: a term with no `d` and nothing else, or a number too
/// large for `i32`.
pub open spec fn dice_term(s: Seq<char>) -> Option<Result<(int, int), DiceError>> {
    let parts = split_on(s, 'd');
    if parts[0].len() == 0 {
        if parts.len() < 2 || term_number(parts[1]) > i32::MAX {
            None
        } else {
            Some(checked_dice(1, term_number(parts[1])))
        }
    } else if parts.len() == 2 {
        if term_number(parts[1]) > i32::MAX || term_number(parts[0]) > i32::MAX {
            None
        } else {
            Some(checked_dice(term_number(parts[0]), term_number(parts[1])))
        }
    } else {
        Some(Err(DiceError::TooMuchD))
    }
}

fn piece_number(v: &Vec<char>) -> (r: i32)
    requires
        term_number(v@) <= i32::MAX,
    ensures
        r == term_number(v@),
{
    let d = keep_digit_chars(v);
    if d.len() == 0 {
        return 0;
    }
    crate::text::digits_to_u64(&d) as i32
}

/// Reads a dice term into its count of dice and count of faces.
pub fn parse_dice_term(instance: &str) -> (r: Result<(i32, i32), DiceError>)
    requires
        dice_term(instance@) is Some,
    ensures
        match (r, dice_term(instance@).unwrap()) {
            (Ok((c, f)), Ok((c2, f2))) => c == c2 && f == f2,
            (Err(e), Err(e2)) => e == e2,
            _ => false,
        },
{
    let v = str_to_chars(instance);
    let parts = split_chars(&v, 'd');
    proof {
        crate::text::lemma_split_on_nonempty(v@, 'd');
    }
    let mut number_of_dice: i32 = 1;
    let faces_of_die: i32;
    if parts[0].len() == 0 {
        faces_of_die = piece_number(&parts[1]);
    } else if parts.len() == 2 {
        faces_of_die = piece_number(&parts[1]);
        number_of_dice = piece_number(&parts[0]);
    } else {
        return Err(DiceError::TooMuchD);
    }
    if number_of_dice == 0 {
        return Err(DiceError::InvalidDiceCount);
    }
    if faces_of_die == 0 {
        return Err(DiceError::InvalidFaceCount);
    }
    if faces_of_die == 1 {
        return Err(DiceError::InvalidFaceCount);
    }
    Ok((number_of_dice, faces_of_die))
}

// ---------------------------------------------------------------------------
// Rolling
// ---------------------------------------------------------------------------

/// A number drawn at random from `low..high`, from the `rand` crate's thread
/// generator (`Rng::gen_range`).  Which number comes is chance; it lies in the
/// range, which must not be empty.
#[verifier::external_body]
pub(crate) fn random_in_range(low: i32, high: i32) -> (r: i32)
    requires
        low < high,
    ensures
        low <= r < high,
{
    rand::thread_rng().gen_range(low..high)
}

/// The term `count`d`faces` as the rolls record it.
pub open spec fn term_text(count: int, faces: int) -> Seq<char> {
    int_decimal(count) + "d"@ + int_decimal(faces)
}

fn term_string(count: i32, faces: i32) -> (r: String)
    ensures
        r@ == term_text(count as int, faces as int),
{
    let mut s = String::new();
    let c = i64_to_chars(count as i64);
    push_chars(&mut s, &c);
    push_str(&mut s, "d");
    let f = i64_to_chars(faces as i64);
    push_chars(&mut s, &f);
    s
}

/// Whether `rolls` are `count` rolls of a `faces`-sided die, each recorded
/// with the term `count`d`faces`.
pub open spec fn valid_rolls(rolls: Seq<(i32, Seq<char>)>, count: int, faces: int) -> bool {
    &&& rolls.len() == count
    &&& forall|i: int|
        0 <= i < rolls.len() ==> 1 <= (#[trigger] rolls[i]).0 <= faces && rolls[i].1 == term_text(
            count,
            faces,
        )
}

/// Rolls `count` dice with `faces` faces each.
pub fn generate_randoms(count: i32, faces: i32) -> (r: Vec<Roll>)
    requires
        faces < i32::MAX,
        1 <= faces,
    ensures
        valid_rolls(rolls_view(r@), if count < 0 {
            0
        } else {
            count as int
        }, faces as int) || count < 0,
        count < 0 ==> r@.len() == 0,
{
    let mut rolls: Vec<Roll> = Vec::new();
    let mut i: i32 = 0;
    while i < count
        invariant
            0 <= i,
            i <= count || count < 0,
            count < 0 ==> i == 0,
            faces < i32::MAX,
            1 <= faces,
            rolls@.len() == i,
            forall|k: int|
                0 <= k < rolls@.len() ==> 1 <= (#[trigger] rolls@[k]).result <= faces
                    && rolls@[k].expression@ == term_text(count as int, faces as int),
        decreases count - i,
    {
        let result = random_in_range(1, faces + 1);
        let expression = term_string(count, faces);
        rolls.push(Roll { result, expression });
        i = i + 1;
    }
    rolls
}

/// Whether rolling a term needs no addition past `i32`: its dice are read,
/// and the faces leave room for the range the dice are drawn from.
pub open spec fn rollable_term(s: Seq<char>) -> bool {
    &&& dice_term(s) is Some
    &&& dice_term(s).unwrap() matches Ok((_, faces)) ==> faces < i32::MAX
}

/// Reads a dice term and rolls it.
pub fn roll_dice_string(instance: &str) -> (r: Result<Vec<Roll>, DiceError>)
    requires
        rollable_term(instance@),
    ensures
        match (r, dice_term(instance@).unwrap()) {
            (Ok(rolls), Ok((c, f))) => valid_rolls(rolls_view(rolls@), c, f),
            (Err(e), Err(e2)) => e == e2,
            _ => false,
        },
{
    match parse_dice_term(instance) {
        Ok((count, faces)) => Ok(generate_randoms(count, faces)),
        Err(e) => Err(e),
    }
}

// ---------------------------------------------------------------------------
// Totals and descriptions of rolls
// ---------------------------------------------------------------------------

/// The faces of the rolls.
pub open spec fn roll_results(rolls: Seq<(i32, Seq<char>)>) -> Seq<i32> {
    rolls.map_values(|r: (i32, Seq<char>)| r.0)
}

/// The faces of the rolls in decimal, joined with `separator`.
pub fn join_rolls_to_string(rolls: &[Roll], separator: &str) -> (r: String)
    ensures
        r@ == join_with(
            crate::common::decimals_i32(roll_results(rolls_view(rolls@))),
            separator@,
        ),
{
    let mut results: Vec<i32> = Vec::new();
    let mut i: usize = 0;
    while i < rolls.len()
        invariant
            i <= rolls.len(),
            results@ == roll_results(rolls_view(rolls@)).take(i as int),
        decreases rolls.len() - i,
    {
        results.push(rolls[i].result);
        assert(roll_results(rolls_view(rolls@)).take(i + 1) == roll_results(rolls_view(rolls@)).take(
            i as int,
        ).push(rolls@[i as int].result));
        i = i + 1;
    }
    assert(roll_results(rolls_view(rolls@)).take(rolls.len() as int) == roll_results(
        rolls_view(rolls@),
    ));
    crate::common::join_to_string(results.as_slice(), separator)
}

/// The sum of the faces of the rolls.
pub fn sum_roll_array(arr: &Vec<Roll>) -> (r: i32)
    requires
        crate::common::running_sums_fit(roll_results(rolls_view(arr@))),
    ensures
        r == sum_i32(roll_results(rolls_view(arr@))),
{
    let mut results: Vec<i32> = Vec::new();
    let mut i: usize = 0;
    while i < arr.len()
        invariant
            i <= arr.len(),
            results@ == roll_results(rolls_view(arr@)).take(i as int),
        decreases arr.len() - i,
    {
        results.push(arr[i].result);
        assert(roll_results(rolls_view(arr@)).take(i + 1) == roll_results(rolls_view(arr@)).take(
            i as int,
        ).push(arr@[i as int].result));
        i = i + 1;
    }
    assert(roll_results(rolls_view(arr@)).take(arr.len() as int) == roll_results(
        rolls_view(arr@),
    ));
    crate::common::sum_array(&results)
}

} // verus!

verus! {

// ---------------------------------------------------------------------------
// Bounds on a term
// ---------------------------------------------------------------------------

/// Whether a dice term is read without overflow: its numbers fit in `i32`,
/// and the faces of dice that can be rolled stay below `i32::MAX` (a roll
/// draws from `1..faces + 1`).
pub open spec fn bounded_term(s: Seq<char>) -> bool {
    &&& dice_term(s) is Some
    &&& (dice_term(s).unwrap() matches Ok((c, f)) ==> f < i32::MAX)
}

/// Whether a dice term is bounded and names dice that can be rolled.
pub open spec fn term_rolls(s: Seq<char>) -> bool {
    bounded_term(s) && dice_term(s).unwrap() is Ok
}

/// The count of dice and count of faces a rollable term names.
pub open spec fn term_dice(s: Seq<char>) -> (int, int) {
    match dice_term(s) {
        Some(Ok(d)) => d,
        _ => (0, 0),
    }
}

/// The number a piece of a term stands for, when it fits in `i32`.
fn piece_number_checked(v: &Vec<char>) -> (r: Option<i32>)
    ensures
        match r {
            Some(n) => n == term_number(v@) && term_number(v@) <= i32::MAX,
            None => term_number(v@) > i32::MAX,
        },
{
    let d = keep_digit_chars(v);
    match bounded_decimal(&d, 0x7fff_ffff) {
        Some(n) => Some(n as i32),
        None => None,
    }
}

/// Whether a term is bounded (see `bounded_term`).
pub fn term_in_bounds(instance: &str) -> (r: bool)
    ensures
        r == bounded_term(instance@),
{
    let v = str_to_chars(instance);
    let parts = split_chars(&v, 'd');
    proof {
        crate::text::lemma_split_on_nonempty(v@, 'd');
    }
    let count: i32;
    let faces: i32;
    if parts[0].len() == 0 {
        if parts.len() < 2 {
            return false;
        }
        match piece_number_checked(&parts[1]) {
            None => {
                return false;
            },
            Some(f) => {
                count = 1;
                faces = f;
            },
        }
    } else if parts.len() == 2 {
        let f = piece_number_checked(&parts[1]);
        let c = piece_number_checked(&parts[0]);
        match (c, f) {
            (Some(c), Some(f)) => {
                count = c;
                faces = f;
            },
            _ => {
                return false;
            },
        }
    } else {
        return true;
    }
    if count == 0 || faces == 0 || faces == 1 {
        return true;
    }
    faces < 0x7fff_ffff
}

/// The running totals of `n` numbers, each between 1 and `faces`, stay
/// between 0 and `n * faces`.
proof fn lemma_bounded_totals(s: Seq<i32>, faces: int)
    requires
        0 <= faces,
        s.len() * faces < i32::MAX,
        forall|i: int| 0 <= i < s.len() ==> 1 <= #[trigger] s[i] <= faces,
    ensures
        running_sums_fit(s),
{
    assert forall|k: int| 0 <= k <= s.len() implies i32::MIN <= #[trigger] sum_i32(s.take(k))
        <= i32::MAX by {
        lemma_prefix_total(s, faces, k);
        assert(k * faces <= s.len() * faces) by (nonlinear_arith)
            requires
                0 <= k <= s.len(),
                0 <= faces,
        ;
    }
}

proof fn lemma_prefix_total(s: Seq<i32>, faces: int, k: int)
    requires
        0 <= k <= s.len(),
        forall|i: int| 0 <= i < s.len() ==> 1 <= #[trigger] s[i] <= faces,
    ensures
        0 <= sum_i32(s.take(k)) <= k * faces,
    decreases k,
{
    if k > 0 {
        lemma_prefix_total(s, faces, k - 1);
        assert(s.take(k).drop_last() == s.take(k - 1));
        assert(s.take(k).last() == s[k - 1]);
        assert(1 <= s[k - 1] <= faces);
        assert(k * faces == (k - 1) * faces + faces) by (nonlinear_arith);
        assert(sum_i32(s.take(k)) == sum_i32(s.take(k - 1)) + s[k - 1]);
    } else {
        assert(k * faces == 0) by (nonlinear_arith)
            requires
                k == 0,
        ;
    }
}

// ---------------------------------------------------------------------------
// Rolling every term of an expression
// ---------------------------------------------------------------------------

/// The end of the run of decimal digits that starts at `i` (`i` itself when
/// there is none).
pub open spec fn digits_end(s: Seq<char>, i: int) -> int
    decreases s.len() - i,
{
    if 0 <= i < s.len() && is_dec_digit(s[i]) {
        digits_end(s, i + 1)
    } else {
        i
    }
}

pub proof fn lemma_digits_end(s: Seq<char>, i: int)
    requires
        0 <= i <= s.len(),
    ensures
        i <= digits_end(s, i) <= s.len(),
        i < s.len() && is_dec_digit(s[i]) ==> digits_end(s, i) > i,
    decreases s.len() - i,
{
    if i < s.len() && is_dec_digit(s[i]) {
        lemma_digits_end(s, i + 1);
    }
}

/// The dice terms of `s` from position `i` on: each run of digits followed
/// by `d` and a run of digits (`3d6`, `12d100`), left to right and not
/// overlapping.
pub open spec fn dice_terms_from(s: Seq<char>, i: int) -> Seq<Seq<char>>
    decreases s.len() - i,
{
    if i < 0 || i >= s.len() {
        Seq::empty()
    } else if !is_dec_digit(s[i]) {
        dice_terms_from(s, i + 1)
    } else {
        proof {
            lemma_digits_end(s, i);
        }
        let a = digits_end(s, i);
        if a + 1 < s.len() && s[a] == 'd' && is_dec_digit(s[a + 1]) {
            proof {
                lemma_digits_end(s, a + 1);
            }
            let b = digits_end(s, a + 1);
            seq![s.subrange(i, b)] + dice_terms_from(s, b)
        } else {
            dice_terms_from(s, a)
        }
    }
}

/// The dice terms of a roll expression, in order (see `dice_terms_from`).
pub open spec fn dice_terms(s: Seq<char>) -> Seq<Seq<char>> {
    dice_terms_from(s, 0)
}

/// The end of the run of digits of `v` that starts at `i`.
fn digit_run_end(v: &Vec<char>, i: usize) -> (r: usize)
    requires
        i <= v.len(),
    ensures
        r == digits_end(v@, i as int),
{
    let mut j = i;
    while j < v.len() && crate::text::is_dec_digit_char(v[j])
        invariant
            i <= j <= v.len(),
            digits_end(v@, i as int) == digits_end(v@, j as int),
        decreases v.len() - j,
    {
        j = j + 1;
    }
    j
}

/// The dice terms of a roll expression (see `dice_terms`).
pub fn find_dice_terms(input: &str) -> (r: Vec<String>)
    ensures
        strings_view(r@) == dice_terms(input@),
{
    let v = str_to_chars(input);
    let n = v.len();
    let mut out: Vec<String> = Vec::new();
    let mut i: usize = 0;
    while i < n
        invariant
            n == v.len(),
            v@ == input@,
            i <= n,
            strings_view(out@) + dice_terms_from(v@, i as int) == dice_terms(v@),
        decreases n - i,
    {
        if !crate::text::is_dec_digit_char(v[i]) {
            i = i + 1;
        } else {
            proof {
                lemma_digits_end(v@, i as int);
            }
            let a = digit_run_end(&v, i);
            if a < n && v[a] == 'd' && a + 1 < n && crate::text::is_dec_digit_char(v[a + 1]) {
                proof {
                    lemma_digits_end(v@, a + 1);
                }
                let b = digit_run_end(&v, a + 1);
                let t = chars_to_string(&crate::text::chars_range(&v, i, b));
                let ghost before = strings_view(out@);
                out.push(t);
                assert(strings_view(out@) == before.push(v@.subrange(i as int, b as int)));
                assert(before.push(v@.subrange(i as int, b as int)) + dice_terms_from(v@, b as int)
                    == before + (seq![v@.subrange(i as int, b as int)] + dice_terms_from(
                    v@,
                    b as int,
                )));
                i = b;
            } else {
                i = a;
            }
        }
    }
    assert(strings_view(out@) + Seq::<Seq<char>>::empty() == strings_view(out@));
    out
}

/// Strings as character sequences.
pub open spec fn strings_view(v: Seq<String>) -> Seq<Seq<char>> {
    v.map_values(|t: String| t@)
}

/// The rolls of several groups, one after the other.
pub open spec fn concat_groups(gs: Seq<Seq<(i32, Seq<char>)>>) -> Seq<(i32, Seq<char>)>
    decreases gs.len(),
{
    if gs.len() == 0 {
        Seq::empty()
    } else {
        concat_groups(gs.drop_last()) + gs.last()
    }
}

/// The total of a group of rolls.
pub open spec fn group_total(g: Seq<(i32, Seq<char>)>) -> int {
    sum_i32(roll_results(g))
}

/// The expression with each term in turn replaced, at its first occurrence,
/// by the total of its group of rolls.
pub open spec fn substituted(
    input: Seq<char>,
    terms: Seq<Seq<char>>,
    groups: Seq<Seq<(i32, Seq<char>)>>,
) -> Seq<char>
    decreases terms.len(),
{
    if terms.len() == 0 || groups.len() == 0 {
        input
    } else {
        replace_first(
            substituted(input, terms.drop_last(), groups.drop_last()),
            terms.last(),
            int_decimal(group_total(groups.last())),
        )
    }
}

/// Putting in the total of one more term changes only the first occurrence
/// of that term: the text before it is kept, the total stands where the term
/// stood, and the text after it is kept (a later occurrence of the same term
/// is left for a later group); a term that does not occur changes nothing.
pub proof fn each_total_replaces_one_occurrence(
    input: Seq<char>,
    terms: Seq<Seq<char>>,
    groups: Seq<Seq<(i32, Seq<char>)>>,
    t: Seq<char>,
    g: Seq<(i32, Seq<char>)>,
)
    requires
        terms.len() == groups.len(),
    ensures
        ({
            let s = substituted(input, terms, groups);
            let d = int_decimal(group_total(g));
            let r = substituted(input, terms.push(t), groups.push(g));
            &&& find_first(s, t) matches Some(i) ==> {
                &&& occurs_at(s, t, i as int)
                &&& forall|j: int| 0 <= j < i ==> !occurs_at(s, t, j)
                &&& r.len() == s.len() - t.len() + d.len()
                &&& r.take(i as int) == s.take(i as int)
                &&& r.subrange(i as int, (i + d.len()) as int) == d
                &&& r.skip((i + d.len()) as int) == s.skip((i + t.len()) as int)
            }
            &&& find_first(s, t) is None ==> r == s
        }),
{
    let s = substituted(input, terms, groups);
    let d = int_decimal(group_total(g));
    assert(terms.push(t).drop_last() == terms);
    assert(groups.push(g).drop_last() == groups);
    assert(terms.push(t).last() == t);
    assert(groups.push(g).last() == g);
    let r = substituted(input, terms.push(t), groups.push(g));
    assert(r == replace_first(s, t, d));
    lemma_find_from_facts(s, t, 0);
    if let Some(i) = find_first(s, t) {
        let r2 = s.take(i as int) + d + s.skip((i + t.len()) as int);
        assert(r == r2);
        assert(r2.take(i as int) == s.take(i as int));
        assert(r2.subrange(i as int, (i + d.len()) as int) == d);
        assert(r2.skip((i + d.len()) as int) == s.skip((i + t.len()) as int));
    }
}

/// Whether `groups` are rolls of the terms (one group per term, each the
/// rolls of that term's dice), `rolls` lists them in order and `replaced` is
/// the expression with the totals put in.
pub open spec fn rolled_terms(
    input: Seq<char>,
    terms: Seq<Seq<char>>,
    groups: Seq<Seq<(i32, Seq<char>)>>,
    replaced: Seq<char>,
    rolls: Seq<(i32, Seq<char>)>,
) -> bool {
    &&& groups.len() == terms.len()
    &&& forall|j: int|
        0 <= j < terms.len() ==> valid_rolls(
            #[trigger] groups[j],
            term_dice(terms[j]).0,
            term_dice(terms[j]).1,
        )
    &&& concat_groups(groups) == rolls
    &&& replaced == substituted(input, terms, groups)
}

/// Whether some grouping of `rolls`, one group per term, makes them rolls of
/// the terms with `replaced` the expression with the totals put in.
pub open spec fn rolled_for(
    input: Seq<char>,
    terms: Seq<Seq<char>>,
    replaced: Seq<char>,
    rolls: Seq<(i32, Seq<char>)>,
) -> bool {
    exists|g: Seq<Seq<(i32, Seq<char>)>>| #[trigger] rolled_terms(input, terms, g, replaced, rolls)
}

/// Whether every term before position `i` can be rolled.
pub open spec fn all_roll_before(terms: Seq<Seq<char>>, i: int) -> bool {
    forall|j: int| 0 <= j < i ==> term_rolls(#[trigger] terms[j])
}

/// A roll expression with its dice rolled: the expression with each term
/// replaced by its total, and every roll made.
pub struct RolledExpression {
    pub replaced: String,
    pub rolls: Vec<Roll>,
}

/// The total of the faces of the rolls, when every running total fits in
/// `i32`.
fn checked_roll_total(rolls: &Vec<Roll>) -> (r: Option<i32>)
    ensures
        match r {
            Some(t) => crate::common::running_sums_fit(roll_results(rolls_view(rolls@))) && t
                == sum_i32(roll_results(rolls_view(rolls@))),
            None => !crate::common::running_sums_fit(roll_results(rolls_view(rolls@))),
        },
{
    let mut results: Vec<i32> = Vec::new();
    let mut i: usize = 0;
    while i < rolls.len()
        invariant
            i <= rolls.len(),
            results@ == roll_results(rolls_view(rolls@)).take(i as int),
        decreases rolls.len() - i,
    {
        results.push(rolls[i].result);
        assert(roll_results(rolls_view(rolls@)).take(i + 1) == roll_results(rolls_view(rolls@)).take(
            i as int,
        ).push(rolls@[i as int].result));
        i = i + 1;
    }
    assert(roll_results(rolls_view(rolls@)).take(rolls.len() as int) == roll_results(
        rolls_view(rolls@),
    ));
    crate::common::checked_sum(&results)
}

/// Whether term `t` stops the rolling with `None`: it cannot be read without
/// overflow, or it names dice whose total can exceed `i32` (count times faces
/// at least `i32::MAX`) and the dice rolled did.
pub open spec fn term_overflows(t: Seq<char>) -> bool {
    ||| !bounded_term(t)
    ||| term_rolls(t) && term_dice(t).0 * term_dice(t).1 >= i32::MAX
}

/// Rolls the terms of an expression in order, putting each term's total in
/// place of its first occurrence.  Stops at the first term that cannot be
/// rolled: with its error, or with `None` where reading it, or adding up its
/// rolls, would overflow.
pub fn roll_all_terms(input: &str, terms: &Vec<String>) -> (r: Option<
    Result<RolledExpression, DiceError>,
>)
    ensures
        r is None ==> exists|i: int|
            0 <= i < terms.len() && all_roll_before(strings_view(terms@), i) && term_overflows(
                #[trigger] strings_view(terms@)[i],
            ),
        r matches Some(Err(e)) ==> exists|i: int|
            0 <= i < terms.len() && all_roll_before(strings_view(terms@), i) && bounded_term(
                #[trigger] strings_view(terms@)[i],
            ) && dice_term(strings_view(terms@)[i]) == Some(Err::<(int, int), DiceError>(e)),
        r matches Some(Ok(x)) ==> all_roll_before(strings_view(terms@), terms.len() as int),
        r matches Some(Ok(x)) ==> rolled_for(
            input@,
            strings_view(terms@),
            x.replaced@,
            rolls_view(x.rolls@),
        ),
{
    let ghost tv = strings_view(terms@);
    let mut replaced: Vec<char> = str_to_chars(input);
    let mut all: Vec<Roll> = Vec::new();
    let ghost mut groups: Seq<Seq<(i32, Seq<char>)>> = Seq::empty();
    let mut i: usize = 0;
    while i < terms.len()
        invariant
            i <= terms.len(),
            tv == strings_view(terms@),
            all_roll_before(tv, i as int),
            groups.len() == i,
            forall|j: int|
                0 <= j < i ==> valid_rolls(
                    #[trigger] groups[j],
                    term_dice(tv[j]).0,
                    term_dice(tv[j]).1,
                ),
            concat_groups(groups) == rolls_view(all@),
            replaced@ == substituted(input@, tv.take(i as int), groups),
        decreases terms.len() - i,
    {
        let term = terms[i].as_str();
        assert(term@ == tv[i as int]);
        if !term_in_bounds(term) {
            return None;
        }
        match parse_dice_term(term) {
            Err(e) => {
                return Some(Err(e));
            },
            Ok((count, faces)) => {
                let mut rolls = generate_randoms(count, faces);
                let ghost g = rolls_view(rolls@);
                let total = match checked_roll_total(&rolls) {
                    Some(t) => t,
                    None => {
                        proof {
                            let res = roll_results(g);
                            assert forall|k: int| 0 <= k < res.len() implies 1 <= #[trigger] res[k]
                                <= faces by {
                                assert(res[k] == g[k].0);
                            }
                            if (count as int) * (faces as int) < i32::MAX {
                                lemma_bounded_totals(res, faces as int);
                            }
                            assert(term_overflows(tv[i as int]));
                        }
                        return None;
                    },
                };
                let t = str_to_chars(term);
                let s = i64_to_chars(total as i64);
                replaced = replace_first_chars(&replaced, &t, &s);
                proof {
                    let old_groups = groups;
                    groups = groups.push(g);
                    assert(groups.drop_last() == old_groups);
                    assert(tv.take(i + 1).drop_last() == tv.take(i as int));
                    assert(tv.take(i + 1).last() == tv[i as int]);
                }
                let ghost before = all@;
                all.append(&mut rolls);
                assert(rolls_view(all@) == rolls_view(before) + g);
                i = i + 1;
            },
        }
    }
    assert(tv.take(terms.len() as int) == tv);
    let x = RolledExpression { replaced: chars_to_string(&replaced), rolls: all };
    assert(rolled_terms(input@, tv, groups, x.replaced@, rolls_view(x.rolls@)));
    Some(Ok(x))
}

/// Finds the terms of a roll expression and rolls them (see `roll_all_terms`).
pub fn roll_expression(input: &str) -> (r: Option<Result<RolledExpression, DiceError>>)
    ensures
        match r {
            None => exists|i: int|
                0 <= i < dice_terms(input@).len() && all_roll_before(dice_terms(input@), i)
                    && term_overflows(#[trigger] dice_terms(input@)[i]),
            Some(Err(e)) => exists|i: int|
                0 <= i < dice_terms(input@).len() && all_roll_before(
                    dice_terms(input@),
                    i,
                ) && bounded_term(#[trigger] dice_terms(input@)[i]) && dice_term(
                    dice_terms(input@)[i],
                ) == Some(Err::<(int, int), DiceError>(e)),
            Some(Ok(x)) => all_roll_before(
                dice_terms(input@),
                dice_terms(input@).len() as int,
            ) && rolled_for(
                input@,
                dice_terms(input@),
                x.replaced@,
                rolls_view(x.rolls@),
            ),
        },
{
    let terms = find_dice_terms(input);
    proof {
        assert(strings_view(terms@).len() == terms@.len());
    }
    roll_all_terms(input, &terms)
}

} // verus!

verus! {

// ---------------------------------------------------------------------------
// Describing the rolls
// ---------------------------------------------------------------------------

/// Character vectors as sequences.
pub open spec fn chars_view(v: Seq<Vec<char>>) -> Seq<Seq<char>> {
    v.map_values(|x: Vec<char>| x@)
}

/// The distinct terms of the rolls, in the order they first appear.
pub open spec fn roll_keys(rs: Seq<(i32, Seq<char>)>) -> Seq<Seq<char>>
    decreases rs.len(),
{
    if rs.len() == 0 {
        Seq::empty()
    } else {
        let k = roll_keys(rs.drop_last());
        if k.contains(rs.last().1) {
            k
        } else {
            k.push(rs.last().1)
        }
    }
}

/// The faces rolled for term `e`, in order.
pub open spec fn results_for(rs: Seq<(i32, Seq<char>)>, e: Seq<char>) -> Seq<i32>
    decreases rs.len(),
{
    if rs.len() == 0 {
        Seq::empty()
    } else if rs.last().1 == e {
        results_for(rs.drop_last(), e).push(rs.last().0)
    } else {
        results_for(rs.drop_last(), e)
    }
}

/// A list of integers as `Debug` writes it: `[1, 2, 3]`.
pub open spec fn debug_list(ns: Seq<i32>) -> Seq<char> {
    "["@ + join_with(crate::common::decimals_i32(ns), ", "@) + "]"@
}

/// The line describing the rolls for term `e`: `- e: [faces] (total)`.
pub open spec fn roll_line(e: Seq<char>, rs: Seq<(i32, Seq<char>)>) -> Seq<char> {
    "- "@ + e + ": "@ + debug_list(results_for(rs, e)) + " ("@ + int_decimal(
        sum_i32(results_for(rs, e)),
    ) + ")"@
}

/// The lines for the given terms.
pub open spec fn roll_lines(keys: Seq<Seq<char>>, rs: Seq<(i32, Seq<char>)>) -> Seq<Seq<char>> {
    keys.map_values(|e: Seq<char>| roll_line(e, rs))
}

/// The description of the rolls: one line per term, in order of first
/// appearance, joined with newlines.
pub open spec fn rolls_summary(rs: Seq<(i32, Seq<char>)>) -> Seq<char> {
    join_with(roll_lines(roll_keys(rs), rs), "\n"@)
}

/// Whether the running totals of every term's faces fit in `i32`.
pub open spec fn totals_fit(rs: Seq<(i32, Seq<char>)>) -> bool {
    forall|j: int|
        0 <= j < roll_keys(rs).len() ==> running_sums_fit(
            results_for(rs, #[trigger] roll_keys(rs)[j]),
        )
}

fn roll_key_list(rolls: &Vec<Roll>) -> (keys: Vec<Vec<char>>)
    ensures
        chars_view(keys@) == roll_keys(rolls_view(rolls@)),
{
    let ghost rv = rolls_view(rolls@);
    let mut keys: Vec<Vec<char>> = Vec::new();
    let mut i: usize = 0;
    while i < rolls.len()
        invariant
            i <= rolls.len(),
            rv == rolls_view(rolls@),
            chars_view(keys@) == roll_keys(rv.take(i as int)),
        decreases rolls.len() - i,
    {
        let e = str_to_chars(rolls[i].expression.as_str());
        let ghost kv = chars_view(keys@);
        let mut found = false;
        let mut m: usize = 0;
        while m < keys.len()
            invariant
                m <= keys.len(),
                kv == chars_view(keys@),
                found == exists|j: int| 0 <= j < m && kv[j] == e@,
            decreases keys.len() - m,
        {
            if crate::text::chars_eq(&keys[m], &e) {
                assert(kv[m as int] == e@);
                found = true;
            }
            m = m + 1;
        }
        assert(rv.take(i + 1).drop_last() == rv.take(i as int));
        assert(rv.take(i + 1).last() == rv[i as int]);
        assert(found == kv.contains(e@));
        if !found {
            keys.push(e);
            assert(chars_view(keys@) == kv.push(e@));
        }
        i = i + 1;
    }
    assert(rv.take(rolls.len() as int) == rv);
    keys
}

fn key_results(rolls: &Vec<Roll>, key: &Vec<char>) -> (r: Vec<i32>)
    ensures
        r@ == results_for(rolls_view(rolls@), key@),
{
    let ghost rv = rolls_view(rolls@);
    let mut out: Vec<i32> = Vec::new();
    let mut i: usize = 0;
    while i < rolls.len()
        invariant
            i <= rolls.len(),
            rv == rolls_view(rolls@),
            out@ == results_for(rv.take(i as int), key@),
        decreases rolls.len() - i,
    {
        assert(rv.take(i + 1).drop_last() == rv.take(i as int));
        assert(rv.take(i + 1).last() == rv[i as int]);
        let e = str_to_chars(rolls[i].expression.as_str());
        if crate::text::chars_eq(&e, key) {
            out.push(rolls[i].result);
        }
        i = i + 1;
    }
    assert(rv.take(rolls.len() as int) == rv);
    out
}

/// Describes the rolls, one line per term (in the order the terms first
/// appear): the term, its faces as a list, and their total.  `None` when a
/// term's total does not fit in `i32`.
pub fn format_rolls(rolls: &Vec<Roll>) -> (r: Option<String>)
    ensures
        match r {
            Some(s) => totals_fit(rolls_view(rolls@)) && s@ == rolls_summary(rolls_view(rolls@)),
            None => !totals_fit(rolls_view(rolls@)),
        },
{
    let ghost rv = rolls_view(rolls@);
    let keys = roll_key_list(rolls);
    let ghost kv = chars_view(keys@);
    let mut out = String::new();
    let mut m: usize = 0;
    while m < keys.len()
        invariant
            m <= keys.len(),
            rv == rolls_view(rolls@),
            kv == chars_view(keys@),
            kv == roll_keys(rv),
            out@ == join_with(roll_lines(kv.take(m as int), rv), "\n"@),
            forall|j: int| 0 <= j < m ==> running_sums_fit(results_for(rv, #[trigger] kv[j])),
        decreases keys.len() - m,
    {
        let res = key_results(rolls, &keys[m]);
        let total = match crate::common::checked_sum(&res) {
            None => {
                assert(!running_sums_fit(results_for(rv, kv[m as int])));
                return None;
            },
            Some(t) => t,
        };
        let mut line = String::new();
        push_str(&mut line, "- ");
        push_chars(&mut line, &keys[m]);
        push_str(&mut line, ": [");
        let joined = crate::common::join_to_string(res.as_slice(), ", ");
        push_str(&mut line, joined.as_str());
        push_str(&mut line, "] (");
        let t = i64_to_chars(total as i64);
        push_chars(&mut line, &t);
        push_str(&mut line, ")");
        proof {
            reveal_strlit("- ");
            reveal_strlit(": [");
            reveal_strlit("] (");
            reveal_strlit(")");
            reveal_strlit("[");
            reveal_strlit("]");
            reveal_strlit(": ");
            reveal_strlit(" (");
            assert(line@ == roll_line(kv[m as int], rv));
            assert(roll_lines(kv.take(m + 1), rv) == roll_lines(kv.take(m as int), rv).push(
                roll_line(kv[m as int], rv),
            ));
            assert(roll_lines(kv.take(m + 1), rv).drop_last() == roll_lines(kv.take(m as int), rv));
        }
        if m > 0 {
            push_str(&mut out, "\n");
        }
        push_str(&mut out, line.as_str());
        m = m + 1;
    }
    assert(kv.take(keys.len() as int) == kv);
    Some(out)
}

/// The message for an evaluated roll: the expression, the description of its
/// rolls and the result.
pub fn roll_message(input: &str, rolls_message: &str, result_text: &str) -> (r: String)
    ensures
        r@ == input@ + " \n"@ + rolls_message@ + "\n\n Result: __"@ + result_text@ + "__"@,
{
    let mut s = String::new();
    push_str(&mut s, input);
    push_str(&mut s, " \n");
    push_str(&mut s, rolls_message);
    push_str(&mut s, "\n\n Result: __");
    push_str(&mut s, result_text);
    push_str(&mut s, "__");
    s
}

/// The total of a roll of `count` dice with `faces` faces lies between
/// `count` and `count * faces`.
pub proof fn rolled_total_bounds(rolls: Seq<(i32, Seq<char>)>, count: int, faces: int)
    requires
        valid_rolls(rolls, count, faces),
    ensures
        count <= sum_i32(roll_results(rolls)) <= count * faces,
{
    let res = roll_results(rolls);
    assert forall|k: int| 0 <= k < res.len() implies 1 <= #[trigger] res[k] <= faces by {
        assert(res[k] == rolls[k].0);
    }
    lemma_total_range(res, faces, res.len() as int);
    assert(res.take(res.len() as int) == res);
}

proof fn lemma_total_range(s: Seq<i32>, faces: int, k: int)
    requires
        0 <= k <= s.len(),
        forall|i: int| 0 <= i < s.len() ==> 1 <= #[trigger] s[i] <= faces,
    ensures
        k <= sum_i32(s.take(k)) <= k * faces,
    decreases k,
{
    if k > 0 {
        lemma_total_range(s, faces, k - 1);
        assert(s.take(k).drop_last() == s.take(k - 1));
        assert(s.take(k).last() == s[k - 1]);
        assert(1 <= s[k - 1] <= faces);
        assert(k * faces == (k - 1) * faces + faces) by (nonlinear_arith);
        assert(sum_i32(s.take(k)) == sum_i32(s.take(k - 1)) + s[k - 1]);
    } else {
        assert(k * faces == 0) by (nonlinear_arith)
            requires
                k == 0,
        ;
    }
}

/// Each term appears once in the description of the rolls.
pub proof fn roll_keys_distinct(rs: Seq<(i32, Seq<char>)>)
    ensures
        roll_keys(rs).no_duplicates(),
    decreases rs.len(),
{
    if rs.len() > 0 {
        roll_keys_distinct(rs.drop_last());
        let k = roll_keys(rs.drop_last());
        if !k.contains(rs.last().1) {
            assert forall|i: int, j: int|
                0 <= i < j < k.push(rs.last().1).len() implies k.push(rs.last().1)[i] != k.push(
                rs.last().1,
            )[j] by {
                if j == k.len() {
                    assert(k[i] == k.push(rs.last().1)[i]);
                }
            }
        }
    }
}

/// The total of the faces rolled for each of the given terms, added up.
pub open spec fn keys_total(keys: Seq<Seq<char>>, rs: Seq<(i32, Seq<char>)>) -> int
    decreases keys.len(),
{
    if keys.len() == 0 {
        0
    } else {
        keys_total(keys.drop_last(), rs) + sum_i32(results_for(rs, keys.last()))
    }
}

proof fn lemma_results_for_absent(rs: Seq<(i32, Seq<char>)>, e: Seq<char>)
    requires
        !roll_keys(rs).contains(e),
    ensures
        results_for(rs, e) == Seq::<i32>::empty(),
    decreases rs.len(),
{
    if rs.len() > 0 {
        let k = roll_keys(rs.drop_last());
        if k.contains(rs.last().1) {
            lemma_results_for_absent(rs.drop_last(), e);
            assert(rs.last().1 != e);
        } else {
            assert(k.push(rs.last().1)[k.len() as int] == rs.last().1);
            assert(rs.last().1 != e);
            assert forall|i: int| 0 <= i < k.len() implies k[i] != e by {
                assert(k.push(rs.last().1)[i] == k[i]);
            }
            lemma_results_for_absent(rs.drop_last(), e);
        }
    }
}

proof fn lemma_keys_total_push(keys: Seq<Seq<char>>, rs: Seq<(i32, Seq<char>)>, v: i32, e: Seq<char>)
    requires
        keys.no_duplicates(),
    ensures
        keys_total(keys, rs.push((v, e))) == keys_total(keys, rs) + if keys.contains(e) {
            v as int
        } else {
            0
        },
    decreases keys.len(),
{
    let rs2 = rs.push((v, e));
    assert(rs2.drop_last() == rs);
    if keys.len() > 0 {
        let init = keys.drop_last();
        assert(init.no_duplicates()) by {
            assert forall|i: int, j: int| 0 <= i < j < init.len() implies init[i] != init[j] by {
                assert(init[i] == keys[i] && init[j] == keys[j]);
            }
        }
        lemma_keys_total_push(init, rs, v, e);
        let last = keys.last();
        if last == e {
            assert(sum_i32(results_for(rs2, last)) == sum_i32(results_for(rs, last)) + v) by {
                assert(results_for(rs2, last) == results_for(rs, last).push(v));
                assert(results_for(rs, last).push(v).drop_last() == results_for(rs, last));
            }
            assert(!init.contains(e)) by {
                assert forall|i: int| 0 <= i < init.len() implies init[i] != e by {
                    assert(keys[i] == init[i]);
                    assert(keys[keys.len() - 1] == e);
                }
            }
            assert(keys.contains(e)) by {
                assert(keys[keys.len() - 1] == e);
            }
        } else {
            assert(results_for(rs2, last) == results_for(rs, last));
            assert(keys.contains(e) == init.contains(e)) by {
                if keys.contains(e) {
                    let i = choose|i: int| 0 <= i < keys.len() && keys[i] == e;
                    assert(i < keys.len() - 1);
                    assert(init[i] == e);
                }
                if init.contains(e) {
                    let i = choose|i: int| 0 <= i < init.len() && init[i] == e;
                    assert(keys[i] == e);
                }
            }
        }
    }
}

/// The totals shown for the terms of a set of rolls add up to the total of
/// all the rolls: every roll is described under exactly one term.
pub proof fn term_totals_add_up(rs: Seq<(i32, Seq<char>)>)
    ensures
        keys_total(roll_keys(rs), rs) == sum_i32(roll_results(rs)),
    decreases rs.len(),
{
    if rs.len() > 0 {
        let init = rs.drop_last();
        let (v, e) = rs.last();
        assert(rs == init.push((v, e)));
        term_totals_add_up(init);
        roll_keys_distinct(init);
        let k = roll_keys(init);
        lemma_keys_total_push(k, init, v, e);
        assert(rs.drop_last() == init);
        assert(roll_results(rs) == roll_results(init).push(v));
        assert(roll_results(init).push(v).drop_last() == roll_results(init));
        assert(sum_i32(roll_results(rs)) == sum_i32(roll_results(init)) + v);
        if k.contains(e) {
            assert(roll_keys(rs) == k);
        } else {
            lemma_results_for_absent(init, e);
            assert(roll_keys(rs) == k.push(e));
            assert(k.push(e).drop_last() == k);
            assert(k.push(e).last() == e);
            assert(results_for(rs, e) == Seq::<i32>::empty().push(v));
            assert(Seq::<i32>::empty().push(v).drop_last() == Seq::<i32>::empty());
            assert(sum_i32(Seq::<i32>::empty()) == 0);
            assert(Seq::<i32>::empty().push(v).last() == v);
            assert(sum_i32(results_for(rs, e)) == v);
            assert(keys_total(k.push(e), rs) == keys_total(k, rs) + sum_i32(results_for(rs, e)));
        }
    }
}

} // verus!
