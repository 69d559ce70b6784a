//! Russian roulette: a six-chamber revolver per channel; each pull of the
//! trigger either clicks or fires, and firing reloads it.

use vstd::prelude::*;

use crate::dice::random_in_range;
use crate::text::{int_decimal, push_chars, push_str, i64_to_chars};

verus! {

broadcast use vstd::string::group_string_axioms;

/// What a pull of the trigger did.
#[derive(Debug, Clone, Copy, PartialEq, Eq, Structural)]
pub enum Pull {
    /// The chamber was empty; this many bullets are left to try.
    Click(i32),
    /// The gun fired; it is reloaded.
    Bang,
}

/// Chambers left to try when `count` pulls have clicked.
pub open spec fn bullets_left(count: int) -> int {
    6 - count
}

/// A pull, given the number drawn for it (from `1..bullets_left`; no number is
/// drawn when one chamber is left): it clicks unless the number is the last
/// of the range, and clicking moves on by one chamber while firing starts
/// over.  The result is the new count and what happened.
pub open spec fn pull_result(count: int, roll: int) -> (int, Pull) {
    let left = bullets_left(count);
    if left > 1 && roll != left - 1 {
        (count + 1, Pull::Click((left - 1) as i32))
    } else {
        (0, Pull::Bang)
    }
}

/// A pull with the number drawn for it (see `pull_result`).
pub fn pull_with(count: i32, roll: i32) -> (r: (i32, Pull))
    requires
        0 <= count <= 4,
    ensures
        (r.0 as int, r.1) == pull_result(count as int, roll as int),
{
    let left = 6 - count;
    if left > 1 && roll != left - 1 {
        (count + 1, Pull::Click(left - 1))
    } else {
        (0, Pull::Bang)
    }
}

/// Pulls the trigger: draws a number from `1..bullets_left` with the `rand`
/// crate when more than one chamber is left, and applies `pull_with`.
pub fn pull_trigger(count: i32) -> (r: (i32, Pull))
    requires
        0 <= count <= 4,
    ensures
        exists|roll: int|
            1 <= roll < bullets_left(count as int) && (r.0 as int, r.1) == pull_result(
                count as int,
                roll,
            ),
{
    let left = 6 - count;
    let roll = random_in_range(1, left);
    let r = pull_with(count, roll);
    assert(1 <= roll < bullets_left(count as int));
    r
}

/// Between pulls the count of clicks stays between 0 and 4: a revolver never
/// reaches its sixth chamber without firing.
pub proof fn count_stays_bounded(count: int, roll: int)
    requires
        0 <= count <= 4,
        1 <= roll < bullets_left(count),
    ensures
        0 <= pull_result(count, roll).0 <= 4,
{
}

/// After four clicks only one number can be drawn, and it fires: the fifth
/// pull after four clicks always fires.
pub proof fn fifth_pull_fires(roll: int)
    requires
        1 <= roll < bullets_left(4),
    ensures
        pull_result(4, roll) == (0int, Pull::Bang),
{
}

/// The chance structure of a pull: with `left` chambers to try, exactly one
/// of the `left - 1` numbers that can be drawn fires.
pub proof fn one_number_fires(count: int, roll: int)
    requires
        0 <= count <= 4,
        1 <= roll < bullets_left(count),
    ensures
        (pull_result(count, roll).1 == Pull::Bang) <==> roll == bullets_left(count) - 1,
{
}

/// The results of successive pulls in one channel, starting from `count`
/// clicks, with the numbers drawn for them: each the new count and what the
/// pull did.
pub open spec fn run_pulls(count: int, rolls: Seq<int>) -> Seq<(int, Pull)>
    decreases rolls.len(),
{
    if rolls.len() == 0 {
        Seq::empty()
    } else {
        let first = pull_result(count, rolls[0]);
        seq![first] + run_pulls(first.0, rolls.drop_first())
    }
}

/// Whether each number of `rolls` can be drawn for its pull (from
/// `1..bullets_left` at the count that pull starts from).
pub open spec fn rolls_drawable(count: int, rolls: Seq<int>) -> bool
    decreases rolls.len(),
{
    rolls.len() == 0 || (1 <= rolls[0] < bullets_left(count) && rolls_drawable(
        pull_result(count, rolls[0]).0,
        rolls.drop_first(),
    ))
}

proof fn lemma_run_pulls(count: int, rolls: Seq<int>)
    requires
        0 <= count <= 4,
        rolls_drawable(count, rolls),
    ensures
        run_pulls(count, rolls).len() == rolls.len(),
        forall|i: int|
            0 <= i < rolls.len() ==> {
                let (c, p) = #[trigger] run_pulls(count, rolls)[i];
                &&& 0 <= c <= 4
                &&& (p matches Pull::Click(b) ==> b == 6 - c)
                &&& (p == Pull::Bang ==> c == 0)
            },
        rolls.len() >= 5 - count ==> exists|i: int|
            0 <= i < 5 - count && (#[trigger] run_pulls(count, rolls)[i]).1 == Pull::Bang,
    decreases rolls.len(),
{
    if rolls.len() > 0 {
        let first = pull_result(count, rolls[0]);
        let rest = rolls.drop_first();
        lemma_run_pulls(first.0, rest);
        let run = run_pulls(count, rolls);
        assert(run == seq![first] + run_pulls(first.0, rest));
        assert forall|i: int| 0 <= i < rolls.len() implies {
            let (c, p) = #[trigger] run[i];
            &&& 0 <= c <= 4
            &&& (p matches Pull::Click(b) ==> b == 6 - c)
            &&& (p == Pull::Bang ==> c == 0)
        } by {
            if i > 0 {
                assert(run[i] == run_pulls(first.0, rest)[i - 1]);
            }
        }
        if rolls.len() >= 5 - count {
            if first.1 == Pull::Bang {
                assert(run[0].1 == Pull::Bang);
            } else {
                let i = choose|i: int|
                    0 <= i < 5 - first.0 && (#[trigger] run_pulls(first.0, rest)[i]).1
                        == Pull::Bang;
                assert(run[i + 1] == run_pulls(first.0, rest)[i]);
            }
        }
    }
}

/// In one channel the count of clicks stays between 0 and 4, a click reports
/// six chambers less the new count as bullets left, a shot starts the count
/// over, and of any six pulls in a row at least one fires (in fact one of the
/// first `5 - count`).
pub proof fn six_pulls_fire(count: int, rolls: Seq<int>)
    requires
        0 <= count <= 4,
        rolls.len() == 6,
        rolls_drawable(count, rolls),
    ensures
        forall|i: int|
            0 <= i < 6 ==> {
                let (c, p) = #[trigger] run_pulls(count, rolls)[i];
                &&& 0 <= c <= 4
                &&& (p matches Pull::Click(b) ==> b == 6 - c)
                &&& (p == Pull::Bang ==> c == 0)
            },
        exists|i: int| 0 <= i < 6 && (#[trigger] run_pulls(count, rolls)[i]).1 == Pull::Bang,
{
    lemma_run_pulls(count, rolls);
    let i = choose|i: int|
        0 <= i < 5 - count && (#[trigger] run_pulls(count, rolls)[i]).1 == Pull::Bang;
    assert(run_pulls(count, rolls)[i].1 == Pull::Bang);
}

/// The message for a pull: the click with the bullets left, or the shot.
pub fn pull_message(p: Pull) -> (r: String)
    ensures
        r@ == match p {
            Pull::Click(left) => "*click*... ("@ + int_decimal(left as int)
                + " bullets left in the chamber)"@,
            Pull::Bang => "Bang!"@,
        },
{
    let mut s = String::new();
    match p {
        Pull::Click(left) => {
            push_str(&mut s, "*click*... (");
            let d = i64_to_chars(left as i64);
            push_chars(&mut s, &d);
            push_str(&mut s, " bullets left in the chamber)");
        },
        Pull::Bang => push_str(&mut s, "Bang!"),
    }
    s
}

/// How long the loser is silenced, in seconds.
pub const TIMEOUT_SECONDS: i64 = 300;

} // verus!
