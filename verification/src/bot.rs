//! The bot's own small talk: answering pings and routing button presses.

use vstd::prelude::*;

use crate::dice::random_in_range;
use crate::text::{i64_to_chars, int_decimal, push_chars, push_str, str_eq};

verus! {

broadcast use vstd::string::group_string_axioms;

/// The quotes the bot answers a ping with.
pub open spec fn ping_quote_table() -> Seq<Seq<char>> {
    seq![
        "Operator? Ordis wonders... what are you thinking about?"@,
        "Operator, I've run diagnostic regressions. All systems nominal. You don't need to thank me."@,
        "Ordis is hap - angry. Hmm, I may require maintenance after all."@,
        "Operator, are you enjoying the view?"@,
        "Do you remember the Old War, Operator? Ordis seems to have... misplaced those memories."@,
        "Operator, the system needs you. Will you begin another mission?"@,
        "I've been thinking, Operator... I thought you'd want to know."@,
        "Operator! Did you hear that? It said-- Cosmic background radiation is a riot!"@,
        "Operator, were you visualizing a bloody battle? -Me too!"@,
        "Stand by while I analyze the intelligence profile of the Grineer. Error, not a number! Did the Operator enjoy this witticism?"@,
        "Everything in Ordis, Operator? Is that a pun?! Hmm.... I will attempt to bypass this fault."@,
        "Ordis has been counting stars, Operator. All accounted for."@
    ]
}

/// The quotes the bot answers a ping with.
pub fn ping_quotes() -> (r: Vec<&'static str>)
    ensures
        r@.map_values(|q: &str| q@) == ping_quote_table(),
{
    let mut v: Vec<&'static str> = Vec::new();
    v.push("Operator? Ordis wonders... what are you thinking about?");
    v.push("Operator, I've run diagnostic regressions. All systems nominal. You don't need to thank me.");
    v.push("Ordis is hap - angry. Hmm, I may require maintenance after all.");
    v.push("Operator, are you enjoying the view?");
    v.push("Do you remember the Old War, Operator? Ordis seems to have... misplaced those memories.");
    v.push("Operator, the system needs you. Will you begin another mission?");
    v.push("I've been thinking, Operator... I thought you'd want to know.");
    v.push("Operator! Did you hear that? It said-- Cosmic background radiation is a riot!");
    v.push("Operator, were you visualizing a bloody battle? -Me too!");
    v.push("Stand by while I analyze the intelligence profile of the Grineer. Error, not a number! Did the Operator enjoy this witticism?");
    v.push("Everything in Ordis, Operator? Is that a pun?! Hmm.... I will attempt to bypass this fault.");
    v.push("Ordis has been counting stars, Operator. All accounted for.");
    assert(v@.map_values(|q: &str| q@) =~= ping_quote_table());
    v
}

/// A quote picked at random with the `rand` crate, at a position from 1 up
/// to the last: the first quote is never picked.
pub fn get_random(quotes: &Vec<&str>) -> (r: String)
    requires
        2 <= quotes@.len() <= i32::MAX,
    ensures
        exists|i: int| 1 <= i < quotes@.len() && r@ == quotes@[i]@,
{
    let count = quotes.len() as i32;
    let index = random_in_range(1, count) as usize;
    let mut s = String::new();
    push_str(&mut s, quotes[index]);
    s
}

/// How many times a user has pinged, counting this ping.
pub fn next_ping_count(count: Option<i32>) -> (r: i32)
    requires
        count matches Some(c) ==> c < i32::MAX,
    ensures
        r == match count {
            Some(c) => c + 1,
            None => 1,
        },
{
    match count {
        Some(c) => c + 1,
        None => 1,
    }
}

/// The answer to a ping: the quote and the user's ping count.
pub fn ping_reply(quote: &str, count: i32) -> (r: String)
    ensures
        r@ == quote@ + " "@ + int_decimal(count as int),
{
    let mut s = String::new();
    push_str(&mut s, quote);
    push_str(&mut s, " ");
    let d = i64_to_chars(count as i64);
    push_chars(&mut s, &d);
    s
}

/// The answer to a message in a channel: `Pong!` to `!ping` from a person,
/// nothing otherwise.
pub fn message_answer(author_is_bot: bool, content: &str) -> (r: Option<&'static str>)
    ensures
        r == (if !author_is_bot && content@ == "!ping"@ {
            Some("Pong!")
        } else {
            None::<&'static str>
        }),
{
    if author_is_bot {
        return None;
    }
    if str_eq(content, "!ping") {
        Some("Pong!")
    } else {
        None
    }
}

/// What a pressed component carries: for a menu, the first value chosen (if
/// any); for a button, its id.
pub fn component_payload(menu_values: Option<&Vec<String>>, custom_id: &str) -> (r: Option<String>)
    ensures
        match menu_values {
            Some(vs) => match r {
                Some(p) => vs@.len() > 0 && p@ == vs@[0]@,
                None => vs@.len() == 0,
            },
            None => r matches Some(p) && p@ == custom_id@,
        },
{
    match menu_values {
        Some(vs) => {
            if vs.len() > 0 {
                let mut p = String::new();
                push_str(&mut p, vs[0].as_str());
                Some(p)
            } else {
                None
            }
        },
        None => {
            let mut p = String::new();
            push_str(&mut p, custom_id);
            Some(p)
        },
    }
}

/// The answer to a calculation: the formula and its value.
pub fn calc_reply(formula: &str, value_text: &str) -> (r: String)
    ensures
        r@ == formula@ + " = "@ + value_text@,
{
    let mut s = String::new();
    push_str(&mut s, formula);
    push_str(&mut s, " = ");
    push_str(&mut s, value_text);
    s
}

} // verus!
