//! The bot's language-model features on the chat server: questions, drawings,
//! translations and replies to conversations.

pub mod reply_handler;
pub mod translator;

use vstd::prelude::*;

use crate::text::push_str;

verus! {

broadcast use vstd::string::group_string_axioms;

/// Handles the replies and mentions that start a model's answer.
pub struct MessageReplyHandler;

/// The answer given instead of a model's when the text is refused; the
/// question and conversation forms end without a period, the drawing and
/// mention forms with one.
pub fn refusal_text(with_period: bool) -> (r: String)
    ensures
        with_period ==> r@ == "Sorry, I'm afraid I can't respond to that."@,
        !with_period ==> r@ == "Sorry, I'm afraid I can't respond to that"@,
{
    let mut s = String::new();
    if with_period {
        push_str(&mut s, "Sorry, I'm afraid I can't respond to that.");
    } else {
        push_str(&mut s, "Sorry, I'm afraid I can't respond to that");
    }
    s
}

} // verus!
