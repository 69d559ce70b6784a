//! Reading character and spell sheets with a language model.

use vstd::prelude::*;

use crate::llm::{messages_view, Message, Role};
use crate::text::push_str;

verus! {

broadcast use vstd::string::group_string_axioms;

/// Why a sheet could not be read.
#[derive(Debug, Clone, Copy, PartialEq, Eq, Structural)]
pub enum StatPullerError {
    Generic,
    NoCharacterSheet,
    SpellNotFound,
}

impl StatPullerError {
    /// The message shown for the error: its name.
    pub fn message(&self) -> (r: String)
        ensures
            r@ == match self {
                StatPullerError::Generic => "Generic"@,
                StatPullerError::NoCharacterSheet => "NoCharacterSheet"@,
                StatPullerError::SpellNotFound => "SpellNotFound"@,
            },
    {
        let mut s = String::new();
        match self {
            StatPullerError::Generic => push_str(&mut s, "Generic"),
            StatPullerError::NoCharacterSheet => push_str(&mut s, "NoCharacterSheet"),
            StatPullerError::SpellNotFound => push_str(&mut s, "SpellNotFound"),
        }
        s
    }
}

/// The conversation that asks a model to read a sheet: the sheet kind's
/// instructions, then the sheet's text.
pub fn sheet_messages(prompt: &str, message: &str) -> (r: Vec<Message>)
    ensures
        messages_view(r@) == seq![
            (Role::system, prompt@, None::<Seq<char>>),
            (Role::user, message@, None::<Seq<char>>),
        ],
{
    let mut p = String::new();
    push_str(&mut p, prompt);
    let mut m = String::new();
    push_str(&mut m, message);
    let mut v: Vec<Message> = Vec::new();
    v.push(Message { role: Role::system, content: p, name: None });
    v.push(Message { role: Role::user, content: m, name: None });
    assert(messages_view(v@) =~= seq![
        (Role::system, prompt@, None::<Seq<char>>),
        (Role::user, message@, None::<Seq<char>>),
    ]);
    v
}

} // verus!
