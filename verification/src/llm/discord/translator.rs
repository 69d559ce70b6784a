//! Translations by a language model.

use vstd::prelude::*;

use crate::llm::{message_view, messages_view, Message, Role};
use crate::text::push_str;

verus! {

broadcast use vstd::string::group_string_axioms;

/// The instruction that asks a model to render text of `lang1` in `lang2`.
pub open spec fn translator_prompt(lang1: Seq<char>, lang2: Seq<char>) -> Seq<char> {
    "Act as a "@ + lang1 + "-"@ + lang2
        + " translator. Respond with only an accurate translation and nothing else. Please translate to natural speech in the given language"@
}

/// The conversation that asks for a translation of `message`.
pub fn translator_messages(message: &str, lang1: &str, lang2: &str) -> (r: Vec<Message>)
    ensures
        messages_view(r@) == seq![
            (Role::system, translator_prompt(lang1@, lang2@), None::<Seq<char>>),
            (Role::user, message@, None::<Seq<char>>),
        ],
{
    let mut prompt = String::new();
    push_str(&mut prompt, "Act as a ");
    push_str(&mut prompt, lang1);
    push_str(&mut prompt, "-");
    push_str(&mut prompt, lang2);
    push_str(
        &mut prompt,
        " translator. Respond with only an accurate translation and nothing else. Please translate to natural speech in the given language",
    );
    let mut text = String::new();
    push_str(&mut text, message);
    let mut v: Vec<Message> = Vec::new();
    v.push(Message { role: Role::system, content: prompt, name: None });
    v.push(Message { role: Role::user, content: text, name: None });
    assert(messages_view(v@) =~= seq![
        (Role::system, translator_prompt(lang1@, lang2@), None::<Seq<char>>),
        (Role::user, message@, None::<Seq<char>>),
    ]);
    v
}

/// The text shown with a translation.
pub fn translation_text(message: &str, translation: &str) -> (r: String)
    ensures
        r@ == "translation of: ``"@ + message@ + "``\n\n"@ + translation@,
{
    let mut s = String::new();
    push_str(&mut s, "translation of: ``");
    push_str(&mut s, message);
    push_str(&mut s, "``\n\n");
    push_str(&mut s, translation);
    s
}

} // verus!
