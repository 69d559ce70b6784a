//! Answering replies to the bot: which messages get an answer, and the
//! conversation handed to the model.

use vstd::prelude::*;

use crate::llm::{messages_view, Message, Role};
use crate::text::push_str;

verus! {

broadcast use vstd::string::group_string_axioms;

/// Answers messages that reply to the bot or mention it.
pub struct ReplyHandler;

/// What the bot does with a message it sees.
#[derive(Debug, Clone, Copy, PartialEq, Eq, Structural)]
pub enum ReplyRoute {
    /// Not answered.
    Ignore,
    /// A reply to one of the bot's messages: the conversation is continued.
    Conversation,
    /// A message that mentions the bot: it is answered on its own.
    Mention,
}

/// A message of the reply chain, as the handler reads it.
pub struct ChainMessage {
    pub author_name: String,
    pub content: String,
    /// Whether the bot wrote it.
    pub from_bot: bool,
    /// Whether moderation refused its text.
    pub blocked: bool,
}

/// A chain message as plain values.
pub open spec fn chain_view(c: ChainMessage) -> (Seq<char>, Seq<char>, bool, bool) {
    (c.author_name@, c.content@, c.from_bot, c.blocked)
}

/// How a message of the chain enters the conversation: its text with its
/// author, or a note that it could not be read when moderation refused it.
pub open spec fn chain_entry(c: (Seq<char>, Seq<char>, bool, bool)) -> (
    Role,
    Seq<char>,
    Option<Seq<char>>,
) {
    if !c.3 {
        (
            if c.2 {
                Role::assistant
            } else {
                Role::user
            },
            "The following message was sent by the user "@ + c.0 + ". Message: "@ + c.1,
            Some(c.0),
        )
    } else {
        (
            Role::user,
            c.0 + ": BZZZZT (it seems static has prevented you from reading this message)"@,
            Some(c.0),
        )
    }
}

/// The conversation for a reply: the personality, the chain from its oldest
/// message (the chain is given newest first), the bot's message that was
/// replied to, and the reply.
pub open spec fn conversation(
    personality: Seq<char>,
    chain: Seq<(Seq<char>, Seq<char>, bool, bool)>,
    original: Seq<char>,
    reply: Seq<char>,
) -> Seq<(Role, Seq<char>, Option<Seq<char>>)> {
    seq![(Role::system, personality, None::<Seq<char>>)] + chain.reverse().map_values(
        |c: (Seq<char>, Seq<char>, bool, bool)| chain_entry(c),
    ) + seq![(Role::assistant, original, None::<Seq<char>>), (Role::assistant, reply, None::<Seq<char>>)]
}

impl ReplyHandler {
    /// The answer when moderation refused the text: the refusal (the mention
    /// form ends with a period, the conversation form without), or `None`
    /// when the model is to be asked.
    pub fn refused_answer(refused: bool, mention: bool) -> (r: Option<String>)
        ensures
            !refused ==> r is None,
            refused && mention ==> (r matches Some(s) && s@
                == "Sorry, I'm afraid I can't respond to that."@),
            refused && !mention ==> (r matches Some(s) && s@
                == "Sorry, I'm afraid I can't respond to that"@),
    {
        if refused {
            Some(crate::llm::discord::refusal_text(mention))
        } else {
            None
        }
    }

    /// Which messages get an answer: none written by a bot; a reply when the
    /// message it replies to is the bot's (and no other reply); otherwise a
    /// message that mentions the bot.
    pub fn route(
        author_is_bot: bool,
        referenced_author_is_bot: Option<bool>,
        mentions_bot: bool,
    ) -> (r: ReplyRoute)
        ensures
            r == (if author_is_bot {
                ReplyRoute::Ignore
            } else {
                match referenced_author_is_bot {
                    Some(true) => ReplyRoute::Conversation,
                    Some(false) => ReplyRoute::Ignore,
                    None => if mentions_bot {
                        ReplyRoute::Mention
                    } else {
                        ReplyRoute::Ignore
                    },
                }
            }),
    {
        if author_is_bot {
            return ReplyRoute::Ignore;
        }
        match referenced_author_is_bot {
            Some(true) => ReplyRoute::Conversation,
            Some(false) => ReplyRoute::Ignore,
            None => if mentions_bot {
                ReplyRoute::Mention
            } else {
                ReplyRoute::Ignore
            },
        }
    }

    /// Builds the conversation handed to the model for a reply (see
    /// `conversation`).
    pub fn conversation(
        personality: &str,
        chain: &Vec<ChainMessage>,
        original: &str,
        reply: &str,
    ) -> (r: Vec<Message>)
        ensures
            messages_view(r@) == conversation(
                personality@,
                chain@.map_values(|c: ChainMessage| chain_view(c)),
                original@,
                reply@,
            ),
    {
        let ghost cv = chain@.map_values(|c: ChainMessage| chain_view(c));
        let ghost entries = cv.reverse().map_values(
            |c: (Seq<char>, Seq<char>, bool, bool)| chain_entry(c),
        );
        let mut v: Vec<Message> = Vec::new();
        let mut p = String::new();
        push_str(&mut p, personality);
        v.push(Message { role: Role::system, content: p, name: None });
        let mut k: usize = chain.len();
        while k > 0
            invariant
                k <= chain.len(),
                cv == chain@.map_values(|c: ChainMessage| chain_view(c)),
                entries == cv.reverse().map_values(
                    |c: (Seq<char>, Seq<char>, bool, bool)| chain_entry(c),
                ),
                messages_view(v@) == seq![(Role::system, personality@, None::<Seq<char>>)]
                    + entries.take(chain.len() - k),
            decreases k,
        {
            k = k - 1;
            let c = &chain[k];
            let mut name = String::new();
            push_str(&mut name, c.author_name.as_str());
            let mut text = String::new();
            let role: Role;
            if !c.blocked {
                push_str(&mut text, "The following message was sent by the user ");
                push_str(&mut text, c.author_name.as_str());
                push_str(&mut text, ". Message: ");
                push_str(&mut text, c.content.as_str());
                role = if c.from_bot {
                    Role::assistant
                } else {
                    Role::user
                };
            } else {
                push_str(&mut text, c.author_name.as_str());
                push_str(
                    &mut text,
                    ": BZZZZT (it seems static has prevented you from reading this message)",
                );
                role = Role::user;
            }
            let ghost before = messages_view(v@);
            v.push(Message { role, content: text, name: Some(name) });
            proof {
                let n = chain.len() as int;
                assert(cv.reverse()[n - 1 - k] == cv[k as int]);
                assert(entries[n - 1 - k] == chain_entry(cv[k as int]));
                assert(entries.take(n - k) == entries.take(n - 1 - k).push(entries[n - 1 - k]));
                assert(messages_view(v@) == before.push(chain_entry(cv[k as int])));
            }
        }
        let mut o = String::new();
        push_str(&mut o, original);
        v.push(Message { role: Role::assistant, content: o, name: None });
        let mut rp = String::new();
        push_str(&mut rp, reply);
        v.push(Message { role: Role::assistant, content: rp, name: None });
        assert(entries.take(chain.len() as int) == entries);
        assert(messages_view(v@) =~= conversation(personality@, cv, original@, reply@));
        v
    }
}

} // verus!
