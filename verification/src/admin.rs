//! Server administration helpers: name colours, automatic reactions and
//! threads.

use vstd::prelude::*;

use crate::rpg::mir::color_matcher::{parse_radix_bytes, parse_radix_within};
use crate::text::{chars_to_string, replace_all, replace_chars, str_to_chars, trim, trim_chars};

verus! {

broadcast use vstd::string::group_string_axioms;

/// The colour a player asks for: the text with every `#` removed, read as a
/// hexadecimal `u32` (`u32::from_str_radix` with radix 16).
pub open spec fn colour_request(name_colour: Seq<char>) -> Option<nat> {
    parse_radix_within(vstd::utf8::encode_utf8(replace_all(name_colour, seq!['#'], Seq::empty())), 16, 0xffff_ffff)
}

/// Reads the colour a player asks for (see `colour_request`); `None` when the
/// text is not such a number.
pub fn parse_colour(name_colour: &str) -> (r: Option<u32>)
    ensures
        match r {
            Some(c) => colour_request(name_colour@) == Some(c as nat),
            None => colour_request(name_colour@) is None,
        },
{
    let v = str_to_chars(name_colour);
    let mut hash: Vec<char> = Vec::new();
    hash.push('#');
    let empty: Vec<char> = Vec::new();
    let cleaned = replace_chars(&v, &hash, &empty);
    let s = chars_to_string(&cleaned);
    let bytes = s.as_str().as_bytes();
    let mut b: Vec<u8> = Vec::new();
    let mut i: usize = 0;
    while i < bytes.len()
        invariant
            i <= bytes@.len(),
            b@ == bytes@.take(i as int),
        decreases bytes@.len() - i,
    {
        b.push(bytes[i]);
        assert(bytes@.take(i + 1) == bytes@.take(i as int).push(bytes@[i as int]));
        i = i + 1;
    }
    assert(bytes@.take(bytes@.len() as int) == bytes@);
    parse_radix_bytes(&b, 16, 0xffff_ffff)
}

/// The marker that introduces automatic reactions in a channel topic.
pub open spec fn react_marker() -> Seq<char> {
    "-autoReact "@
}

/// The emoji names a channel topic asks to react with: on the line after
/// the first `-autoReact ` marker, the comma-separated names, trimmed, empty
/// ones left out.
pub open spec fn react_names(topic: Seq<char>) -> Seq<Seq<char>> {
    match crate::text::find_first(topic, react_marker()) {
        None => Seq::empty(),
        Some(i) => {
            let rest = topic.skip((i + react_marker().len()) as int);
            let line = match crate::text::find_first(rest, seq!['\n']) {
                Some(j) => rest.take(j as int),
                None => rest,
            };
            crate::text::split_on(strip_cr(line), ',').map_values(|p: Seq<char>| trim(p)).filter(
                |p: Seq<char>| p.len() > 0,
            )
        },
    }
}

/// A line without its carriage return, if it ends with one.
pub open spec fn strip_cr(l: Seq<char>) -> Seq<char> {
    if l.len() > 0 && l.last() == '\r' {
        l.drop_last()
    } else {
        l
    }
}

/// Reads the emoji names a channel topic asks to react with (see
/// `react_names`).
pub fn react_emoji_names(topic: &str) -> (r: Vec<String>)
    ensures
        r@.map_values(|x: String| x@) == react_names(topic@),
{
    let v = str_to_chars(topic);
    let marker = str_to_chars("-autoReact ");
    match crate::text::find_chars(&v, &marker) {
        None => Vec::new(),
        Some(i) => {
            proof {
                crate::text::lemma_find_from_facts(v@, marker@, 0);
                assert(crate::text::find_first(v@, marker@) == crate::text::find_from(
                    v@,
                    marker@,
                    0,
                ));
                assert(crate::text::occurs_at(v@, marker@, i as int));
            }
            assert(marker@.len() == marker.len());
            assert(i + marker.len() <= v.len());
            let rest = crate::text::chars_range(&v, i + marker.len(), v.len());
            assert(rest@ == v@.skip((i + marker@.len()) as int));
            let mut nl: Vec<char> = Vec::new();
            nl.push('\n');
            let line = match crate::text::find_chars(&rest, &nl) {
                Some(j) => {
                    proof {
                        crate::text::lemma_find_from_facts(rest@, nl@, 0);
                        assert(crate::text::find_first(rest@, nl@) == crate::text::find_from(
                            rest@,
                            nl@,
                            0,
                        ));
                        assert(crate::text::occurs_at(rest@, nl@, j as int));
                    }
                    let l = crate::text::chars_range(&rest, 0, j);
                    assert(l@ == rest@.take(j as int));
                    l
                },
                None => rest,
            };
            let mut line = line;
            if line.len() > 0 && line[line.len() - 1] == '\r' {
                line.pop();
            }
            let parts = crate::text::split_chars(&line, ',');
            let ghost pv = crate::text::split_on(strip_cr(
                match crate::text::find_first(v@.skip((i + marker@.len()) as int), seq!['\n']) {
                    Some(j) => v@.skip((i + marker@.len()) as int).take(j as int),
                    None => v@.skip((i + marker@.len()) as int),
                },
            ), ',');
            assert(parts@.len() == pv.len());
            let ghost tv = pv.map_values(|p: Seq<char>| trim(p));
            let mut out: Vec<String> = Vec::new();
            let mut k: usize = 0;
            while k < parts.len()
                invariant
                    k <= parts.len(),
                    parts@.len() == pv.len(),
                    forall|m: int| 0 <= m < parts@.len() ==> #[trigger] parts@[m]@ == pv[m],
                    tv == pv.map_values(|p: Seq<char>| trim(p)),
                    out@.map_values(|x: String| x@) == tv.take(k as int).filter(
                        |p: Seq<char>| p.len() > 0,
                    ),
                decreases parts.len() - k,
            {
                let t = trim_chars(&parts[k]);
                assert(t@ == tv[k as int]);
                reveal(Seq::filter);
                assert(tv.take(k + 1).drop_last() == tv.take(k as int));
                assert(tv.take(k + 1).last() == tv[k as int]);
                if t.len() > 0 {
                    let ghost before = out@.map_values(|x: String| x@);
                    out.push(chars_to_string(&t));
                    assert(out@.map_values(|x: String| x@) == before.push(t@));
                }
                k = k + 1;
            }
            assert(tv.take(parts.len() as int) == tv);
            out
        },
    }
}

/// The emoji with a shortcode, as the `emojis` crate knows it.
pub uninterp spec fn spec_shortcode_emoji(code: Seq<char>) -> Option<Seq<char>>;

/// Looks an emoji up by shortcode with `emojis::get_by_shortcode` and gives
/// its text (`Emoji::as_str`).  The contract names the result.
#[verifier::external_body]
fn shortcode_emoji(code: &str) -> (r: Option<String>)
    ensures
        match r {
            Some(e) => spec_shortcode_emoji(code@) == Some(e@),
            None => spec_shortcode_emoji(code@) is None,
        },
{
    emojis::get_by_shortcode(code).map(|e| e.as_str().to_string())
}

/// How the bot reacts for one name.
#[derive(Debug, PartialEq, Eq)]
pub enum Reaction {
    /// A custom emoji of the server, by id.
    Custom(u64),
    /// A Unicode emoji.
    Unicode(String),
}

/// The reaction for a name: the server's custom emoji with that name when
/// there is one, else the Unicode emoji whose shortcode is the name without
/// colons, else a question mark.
pub open spec fn reaction_for_name(custom: Option<u64>, name: Seq<char>) -> (Option<u64>, Seq<char>) {
    match custom {
        Some(id) => (Some(id), Seq::empty()),
        None => (
            None,
            match spec_shortcode_emoji(replace_all(name, seq![':'], Seq::empty())) {
                Some(e) => e,
                None => "❓"@,
            },
        ),
    }
}

/// Chooses the reaction for a name (see `reaction_for_name`).
pub fn reaction_for(custom: Option<u64>, name: &str) -> (r: Reaction)
    ensures
        match r {
            Reaction::Custom(id) => reaction_for_name(custom, name@) == (Some(id), Seq::<char>::empty()),
            Reaction::Unicode(e) => reaction_for_name(custom, name@) == (None::<u64>, e@),
        },
{
    match custom {
        Some(id) => Reaction::Custom(id),
        None => {
            let v = str_to_chars(name);
            let mut colon: Vec<char> = Vec::new();
            colon.push(':');
            let empty: Vec<char> = Vec::new();
            let code = chars_to_string(&replace_chars(&v, &colon, &empty));
            match shortcode_emoji(code.as_str()) {
                Some(e) => Reaction::Unicode(e),
                None => {
                    let mut q = String::new();
                    crate::text::push_str(&mut q, "❓");
                    Reaction::Unicode(q)
                },
            }
        },
    }
}

/// Whether the bot opens a thread for a message: when the channel's tags
/// hold the thread tag.  The tags read from a topic are always empty, so it
/// never does.
pub fn wants_thread(topic: Option<&str>) -> (r: bool)
    ensures
        !r,
{
    let tags = crate::common::get_channel_tags(topic);
    let mut found = false;
    let mut i: usize = 0;
    while i < tags.len()
        invariant
            i <= tags.len(),
            tags@.len() == 0,
            !found,
        decreases tags.len() - i,
    {
        if crate::text::str_eq(tags[i].0.as_str(), "threadChannel") {
            found = true;
        }
        i = i + 1;
    }
    found
}

} // verus!
