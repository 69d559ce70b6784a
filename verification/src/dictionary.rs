//! Word lists: picking a random word of a given length.

use vstd::prelude::*;

use rand::seq::SliceRandom;

use crate::text::{chars_range, chars_to_string, push_str, str_to_chars};

verus! {

broadcast use vstd::string::group_string_axioms;

/// Why no word could be picked.
#[derive(Debug, Clone, Copy, PartialEq, Eq, Structural)]
pub enum DictionaryError {
    FileEmpty,
    NotFound,
    LineNotFound,
}

/// The message shown for each error.
pub open spec fn dictionary_error_text(e: DictionaryError) -> Seq<char> {
    match e {
        DictionaryError::FileEmpty => "The dictionary file is empty"@,
        DictionaryError::LineNotFound => "The line was not found in the dictionary?!"@,
        DictionaryError::NotFound => "A word by those criteria could not be found"@,
    }
}

impl DictionaryError {
    /// The message shown for the error.
    pub fn message(&self) -> (r: String)
        ensures
            r@ == dictionary_error_text(*self),
    {
        let mut s = String::new();
        match self {
            DictionaryError::FileEmpty => push_str(&mut s, "The dictionary file is empty"),
            DictionaryError::LineNotFound => push_str(
                &mut s,
                "The line was not found in the dictionary?!",
            ),
            DictionaryError::NotFound => push_str(
                &mut s,
                "A word by those criteria could not be found",
            ),
        }
        s
    }
}

/// Refuses an empty dictionary.
pub fn check_dictionary(content: &str) -> (r: Result<(), DictionaryError>)
    ensures
        r is Err <==> content@.len() == 0,
        r matches Err(e) ==> e == DictionaryError::FileEmpty,
{
    if content.is_empty() {
        Err(DictionaryError::FileEmpty)
    } else {
        Ok(())
    }
}

/// A line without its carriage return, if it ends with one.
pub open spec fn strip_cr(l: Seq<char>) -> Seq<char> {
    if l.len() > 0 && l.last() == '\r' {
        l.drop_last()
    } else {
        l
    }
}

/// The position of the first line feed at or after `i`.
pub open spec fn newline_from(s: Seq<char>, i: int) -> Option<int>
    decreases s.len() - i,
{
    if i < 0 || i >= s.len() {
        None
    } else if s[i] == '\n' {
        Some(i)
    } else {
        newline_from(s, i + 1)
    }
}

/// The lines of a text from position `start`, as `str::lines` gives them:
/// split at each line feed, a carriage return before it dropped, and no
/// empty line after a final line feed.
pub open spec fn lines_from(s: Seq<char>, start: int) -> Seq<Seq<char>>
    decreases s.len() - start,
{
    if start < 0 || start >= s.len() {
        Seq::empty()
    } else {
        match newline_from(s, start) {
            None => seq![strip_cr(s.subrange(start, s.len() as int))],
            Some(k) => if start <= k < s.len() {
                seq![strip_cr(s.subrange(start, k))] + lines_from(s, k + 1)
            } else {
                Seq::empty()
            },
        }
    }
}

/// The lines of a text.
pub open spec fn text_lines(s: Seq<char>) -> Seq<Seq<char>> {
    lines_from(s, 0)
}

proof fn lemma_newline_from_ge(s: Seq<char>, i: int)
    ensures
        newline_from(s, i) matches Some(k) ==> i <= k < s.len() && s[k] == '\n',
    decreases s.len() - i,
{
    if 0 <= i < s.len() && s[i] != '\n' {
        lemma_newline_from_ge(s, i + 1);
    }
}

/// The length of a line in bytes (its UTF-8 encoding).
pub open spec fn byte_len(l: Seq<char>) -> nat {
    vstd::utf8::encode_utf8(l).len()
}

/// Whether a line has the length asked for, in bytes as `str::len` reports
/// it (any line when no length is asked for).
pub open spec fn has_length(l: Seq<char>, length: Option<usize>) -> bool {
    length matches Some(n) ==> byte_len(l) as usize == n
}

/// The lines of the right length.
pub open spec fn lines_of_length(lines: Seq<Seq<char>>, length: Option<usize>) -> Seq<Seq<char>> {
    lines.filter(|l: Seq<char>| has_length(l, length))
}

fn strip_cr_chars(v: Vec<char>) -> (r: Vec<char>)
    ensures
        r@ == strip_cr(v@),
{
    let mut v = v;
    if v.len() > 0 && v[v.len() - 1] == '\r' {
        v.pop();
    }
    v
}

/// Strings as sequences of characters.
pub open spec fn strings_view(v: Seq<String>) -> Seq<Seq<char>> {
    v.map_values(|t: String| t@)
}

/// The lines of a text (see `text_lines`).
pub fn lines(text: &str) -> (r: Vec<String>)
    ensures
        strings_view(r@) == text_lines(text@),
{
    let v = str_to_chars(text);
    let mut out: Vec<String> = Vec::new();
    let mut start: usize = 0;
    while start < v.len()
        invariant
            start <= v.len(),
            v@ == text@,
            strings_view(out@) + lines_from(v@, start as int) == lines_from(v@, 0),
        decreases v.len() - start,
    {
        let mut j: usize = start;
        while j < v.len() && v[j] != '\n'
            invariant
                start <= j <= v.len(),
                newline_from(v@, start as int) == newline_from(v@, j as int),
            decreases v.len() - j,
        {
            j = j + 1;
        }
        let piece = chars_range(&v, start, j);
        let line = strip_cr_chars(piece);
        let ghost before = strings_view(out@);
        out.push(chars_to_string(&line));
        assert(strings_view(out@) == before.push(line@));
        if j < v.len() {
            assert(newline_from(v@, start as int) == Some(j as int));
            assert(lines_from(v@, start as int) == seq![line@] + lines_from(v@, j + 1));
            start = j + 1;
        } else {
            assert(newline_from(v@, start as int) is None);
            assert(lines_from(v@, start as int) == seq![line@]);
            assert(lines_from(v@, v.len() as int) == Seq::<Seq<char>>::empty());
            start = j;
        }
    }
    assert(lines_from(v@, start as int) == Seq::<Seq<char>>::empty());
    out
}

/// Picks a line at random with `rand`'s `SliceRandom::choose` (thread
/// generator): `None` exactly when there is none, otherwise one of them.
#[verifier::external_body]
fn choose_line(lines: &Vec<String>) -> (r: Option<String>)
    ensures
        r is Some <==> lines@.len() > 0,
        r matches Some(l) ==> exists|i: int| 0 <= i < lines@.len() && l@ == lines@[i]@,
{
    lines.choose(&mut rand::thread_rng()).map(|l| l.to_string())
}

/// Picks a random line of a dictionary's text with the given length in bytes
/// (any line when no length is given); `NotFound` when there is none.
pub fn read_random_line(content: &str, length: Option<usize>) -> (r: Result<
    String,
    DictionaryError,
>)
    ensures
        match r {
            Ok(l) => lines_of_length(text_lines(content@), length).contains(l@),
            Err(e) => e == DictionaryError::NotFound && lines_of_length(
                text_lines(content@),
                length,
            ).len() == 0,
        },
{
    let all = lines(content);
    let ghost av = strings_view(all@);
    let mut kept: Vec<String> = Vec::new();
    let mut i: usize = 0;
    while i < all.len()
        invariant
            i <= all.len(),
            av == strings_view(all@),
            strings_view(kept@) == lines_of_length(av.take(i as int), length),
        decreases all.len() - i,
    {
        let l = &all[i];
        let ls = l.as_str();
        let keep = match length {
            Some(n) => ls.len() == n,
            None => true,
        };
        proof {
            assert(av.take(i + 1).drop_last() == av.take(i as int));
            assert(av.take(i + 1).last() == l@);
            assert(vstd::string::StringSliceAdditionalSpecFns::spec_bytes(ls) == vstd::utf8::encode_utf8(l@));
        }
        assert(keep == has_length(l@, length));
        reveal(Seq::filter);
        assert(lines_of_length(av.take(i + 1), length) == if keep {
            lines_of_length(av.take(i as int), length).push(l@)
        } else {
            lines_of_length(av.take(i as int), length)
        });
        if keep {
            let mut c = String::new();
            push_str(&mut c, l.as_str());
            let ghost before = strings_view(kept@);
            kept.push(c);
            assert(strings_view(kept@) == before.push(l@));
        }
        i = i + 1;
    }
    assert(av.take(all.len() as int) == av);
    if kept.len() == 0 {
        return Err(DictionaryError::NotFound);
    }
    match choose_line(&kept) {
        Some(l) => {
            let ghost k = choose|k: int| 0 <= k < kept@.len() && l@ == kept@[k]@;
            assert(strings_view(kept@)[k] == l@);
            Ok(l)
        },
        None => Err(DictionaryError::LineNotFound),
    }
}

/// A line picked for a length has that length.
pub proof fn picked_lines_have_the_length(lines: Seq<Seq<char>>, length: Option<usize>, l: Seq<char>)
    requires
        lines_of_length(lines, length).contains(l),
    ensures
        has_length(l, length),
        lines.contains(l),
{
    let pred = |x: Seq<char>| has_length(x, length);
    let k = choose|k: int| 0 <= k < lines.filter(pred).len() && lines.filter(pred)[k] == l;
    lines.lemma_filter_pred(pred, k);
    lines.lemma_filter_contains_rev(pred, l);
}

} // verus!
