//! Word guessing: the colour of each letter of a guess, and the board.

use vstd::prelude::*;

use crate::text::{push_str, str_to_chars};

verus! {

broadcast use vstd::string::group_string_axioms;

/// A guess at the word.
pub struct WordleGuess {
    pub value: String,
}

/// A game: the word, the guesses so far, and how many guesses are allowed.
pub struct Wordle {
    pub word: String,
    pub guesses: Vec<WordleGuess>,
    pub num_of_guesses: i32,
}

/// A new game with the word, no guesses and five guesses allowed.
pub fn generate_wordle(word: &str) -> (r: Wordle)
    ensures
        r.word@ == word@,
        r.guesses@.len() == 0,
        r.num_of_guesses == 5,
{
    let mut w = String::new();
    push_str(&mut w, word);
    Wordle { word: w, guesses: Vec::new(), num_of_guesses: 5 }
}

/// The emoji pattern for the letter at position `i` of a guess: the letter's
/// own tile when the word has it there, a yellow one when the word has it
/// elsewhere, a dark one when the word lacks it.
pub open spec fn letter_pattern(word: Seq<char>, c: char, i: int) -> Seq<char> {
    if word.contains(c) {
        if word[i] == c {
            ":regional_indicator_{}:"@
        } else {
            "{}_yellow"@
        }
    } else {
        "{}_dark"@
    }
}

/// Whether every letter of the guess found in the word lies at a position
/// the word has (reading the word's letter at that position fails otherwise).
pub open spec fn guess_readable(word: Seq<char>, guess: Seq<char>) -> bool {
    forall|i: int| 0 <= i < guess.len() && word.contains(#[trigger] guess[i]) ==> i < word.len()
}

/// The tile of each guessed letter: the right-position tile exactly when the
/// word has that letter at that position, a yellow tile when the word has it
/// only elsewhere, a dark tile when the word lacks it.
pub proof fn tiles_follow_the_word(word: Seq<char>, guess: Seq<char>, i: int)
    requires
        0 <= i < guess.len(),
        i < word.len(),
    ensures
        guess[i] == word[i] ==> letter_pattern(word, guess[i], i) == ":regional_indicator_{}:"@,
        guess[i] != word[i] && word.contains(guess[i]) ==> letter_pattern(word, guess[i], i)
            == "{}_yellow"@,
        !word.contains(guess[i]) ==> letter_pattern(word, guess[i], i) == "{}_dark"@,
        (letter_pattern(word, guess[i], i) == ":regional_indicator_{}:"@) <==> guess[i] == word[i],
{
    reveal_strlit(":regional_indicator_{}:");
    reveal_strlit("{}_yellow");
    reveal_strlit("{}_dark");
    if guess[i] == word[i] {
        assert(word[i] == guess[i]);
        assert(word.contains(guess[i]));
    }
    assert(":regional_indicator_{}:"@ != "{}_yellow"@) by {
        assert(":regional_indicator_{}:"@[0] != "{}_yellow"@[0]);
    }
    assert(":regional_indicator_{}:"@ != "{}_dark"@) by {
        assert(":regional_indicator_{}:"@[0] != "{}_dark"@[0]);
    }
}

/// The emoji patterns of the letters of a guess (see `letter_pattern`).
pub fn letter_patterns(word: &str, guess: &str) -> (r: Vec<&'static str>)
    requires
        guess_readable(word@, guess@),
    ensures
        r@.len() == guess@.len(),
        forall|i: int|
            0 <= i < guess@.len() ==> (#[trigger] r@[i])@ == letter_pattern(word@, guess@[i], i),
{
    let w = str_to_chars(word);
    let g = str_to_chars(guess);
    let mut out: Vec<&'static str> = Vec::new();
    let mut i: usize = 0;
    while i < g.len()
        invariant
            i <= g.len(),
            w@ == word@,
            g@ == guess@,
            guess_readable(word@, guess@),
            out@.len() == i,
            forall|k: int| 0 <= k < i ==> (#[trigger] out@[k])@ == letter_pattern(word@, g@[k], k),
        decreases g.len() - i,
    {
        let c = g[i];
        let mut found = false;
        let mut j: usize = 0;
        while j < w.len()
            invariant
                j <= w.len(),
                found == exists|k: int| 0 <= k < j && w@[k] == c,
            decreases w.len() - j,
        {
            if w[j] == c {
                found = true;
            }
            j = j + 1;
        }
        assert(found == w@.contains(c));
        let p: &'static str = if found {
            assert(word@.contains(guess@[i as int]));
            if w[i] == c {
                ":regional_indicator_{}:"
            } else {
                "{}_yellow"
            }
        } else {
            "{}_dark"
        };
        out.push(p);
        i = i + 1;
    }
    out
}

/// A row of the board for a guess not made yet: a dark tile and a space per
/// letter of the word.
pub open spec fn blank_row(n: nat) -> Seq<char>
    decreases n,
{
    if n == 0 {
        Seq::empty()
    } else {
        blank_row((n - 1) as nat) + "⬛ "@
    }
}

/// The tiles of a guess, each followed by a space.
pub open spec fn tiles_text(tiles: Seq<Seq<char>>) -> Seq<char>
    decreases tiles.len(),
{
    if tiles.len() == 0 {
        Seq::empty()
    } else {
        tiles_text(tiles.drop_last()) + tiles.last() + " "@
    }
}

/// A guess row: each letter's tile and a space, then a line break.
pub open spec fn guess_row(tiles: Seq<Seq<char>>) -> Seq<char> {
    tiles_text(tiles) + "\n"@
}

fn blank_row_text(n: usize) -> (r: String)
    ensures
        r@ == blank_row(n as nat),
{
    let mut s = String::new();
    let mut i: usize = 0;
    while i < n
        invariant
            i <= n,
            s@ == blank_row(i as nat),
        decreases n - i,
    {
        push_str(&mut s, "⬛ ");
        i = i + 1;
    }
    s
}

/// The rows for the guesses, one after the other.
pub open spec fn guess_rows(rows: Seq<Seq<Seq<char>>>) -> Seq<char>
    decreases rows.len(),
{
    if rows.len() == 0 {
        Seq::empty()
    } else {
        guess_rows(rows.drop_last()) + guess_row(rows.last())
    }
}

/// Blank rows, each followed by a line break.
pub open spec fn blank_rows(width: nat, n: nat) -> Seq<char>
    decreases n,
{
    if n == 0 {
        Seq::empty()
    } else {
        blank_rows(width, (n - 1) as nat) + blank_row(width) + "\n"@
    }
}

/// The board: a row per guess made (each tile as rendered), then a blank row
/// for each guess left.
pub open spec fn board_text(word_len: nat, tiles: Seq<Seq<Seq<char>>>, allowed: int) -> Seq<char> {
    guess_rows(tiles) + blank_rows(
        word_len,
        if allowed > tiles.len() {
            (allowed - tiles.len()) as nat
        } else {
            0
        },
    )
}

fn push_guess_row(s: &mut String, tiles: &Vec<String>)
    ensures
        final(s)@ == old(s)@ + guess_row(tiles@.map_values(|t: String| t@)),
{
    let ghost tv = tiles@.map_values(|t: String| t@);
    let ghost start = s@;
    let mut i: usize = 0;
    while i < tiles.len()
        invariant
            i <= tiles.len(),
            tv == tiles@.map_values(|t: String| t@),
            s@ == start + tiles_text(tv.take(i as int)),
        decreases tiles.len() - i,
    {
        push_str(s, tiles[i].as_str());
        push_str(s, " ");
        proof {
            assert(tv.take(i + 1).drop_last() == tv.take(i as int));
            assert(tv.take(i + 1).last() == tv[i as int]);
            assert(s@ =~= start + tiles_text(tv.take(i + 1)));
        }
        i = i + 1;
    }
    assert(tv.take(tiles.len() as int) == tv);
    push_str(s, "\n");
    assert(s@ =~= start + guess_row(tv));
}

/// Draws the board (see `board_text`) from the rendered tiles of each guess.
pub fn format_wordle(word: &str, tiles: &Vec<Vec<String>>, num_of_guesses: i32) -> (r: String)
    ensures
        r@ == board_text(
            word@.len(),
            tiles@.map_values(|row: Vec<String>| row@.map_values(|t: String| t@)),
            num_of_guesses as int,
        ),
{
    let ghost rows = tiles@.map_values(|row: Vec<String>| row@.map_values(|t: String| t@));
    let mut s = String::new();
    let mut i: usize = 0;
    while i < tiles.len()
        invariant
            i <= tiles.len(),
            rows == tiles@.map_values(|row: Vec<String>| row@.map_values(|t: String| t@)),
            s@ == guess_rows(rows.take(i as int)),
        decreases tiles.len() - i,
    {
        push_guess_row(&mut s, &tiles[i]);
        assert(rows.take(i + 1).drop_last() == rows.take(i as int));
        assert(rows.take(i + 1).last() == rows[i as int]);
        assert(s@ =~= guess_rows(rows.take(i + 1)));
        i = i + 1;
    }
    assert(rows.take(tiles.len() as int) == rows);
    let w = str_to_chars(word);
    let blank = blank_row_text(w.len());
    let n = tiles.len() as u128;
    let left: u128 = if num_of_guesses > 0 && (num_of_guesses as u128) > n {
        num_of_guesses as u128 - n
    } else {
        0
    };
    let mut k: u128 = 0;
    while k < left
        invariant
            k <= left,
            blank@ == blank_row(word@.len()),
            s@ == guess_rows(rows) + blank_rows(word@.len(), k as nat),
        decreases left - k,
    {
        push_str(&mut s, blank.as_str());
        push_str(&mut s, "\n");
        assert(s@ =~= guess_rows(rows) + blank_rows(word@.len(), (k + 1) as nat));
        k = k + 1;
    }
    s
}

} // verus!
