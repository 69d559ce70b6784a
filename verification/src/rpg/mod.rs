//! Tabletop role-playing: characters' sheets, spells and the rules of the
//! Mir system.

pub mod mir;
pub mod spells;

use vstd::prelude::*;

use crate::text::push_str;

verus! {

broadcast use vstd::string::group_string_axioms;

/// Why a role-playing command cannot go on.
#[derive(Debug, Clone, Copy, PartialEq, Eq, Structural)]
pub enum RpgError {
    NoGuildId,
    NoCharacterSheet,
    NoCharacterSelected,
    NoSpellSheet,
    SpellNotFound,
    NoSpellCost,
    NoMaxEnergy,
    GaugeMessageMissing,
    NoEnergyDie,
    NoMagicDie,
    NoTrainingDie,
    JsonNotInitialised,
    TestingError,
}

/// The message shown for each error.
pub open spec fn rpg_error_text(e: RpgError) -> Seq<char> {
    match e {
        RpgError::NoGuildId => "Guild ID is missing - Are you in a DM?"@,
        RpgError::NoCharacterSheet => "Character sheet is missing - Was it deleted?"@,
        RpgError::NoCharacterSelected => "No character selected (please select one with /get_characters and /select_character (id))"@,
        RpgError::NoSpellSheet => "Spell sheet is missing - please set one with the Set Spell Message button"@,
        RpgError::SpellNotFound => "Spell not found"@,
        RpgError::NoSpellCost => "Spell cost appears to be missing from your spell block"@,
        RpgError::NoMaxEnergy => "Energy pool appears to be missing from your stat block"@,
        RpgError::GaugeMessageMissing => "Gauge message is missing - was it deleted?"@,
        RpgError::NoEnergyDie => "Energy die per level appears to be missing from your stat block"@,
        RpgError::NoMagicDie => "Magic die per level appears to be missing from your stat block"@,
        RpgError::NoTrainingDie => "Training die per level appears to be missing from your stat block"@,
        RpgError::JsonNotInitialised => "JSON is not initialised - this should never happen"@,
        RpgError::TestingError => "Testing"@,
    }
}

impl RpgError {
    /// The message shown for the error.
    pub fn message(&self) -> (r: String)
        ensures
            r@ == rpg_error_text(*self),
    {
        let mut s = String::new();
        match self {
            RpgError::NoGuildId => push_str(&mut s, "Guild ID is missing - Are you in a DM?"),
            RpgError::NoCharacterSheet => push_str(
                &mut s,
                "Character sheet is missing - Was it deleted?",
            ),
            RpgError::NoCharacterSelected => push_str(
                &mut s,
                "No character selected (please select one with /get_characters and /select_character (id))",
            ),
            RpgError::NoSpellSheet => push_str(
                &mut s,
                "Spell sheet is missing - please set one with the Set Spell Message button",
            ),
            RpgError::SpellNotFound => push_str(&mut s, "Spell not found"),
            RpgError::NoSpellCost => push_str(
                &mut s,
                "Spell cost appears to be missing from your spell block",
            ),
            RpgError::NoMaxEnergy => push_str(
                &mut s,
                "Energy pool appears to be missing from your stat block",
            ),
            RpgError::GaugeMessageMissing => push_str(
                &mut s,
                "Gauge message is missing - was it deleted?",
            ),
            RpgError::NoEnergyDie => push_str(
                &mut s,
                "Energy die per level appears to be missing from your stat block",
            ),
            RpgError::NoMagicDie => push_str(
                &mut s,
                "Magic die per level appears to be missing from your stat block",
            ),
            RpgError::NoTrainingDie => push_str(
                &mut s,
                "Training die per level appears to be missing from your stat block",
            ),
            RpgError::JsonNotInitialised => push_str(
                &mut s,
                "JSON is not initialised - this should never happen",
            ),
            RpgError::TestingError => push_str(&mut s, "Testing"),
        }
        s
    }
}

/// How a sheet is shown: its structured form when it has one, else the
/// message it was read from, else `missing`.
pub open spec fn sheet_display(
    json: Option<Seq<char>>,
    original: Option<Seq<char>>,
    missing: Seq<char>,
) -> Seq<char> {
    match json {
        Some(j) => j,
        None => match original {
            Some(m) => m,
            None => missing,
        },
    }
}

/// Shows a sheet (see `sheet_display`); stat sheets say "No stat sheet
/// found" and spell sheets "No spell sheet found" when they hold nothing.
pub fn sheet_text(json: Option<&str>, original: Option<&str>, missing: &str) -> (r: String)
    ensures
        r@ == sheet_display(
            match json {
                Some(j) => Some(j@),
                None => None,
            },
            match original {
                Some(m) => Some(m@),
                None => None,
            },
            missing@,
        ),
{
    let mut s = String::new();
    match json {
        Some(j) => push_str(&mut s, j),
        None => match original {
            Some(m) => push_str(&mut s, m),
            None => push_str(&mut s, missing),
        },
    }
    s
}

/// Whether a sheet's message changed since it was last read: always when no
/// hash was kept, otherwise when the kept hash differs from the current one.
pub fn sheet_changed(previous_hash: Option<&str>, current_hash: &str) -> (r: bool)
    ensures
        r == match previous_hash {
            Some(p) => p@ != current_hash@,
            None => true,
        },
{
    match previous_hash {
        Some(p) => !crate::text::str_eq(p, current_hash),
        None => true,
    }
}

} // verus!
