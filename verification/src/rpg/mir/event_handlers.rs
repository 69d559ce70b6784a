//! The buttons and menus of a status readout: rolling, switching character,
//! changing mana, refreshing, deleting.

use vstd::prelude::*;

use crate::text::{push_str, str_eq};

verus! {

broadcast use vstd::string::group_string_axioms;

/// Switches the character a player uses, from the character menu.
pub struct ChangeCharacterEvent;

/// Who asked to switch, and to which character.
pub struct ChangeCharacterEventParams {
    pub user_id: u64,
    pub character_id: i32,
}

impl ChangeCharacterEvent {
    /// Whether the person choosing may switch to the character: only its
    /// owner may.
    pub fn may_switch(owner: Option<&str>, chooser: &str) -> (r: bool)
        ensures
            r == (owner matches Some(o) && o@ == chooser@),
    {
        match owner {
            Some(o) => str_eq(o, chooser),
            None => false,
        }
    }
}

/// Changes a character's mana by a fixed amount, from a button.
pub struct ChangeManaEvent;

/// The character and the change of its mana.
pub struct ChangeManaEventParams {
    pub character_id: i32,
    pub mana_change: i64,
}

impl ChangeManaEvent {
    /// The mana after the change: the character's mana (0 when unknown)
    /// plus the change taken as an `i32`.
    pub fn changed_mana(mana: Option<i32>, change: i64) -> (r: i32)
        requires
            i32::MIN <= match mana {
                Some(m) => m as int,
                None => 0,
            } + (change as i32) <= i32::MAX,
        ensures
            r == match mana {
                Some(m) => m as int,
                None => 0,
            } + (change as i32),
    {
        let m = match mana {
            Some(m) => m,
            None => 0,
        };
        m + change as i32
    }
}

/// Deletes the message its button is on.
pub struct DeleteMessageEvent;

/// The delete button carries nothing.
pub struct DeleteMessageEventParams {}

/// Rolls dice for a character, from a button or menu.
pub struct RollEvent;

/// What to roll, and for which character.
pub struct RollEventParams {
    pub dice_string: String,
    pub character_id: i32,
}

impl RollEvent {
    /// The name a roll is shown under: the character's, "Test" when it has
    /// none.
    pub fn roller_name(name: Option<&str>) -> (r: String)
        ensures
            r@ == match name {
                Some(n) => n@,
                None => "Test"@,
            },
    {
        let mut s = String::new();
        match name {
            Some(n) => push_str(&mut s, n),
            None => push_str(&mut s, "Test"),
        }
        s
    }
}

/// Refreshes a status readout, from a button.
pub struct UpdateStatusEvent;

/// The character whose status is shown.
pub struct UpdateStatusEventParams {
    pub character_id: i32,
}

} // verus!
