//! Spells: their kinds, what they cost, and the spells a character keeps
//! active.

use vstd::prelude::*;

use std::collections::HashMap;

use crate::text::{i64_to_chars, int_decimal, push_chars, push_str, str_eq};

verus! {

broadcast use vstd::string::group_string_axioms;

/// How a spell is cast: once, kept active turn after turn, or as a summon.
#[derive(Debug, Clone, Copy, PartialEq, Eq, Structural)]
pub enum SpellType {
    Single,
    Toggle,
    Summon,
    Unknown,
}

/// The kind a spell sheet names: `single`, `toggle` or `summon`; any other
/// word is an unknown kind.
pub open spec fn spell_type_of(s: Seq<char>) -> SpellType {
    if s == "single"@ {
        SpellType::Single
    } else if s == "toggle"@ {
        SpellType::Toggle
    } else if s == "summon"@ {
        SpellType::Summon
    } else {
        SpellType::Unknown
    }
}

/// The word for a kind of spell.
pub open spec fn spell_type_word(t: SpellType) -> Seq<char> {
    match t {
        SpellType::Single => "single"@,
        SpellType::Toggle => "toggle"@,
        SpellType::Summon => "summon"@,
        SpellType::Unknown => "unknown"@,
    }
}

impl SpellType {
    /// Reads the kind of a spell (never fails: unknown words give `Unknown`).
    pub fn from_str(s: &str) -> (r: Result<SpellType, ()>)
        ensures
            r == Ok::<SpellType, ()>(spell_type_of(s@)),
    {
        if str_eq(s, "single") {
            Ok(SpellType::Single)
        } else if str_eq(s, "toggle") {
            Ok(SpellType::Toggle)
        } else if str_eq(s, "summon") {
            Ok(SpellType::Summon)
        } else {
            Ok(SpellType::Unknown)
        }
    }

    /// The word for the kind, as the spell sheet writes it.
    pub fn as_str(&self) -> (r: &'static str)
        ensures
            r@ == spell_type_word(*self),
    {
        match self {
            SpellType::Single => "single",
            SpellType::Toggle => "toggle",
            SpellType::Summon => "summon",
            SpellType::Unknown => "unknown",
        }
    }
}

/// Reading a kind back from its word gives the kind, for every known kind.
pub proof fn spell_type_word_round_trip(t: SpellType)
    requires
        t != SpellType::Unknown,
    ensures
        spell_type_of(spell_type_word(t)) == t,
{
    reveal_strlit("single");
    reveal_strlit("toggle");
    reveal_strlit("summon");
    assert("toggle"@[0] != "single"@[0]);
    assert("summon"@[1] != "single"@[1]);
    assert("summon"@[0] != "toggle"@[0]);
}

/// What a spell spends or gives.
pub trait SpellResource: Sized {
    /// Whether the resource can be combined with `other`.
    spec fn can_add(&self, other: &Self) -> bool;

    /// The resource combined with another.
    fn add(&mut self, other: &Self) -> (r: Self)
        requires
            old(self).can_add(other),
    ;
}

/// A spell's change to a character's mana (negative for a cost).
#[derive(Debug, Clone, Copy, PartialEq, Eq, Structural)]
pub struct ManaSpellResource {
    pub mana: i32,
}

impl SpellResource for ManaSpellResource {
    open spec fn can_add(&self, other: &Self) -> bool {
        i32::MIN <= self.mana + other.mana <= i32::MAX
    }

    /// The two changes added together; the resource itself is left as it is.
    fn add(&mut self, other: &Self) -> (r: Self)
        ensures
            r.mana == old(self).mana + other.mana,
            *final(self) == *old(self),
    {
        ManaSpellResource { mana: self.mana + other.mana }
    }
}

impl ManaSpellResource {
    /// The change as shown to players: `Mana: n`.
    pub fn text(&self) -> (r: String)
        ensures
            r@ == "Mana: "@ + int_decimal(self.mana as int),
    {
        let mut s = String::new();
        push_str(&mut s, "Mana: ");
        let d = i64_to_chars(self.mana as i64);
        push_chars(&mut s, &d);
        s
    }
}

/// Spell slots by level, for systems that cast from slots.
pub struct SlotSpellResource {
    pub slots: HashMap<i32, i32>,
}

/// A spell: its name, what it costs, its kind and how long it takes to cast.
pub struct Spell<T: SpellResource> {
    pub name: Option<String>,
    pub cost: Option<T>,
    pub spell_type: Option<SpellType>,
    pub cast_time: Option<String>,
}

/// An optional string as an optional sequence.
pub open spec fn opt_view(s: Option<String>) -> Option<Seq<char>> {
    match s {
        Some(t) => Some(t@),
        None => None,
    }
}

/// A mana spell as plain values: name, mana change, kind and cast time.
pub open spec fn spell_view(s: Spell<ManaSpellResource>) -> (
    Option<Seq<char>>,
    Option<i32>,
    Option<SpellType>,
    Option<Seq<char>>,
) {
    (
        opt_view(s.name),
        match s.cost {
            Some(c) => Some(c.mana),
            None => None,
        },
        s.spell_type,
        opt_view(s.cast_time),
    )
}

/// A copy of an optional string.
pub fn copy_opt(s: &Option<String>) -> (r: Option<String>)
    ensures
        opt_view(r) == opt_view(*s),
{
    match s {
        Some(t) => {
            let mut c = String::new();
            push_str(&mut c, t.as_str());
            Some(c)
        },
        None => None,
    }
}

impl Spell<ManaSpellResource> {
    /// A spell as a spell sheet describes it: its name; its kind when the
    /// sheet gives one (a kind that is not text reads as `unknown`); its cost,
    /// taken as an `i32`; its cast time.
    pub fn from_sheet(
        name: &str,
        kind: Option<Option<&str>>,
        cost: Option<i64>,
        cast_time: Option<&str>,
    ) -> (r: Self)
        ensures
            spell_view(r) == (
                Some(name@),
                match cost {
                    Some(c) => Some(c as i32),
                    None => None::<i32>,
                },
                match kind {
                    Some(Some(w)) => Some(spell_type_of(w@)),
                    Some(None) => Some(SpellType::Unknown),
                    None => None::<SpellType>,
                },
                match cast_time {
                    Some(t) => Some(t@),
                    None => None::<Seq<char>>,
                },
            ),
    {
        let mut n = String::new();
        push_str(&mut n, name);
        let spell_type = match kind {
            Some(Some(w)) => match SpellType::from_str(w) {
                Ok(t) => Some(t),
                Err(_) => None,
            },
            Some(None) => Some(SpellType::Unknown),
            None => None,
        };
        let cast = match cast_time {
            Some(t) => {
                let mut c = String::new();
                push_str(&mut c, t);
                Some(c)
            },
            None => None,
        };
        let cost = match cost {
            Some(c) => Some(ManaSpellResource { mana: c as i32 }),
            None => None,
        };
        Spell { name: Some(n), cost, spell_type, cast_time: cast }
    }

    /// A copy of the spell.
    pub fn copy(&self) -> (r: Self)
        ensures
            spell_view(r) == spell_view(*self),
    {
        Spell {
            name: copy_opt(&self.name),
            cost: self.cost,
            spell_type: self.spell_type,
            cast_time: copy_opt(&self.cast_time),
        }
    }
}

} // verus!
