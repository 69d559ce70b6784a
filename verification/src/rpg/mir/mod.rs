//! The Mir system: status readouts, mana, spells cast from a spell sheet,
//! and rolls made with a character's stats.

pub mod buff_formula;
pub mod color_matcher;
pub mod event_handlers;

use vstd::prelude::*;

use crate::common::{bar_drawable, bar_text, can_draw_bar, capitalize_first_letter, capitalized, draw_bar};
use crate::rpg::RpgError;
use crate::rpg::spells::{copy_opt, opt_view, ManaSpellResource, Spell, SpellType, spell_view};
use crate::text::{i64_to_chars, int_decimal, is_dec_digit, is_dec_digit_char, push_chars, push_str, str_to_chars};

verus! {

broadcast use vstd::string::group_string_axioms;

/// The length of the bars of a status readout.
pub const BAR_LENGTH: usize = 17;

fn push_decimal(s: &mut String, n: i64)
    ensures
        final(s)@ == old(s)@ + int_decimal(n as int),
{
    let d = i64_to_chars(n);
    push_chars(s, &d);
}

// ---------------------------------------------------------------------------
// Status readout
// ---------------------------------------------------------------------------

/// What a status readout shows: figures from the stat sheet, and the
/// character's mana.
pub struct StatusFigures {
    pub hp: Option<i64>,
    pub max_hp: Option<i64>,
    pub hunger: Option<i64>,
    pub armour: Option<i64>,
    pub max_armour: Option<i64>,
    pub soul: Option<i64>,
    pub max_soul: Option<i64>,
    pub energy_pool: Option<i64>,
    pub mana: Option<i32>,
}

/// A gauge line: the icon, a bar of the current value (the maximum when
/// none is known) out of the maximum, and the two numbers.
pub open spec fn gauge_line(icon: Seq<char>, current: Option<i64>, max: i64, fg: Seq<char>) -> Seq<
    char,
> {
    let cur = match current {
        Some(c) => c,
        None => max,
    };
    icon + " "@ + bar_text((cur as i32) as int, (max as i32) as int, 17, fg, "⬛"@) + " ``"@
        + int_decimal(cur as int) + " / "@ + int_decimal(max as int) + "\n\n``"@
}

/// Whether a gauge's bar can be drawn.
pub open spec fn gauge_drawable(current: Option<i64>, max: i64, fg: Seq<char>) -> bool {
    let cur = match current {
        Some(c) => c,
        None => max,
    };
    bar_drawable((cur as i32) as int, (max as i32) as int, 17, fg)
}

/// The mana line: a bar of the mana (0 when unknown) out of the energy pool
/// (0 when unknown), and the two numbers.
pub open spec fn mana_line(mana: Option<i32>, pool: Option<i64>, length: nat) -> Seq<char> {
    let m = match mana {
        Some(x) => x as int,
        None => 0,
    };
    let p = match pool {
        Some(x) => x,
        None => 0,
    };
    "🪄 "@ + bar_text(m, (p as i32) as int, length, "🟦"@, "⬛"@) + " ``"@ + int_decimal(m)
        + " / "@ + int_decimal(p as int) + "``\n\n"@
}

/// Whether the mana bar can be drawn.
pub open spec fn mana_drawable(mana: Option<i32>, pool: Option<i64>, length: nat) -> bool {
    let m = match mana {
        Some(x) => x as int,
        None => 0,
    };
    let p = match pool {
        Some(x) => x,
        None => 0,
    };
    bar_drawable(m, (p as i32) as int, length as int, "🟦"@)
}

/// The health line, or a note that the health is unknown.
pub open spec fn health_line(f: StatusFigures) -> Seq<char> {
    match f.max_hp {
        Some(m) => gauge_line("♥️"@, f.hp, m, "🟥"@),
        None => "Current health unknown."@,
    }
}

/// The hunger line (hunger out of 10), if the sheet has hunger.
pub open spec fn hunger_line(f: StatusFigures) -> Seq<char> {
    match f.hunger {
        Some(h) => "🍖 "@ + bar_text((h as i32) as int, 10, 17, "🟨"@, "⬛"@) + " ``"@ + int_decimal(
            h as int,
        ) + " / 10\n\n``"@,
        None => Seq::empty(),
    }
}

/// The armour line, if the sheet has a maximum armour.
pub open spec fn armour_line(f: StatusFigures) -> Seq<char> {
    match f.max_armour {
        Some(m) => gauge_line("🛡️"@, f.armour, m, "⬜"@),
        None => Seq::empty(),
    }
}

/// The soul line, if the sheet has a maximum soul.
pub open spec fn soul_line(f: StatusFigures) -> Seq<char> {
    match f.max_soul {
        Some(m) => gauge_line("👻"@, f.soul, m, "🟪"@),
        None => Seq::empty(),
    }
}

/// Whether every bar of a status readout can be drawn.
pub open spec fn status_drawable(f: StatusFigures) -> bool {
    &&& (f.max_hp matches Some(m) ==> gauge_drawable(f.hp, m, "🟥"@))
    &&& mana_drawable(f.mana, f.energy_pool, 17)
    &&& (f.hunger matches Some(h) ==> bar_drawable((h as i32) as int, 10, 17, "🟨"@))
    &&& (f.max_armour matches Some(m) ==> gauge_drawable(f.armour, m, "⬜"@))
    &&& (f.max_soul matches Some(m) ==> gauge_drawable(f.soul, m, "🟪"@))
}

/// The texts, one after the other.
pub open spec fn concat_texts(s: Seq<Seq<char>>) -> Seq<char>
    decreases s.len(),
{
    if s.len() == 0 {
        Seq::empty()
    } else {
        concat_texts(s.drop_last()) + s.last()
    }
}

/// The line for an active spell: its name and its change per turn.
pub open spec fn active_spell_line(
    s: (Option<Seq<char>>, Option<i32>, Option<SpellType>, Option<Seq<char>>),
) -> Seq<char> {
    "- "@ + match s.0 {
        Some(n) => n,
        None => "No spell name"@,
    } + ": "@ + match s.1 {
        Some(c) => "Mana: "@ + int_decimal(c as int),
        None => "No mana cost"@,
    } + " per turn\n"@
}

/// The active spells of a character, when it has a list of them; the net
/// change shown is always zero (the sum of the changes is not kept).
pub open spec fn active_spells_text(
    active: Option<Seq<(Option<Seq<char>>, Option<i32>, Option<SpellType>, Option<Seq<char>>)>>,
) -> Seq<char> {
    match active {
        None => Seq::empty(),
        Some(list) => "Active Spells:\n"@ + concat_texts(
            list.map_values(
                |s: (Option<Seq<char>>, Option<i32>, Option<SpellType>, Option<Seq<char>>)|
                    active_spell_line(s),
            ),
        ) + "\nNet mana change: Mana: 0 per turn"@,
    }
}

/// Mana spells as plain values.
pub open spec fn spells_view(list: Seq<Spell<ManaSpellResource>>) -> Seq<
    (Option<Seq<char>>, Option<i32>, Option<SpellType>, Option<Seq<char>>),
> {
    list.map_values(|s: Spell<ManaSpellResource>| spell_view(s))
}

/// The body of a status readout.
pub open spec fn status_description(
    f: StatusFigures,
    active: Option<Seq<(Option<Seq<char>>, Option<i32>, Option<SpellType>, Option<Seq<char>>)>>,
) -> Seq<char> {
    "\u{200B}\n"@ + health_line(f) + mana_line(f.mana, f.energy_pool, 17) + hunger_line(f)
        + "\u{200B}"@ + armour_line(f) + soul_line(f) + "\n                \n"@ + active_spells_text(
        active,
    ) + "\n                "@
}

fn push_gauge(s: &mut String, icon: &str, current: Option<i64>, max: i64, fg: &str)
    requires
        gauge_drawable(current, max, fg@),
    ensures
        final(s)@ == old(s)@ + gauge_line(icon@, current, max, fg@),
{
    let cur = match current {
        Some(c) => c,
        None => max,
    };
    push_str(s, icon);
    push_str(s, " ");
    let bar = draw_bar(cur as i32, max as i32, 17, fg, "⬛");
    push_str(s, bar.as_str());
    push_str(s, " ``");
    push_decimal(s, cur);
    push_str(s, " / ");
    push_decimal(s, max);
    push_str(s, "\n\n``");
}

fn gauge_can_draw(current: Option<i64>, max: i64, fg: &str) -> (r: bool)
    ensures
        r == gauge_drawable(current, max, fg@),
{
    let cur = match current {
        Some(c) => c,
        None => max,
    };
    can_draw_bar(cur as i32, max as i32, 17, fg)
}

/// Whether every bar of a status readout can be drawn (see `status_drawable`).
pub fn status_can_draw(f: &StatusFigures) -> (r: bool)
    ensures
        r == status_drawable(*f),
{
    let health = match f.max_hp {
        Some(m) => gauge_can_draw(f.hp, m, "🟥"),
        None => true,
    };
    let p = match f.energy_pool {
        Some(x) => x,
        None => 0,
    };
    let m = match f.mana {
        Some(x) => x,
        None => 0,
    };
    let mana = can_draw_bar(m, p as i32, 17, "🟦");
    let hunger = match f.hunger {
        Some(h) => can_draw_bar(h as i32, 10, 17, "🟨"),
        None => true,
    };
    let armour = match f.max_armour {
        Some(m) => gauge_can_draw(f.armour, m, "⬜"),
        None => true,
    };
    let soul = match f.max_soul {
        Some(m) => gauge_can_draw(f.soul, m, "🟪"),
        None => true,
    };
    health && mana && hunger && armour && soul
}

/// The mana readout: a bar of the character's mana (0 when unknown) out of
/// the energy pool (0 when unknown) and the two numbers; the bar has
/// `bar_length` cells, 17 when none is given.
pub fn get_mana_bar_message(mana: Option<i32>, energy_pool: Option<i64>, bar_length: Option<usize>) -> (r:
    String)
    requires
        mana_drawable(
            mana,
            energy_pool,
            match bar_length {
                Some(l) => l as nat,
                None => 17,
            },
        ),
    ensures
        r@ == mana_line(
            mana,
            energy_pool,
            match bar_length {
                Some(l) => l as nat,
                None => 17,
            },
        ),
{
    let length = match bar_length {
        Some(l) => l,
        None => BAR_LENGTH,
    };
    let m = match mana {
        Some(x) => x,
        None => 0,
    };
    let p = match energy_pool {
        Some(x) => x,
        None => 0,
    };
    let mut s = String::new();
    push_str(&mut s, "🪄 ");
    let bar = draw_bar(m, p as i32, length, "🟦", "⬛");
    push_str(&mut s, bar.as_str());
    push_str(&mut s, " ``");
    push_decimal(&mut s, m as i64);
    push_str(&mut s, " / ");
    push_decimal(&mut s, p);
    push_str(&mut s, "``\n\n");
    s
}

fn active_spells_block(active: Option<&Vec<Spell<ManaSpellResource>>>) -> (r: String)
    ensures
        r@ == active_spells_text(
            match active {
                Some(l) => Some(spells_view(l@)),
                None => None,
            },
        ),
{
    let mut s = String::new();
    match active {
        None => {},
        Some(list) => {
            push_str(&mut s, "Active Spells:\n");
            let ghost lines = spells_view(list@).map_values(
                |x: (Option<Seq<char>>, Option<i32>, Option<SpellType>, Option<Seq<char>>)|
                    active_spell_line(x),
            );
            let mut i: usize = 0;
            while i < list.len()
                invariant
                    i <= list.len(),
                    lines == spells_view(list@).map_values(
                        |x: (Option<Seq<char>>, Option<i32>, Option<SpellType>, Option<Seq<char>>)|
                            active_spell_line(x),
                    ),
                    s@ == "Active Spells:\n"@ + concat_texts(lines.take(i as int)),
                decreases list.len() - i,
            {
                let sp = &list[i];
                let ghost before = s@;
                push_str(&mut s, "- ");
                match &sp.name {
                    Some(n) => push_str(&mut s, n.as_str()),
                    None => push_str(&mut s, "No spell name"),
                }
                push_str(&mut s, ": ");
                match &sp.cost {
                    Some(c) => {
                        let t = c.text();
                        push_str(&mut s, t.as_str());
                    },
                    None => push_str(&mut s, "No mana cost"),
                }
                push_str(&mut s, " per turn\n");
                proof {
                    assert(lines[i as int] == active_spell_line(spell_view(list@[i as int])));
                    assert(s@ == before + lines[i as int]);
                    assert(lines.take(i + 1).drop_last() == lines.take(i as int));
                }
                i = i + 1;
            }
            assert(lines.take(list.len() as int) == lines);
            push_str(&mut s, "\nNet mana change: Mana: 0 per turn");
        },
    }
    s
}

fn health_text(f: &StatusFigures) -> (r: String)
    requires
        f.max_hp matches Some(m) ==> gauge_drawable(f.hp, m, "🟥"@),
    ensures
        r@ == health_line(*f),
{
    let mut s = String::new();
    match f.max_hp {
        Some(m) => push_gauge(&mut s, "♥️", f.hp, m, "🟥"),
        None => push_str(&mut s, "Current health unknown."),
    }
    s
}

fn hunger_text(f: &StatusFigures) -> (r: String)
    requires
        f.hunger matches Some(h) ==> bar_drawable((h as i32) as int, 10, 17, "🟨"@),
    ensures
        r@ == hunger_line(*f),
{
    let mut s = String::new();
    match f.hunger {
        Some(h) => {
            push_str(&mut s, "🍖 ");
            let bar = draw_bar(h as i32, 10, 17, "🟨", "⬛");
            push_str(&mut s, bar.as_str());
            push_str(&mut s, " ``");
            push_decimal(&mut s, h);
            push_str(&mut s, " / 10\n\n``");
        },
        None => {},
    }
    s
}

fn armour_text(f: &StatusFigures) -> (r: String)
    requires
        f.max_armour matches Some(m) ==> gauge_drawable(f.armour, m, "⬜"@),
    ensures
        r@ == armour_line(*f),
{
    let mut s = String::new();
    match f.max_armour {
        Some(m) => push_gauge(&mut s, "🛡️", f.armour, m, "⬜"),
        None => {},
    }
    s
}

fn soul_text(f: &StatusFigures) -> (r: String)
    requires
        f.max_soul matches Some(m) ==> gauge_drawable(f.soul, m, "🟪"@),
    ensures
        r@ == soul_line(*f),
{
    let mut s = String::new();
    match f.max_soul {
        Some(m) => push_gauge(&mut s, "👻", f.soul, m, "🟪"),
        None => {},
    }
    s
}

/// The body of a character's status readout: health, mana, hunger, armour
/// and soul gauges, then the active spells (see `status_description`).
pub fn status_message(f: &StatusFigures, active: Option<&Vec<Spell<ManaSpellResource>>>) -> (r:
    String)
    requires
        status_drawable(*f),
    ensures
        r@ == status_description(
            *f,
            match active {
                Some(l) => Some(spells_view(l@)),
                None => None,
            },
        ),
{
    let health = health_text(f);
    let mana = get_mana_bar_message(f.mana, f.energy_pool, None);
    let hunger = hunger_text(f);
    let armour = armour_text(f);
    let soul = soul_text(f);
    let a = active_spells_block(active);
    let mut s = String::new();
    push_str(&mut s, "\u{200B}\n");
    push_str(&mut s, health.as_str());
    push_str(&mut s, mana.as_str());
    push_str(&mut s, hunger.as_str());
    push_str(&mut s, "\u{200B}");
    push_str(&mut s, armour.as_str());
    push_str(&mut s, soul.as_str());
    push_str(&mut s, "\n                \n");
    push_str(&mut s, a.as_str());
    push_str(&mut s, "\n                ");
    s
}

/// The title of a status readout: the character's name ("No name?" when it
/// has none) and a link to its sheet's channel.
pub fn status_title(name: Option<&str>, channel: Option<&str>) -> (r: String)
    ensures
        r@ == "\n            "@ + match name {
            Some(n) => n@,
            None => "No name?"@,
        } + "\n<#"@ + match channel {
            Some(c) => c@,
            None => ""@,
        } + ">\n            "@,
{
    let mut s = String::new();
    push_str(&mut s, "\n            ");
    match name {
        Some(n) => push_str(&mut s, n),
        None => push_str(&mut s, "No name?"),
    }
    push_str(&mut s, "\n<#");
    match channel {
        Some(c) => push_str(&mut s, c),
        None => push_str(&mut s, ""),
    }
    push_str(&mut s, ">\n            ");
    s
}

/// The footer of a status readout: each stat with its modifier (a tenth of
/// the stat, rounded down), as `| name +modifier`, joined with spaces and
/// closed with ` | `.
pub open spec fn stats_footer_text(stats: Seq<(Seq<char>, i64)>) -> Seq<char> {
    crate::common::join_with(
        stats.map_values(|p: (Seq<char>, i64)| "| "@ + p.0 + " +"@ + int_decimal(p.1 as int)),
        " "@,
    ) + " | "@
}

/// Builds the footer of a status readout from each stat's name and modifier.
pub fn stats_footer(stats: &Vec<(String, i64)>) -> (r: String)
    ensures
        r@ == stats_footer_text(stats@.map_values(|p: (String, i64)| (p.0@, p.1))),
{
    let ghost sv = stats@.map_values(|p: (String, i64)| (p.0@, p.1));
    let ghost parts = sv.map_values(
        |p: (Seq<char>, i64)| "| "@ + p.0 + " +"@ + int_decimal(p.1 as int),
    );
    let mut s = String::new();
    let mut i: usize = 0;
    while i < stats.len()
        invariant
            i <= stats.len(),
            sv == stats@.map_values(|p: (String, i64)| (p.0@, p.1)),
            parts == sv.map_values(
                |p: (Seq<char>, i64)| "| "@ + p.0 + " +"@ + int_decimal(p.1 as int),
            ),
            s@ == crate::common::join_with(parts.take(i as int), " "@),
        decreases stats.len() - i,
    {
        let ghost before = s@;
        if i > 0 {
            push_str(&mut s, " ");
        }
        push_str(&mut s, "| ");
        push_str(&mut s, stats[i].0.as_str());
        push_str(&mut s, " +");
        push_decimal(&mut s, stats[i].1);
        proof {
            assert(parts.take(i + 1).drop_last() == parts.take(i as int));
            assert(parts.take(i + 1).last() == parts[i as int]);
            if i == 0 {
                assert(s@ == parts[0]);
            }
        }
        i = i + 1;
    }
    assert(parts.take(stats.len() as int) == parts);
    push_str(&mut s, " | ");
    s
}

// ---------------------------------------------------------------------------
// Casting spells
// ---------------------------------------------------------------------------

/// A mana spell as plain values: name, mana change, kind, cast time.
pub type SpellFacts = (Option<Seq<char>>, Option<i32>, Option<SpellType>, Option<Seq<char>>);

/// What casting a spell does.
#[derive(Debug, Clone, Copy, PartialEq, Eq, Structural)]
pub enum CastOutcome {
    /// A single spell is cast; the character's mana becomes the value.
    Cast(i32),
    /// A single spell needs more mana than the character has.
    NotEnoughMana,
    /// A toggle spell becomes active.
    Enabled,
    /// A toggle spell was active; it is switched off.
    Disabled,
    /// Summon spells cannot be cast.
    SummonUnsupported,
    /// The spell's kind is unknown.
    UnknownType,
}

/// The mana a spell is cast from: the character's, or the energy pool when
/// the character's is unknown.
pub open spec fn mana_before_cast(mana: Option<i32>, max_mana: Option<i64>) -> int {
    match mana {
        Some(m) => m as int,
        None => match max_mana {
            Some(p) => (p as i32) as int,
            None => 0,
        },
    }
}

/// Whether a spell with this name is among the active ones.
pub open spec fn name_active(active: Seq<SpellFacts>, name: Option<Seq<char>>) -> bool {
    exists|j: int| 0 <= j < active.len() && (#[trigger] active[j]).0 == name
}

/// The active spells without those of the given name, in order.
pub open spec fn without_name(active: Seq<SpellFacts>, name: Option<Seq<char>>) -> Seq<SpellFacts>
    decreases active.len(),
{
    if active.len() == 0 {
        Seq::empty()
    } else {
        let rest = without_name(active.drop_last(), name);
        if active.last().0 == name {
            rest
        } else {
            rest.push(active.last())
        }
    }
}

/// The active spells after a cast with this outcome: a toggle spell that is
/// enabled joins the end of the list, one that is disabled leaves it.
pub open spec fn active_after_cast(
    spell: SpellFacts,
    outcome: Result<CastOutcome, RpgError>,
    active: Seq<SpellFacts>,
) -> Seq<SpellFacts> {
    match outcome {
        Ok(CastOutcome::Enabled) => active.push(spell),
        Ok(CastOutcome::Disabled) => without_name(active, spell.0),
        _ => active,
    }
}

/// What casting `spell` gives, from the character's mana, the energy pool and
/// the active spells.  The energy pool must be known, whatever the kind.
pub open spec fn cast_result(
    spell: SpellFacts,
    mana: Option<i32>,
    max_mana: Option<i64>,
    active: Seq<SpellFacts>,
) -> Result<CastOutcome, RpgError> {
    if max_mana is None {
        Err(RpgError::NoMaxEnergy)
    } else {
        let m = mana_before_cast(mana, max_mana);
        match spell.2 {
            Some(SpellType::Single) => match spell.1 {
                None => Err(RpgError::NoSpellCost),
                Some(c) => if m + c >= 0 {
                    Ok(CastOutcome::Cast((m + c) as i32))
                } else {
                    Ok(CastOutcome::NotEnoughMana)
                },
            },
            Some(SpellType::Toggle) => if name_active(active, spell.0) {
                Ok(CastOutcome::Disabled)
            } else {
                Ok(CastOutcome::Enabled)
            },
            Some(SpellType::Summon) => Ok(CastOutcome::SummonUnsupported),
            _ => Ok(CastOutcome::UnknownType),
        }
    }
}

/// Whether the new mana of a single spell fits in `i32`.
pub open spec fn cast_fits(spell: SpellFacts, mana: Option<i32>, max_mana: Option<i64>) -> bool {
    (max_mana is Some && spell.2 == Some(SpellType::Single) && spell.1 is Some) ==> i32::MIN
        <= mana_before_cast(mana, max_mana) + spell.1.unwrap() <= i32::MAX
}

/// Whether two optional names are the same.
pub fn same_name(a: &Option<String>, b: &Option<String>) -> (r: bool)
    ensures
        r == (opt_view(*a) == opt_view(*b)),
{
    match (a, b) {
        (Some(x), Some(y)) => crate::text::str_eq(x.as_str(), y.as_str()),
        (None, None) => true,
        _ => false,
    }
}

/// Casts a spell for a character: a single spell spends (or gives) mana when
/// the character has enough; a toggle spell joins the active spells, or is
/// switched off (removed from them) when one of that name is already active.
/// See `cast_result` and `active_after_cast`.
pub fn cast_spell(
    spell: &Spell<ManaSpellResource>,
    mana: Option<i32>,
    max_mana: Option<i64>,
    active: &mut Vec<Spell<ManaSpellResource>>,
) -> (r: Result<CastOutcome, RpgError>)
    requires
        cast_fits(spell_view(*spell), mana, max_mana),
    ensures
        r == cast_result(spell_view(*spell), mana, max_mana, spells_view(old(active)@)),
        spells_view(final(active)@) == active_after_cast(
            spell_view(*spell),
            r,
            spells_view(old(active)@),
        ),
{
    let m: i32 = match max_mana {
        None => {
            return Err(RpgError::NoMaxEnergy);
        },
        Some(p) => match mana {
            Some(x) => x,
            None => p as i32,
        },
    };
    match spell.spell_type {
        Some(SpellType::Single) => match spell.cost {
            None => Err(RpgError::NoSpellCost),
            Some(c) => {
                let new_mana = m + c.mana;
                if new_mana >= 0 {
                    Ok(CastOutcome::Cast(new_mana))
                } else {
                    Ok(CastOutcome::NotEnoughMana)
                }
            },
        },
        Some(SpellType::Toggle) => {
            let ghost av = spells_view(active@);
            let mut found = false;
            let mut j: usize = 0;
            while j < active.len()
                invariant
                    j <= active.len(),
                    av == spells_view(active@),
                    found == exists|k: int| 0 <= k < j && (#[trigger] av[k]).0 == spell_view(*spell).0,
                decreases active.len() - j,
            {
                if same_name(&active[j].name, &spell.name) {
                    assert(av[j as int].0 == spell_view(*spell).0);
                    found = true;
                }
                j = j + 1;
            }
            if found {
                let ghost name = spell_view(*spell).0;
                let mut kept: Vec<Spell<ManaSpellResource>> = Vec::new();
                let mut k: usize = 0;
                while k < active.len()
                    invariant
                        k <= active.len(),
                        av == spells_view(active@),
                        name == spell_view(*spell).0,
                        spells_view(kept@) == without_name(av.take(k as int), name),
                    decreases active.len() - k,
                {
                    assert(av.take(k + 1).drop_last() == av.take(k as int));
                    assert(av.take(k + 1).last() == av[k as int]);
                    if !same_name(&active[k].name, &spell.name) {
                        let c = active[k].copy();
                        let ghost before = spells_view(kept@);
                        kept.push(c);
                        assert(spells_view(kept@) == before.push(av[k as int]));
                    }
                    k = k + 1;
                }
                assert(av.take(active.len() as int) == av);
                *active = kept;
                Ok(CastOutcome::Disabled)
            } else {
                let c = spell.copy();
                active.push(c);
                assert(spells_view(active@) == av.push(spell_view(*spell)));
                Ok(CastOutcome::Enabled)
            }
        },
        Some(SpellType::Summon) => Ok(CastOutcome::SummonUnsupported),
        _ => Ok(CastOutcome::UnknownType),
    }
}

proof fn lemma_without_absent_name(active: Seq<SpellFacts>, name: Option<Seq<char>>)
    requires
        !name_active(active, name),
    ensures
        without_name(active, name) == active,
    decreases active.len(),
{
    if active.len() > 0 {
        let init = active.drop_last();
        assert(!name_active(init, name)) by {
            assert forall|j: int| 0 <= j < init.len() implies (#[trigger] init[j]).0 != name by {
                assert(init[j] == active[j]);
            }
        }
        lemma_without_absent_name(init, name);
        assert(active.last() == active[active.len() - 1]);
        assert(init.push(active.last()) == active);
    }
}

/// Casting a toggle spell twice: the first cast switches it on and adds it to
/// the end of the active spells, the second switches it off, and the active
/// spells are as they were before the first.
pub proof fn toggle_twice_restores(
    spell: SpellFacts,
    mana: Option<i32>,
    max_mana: Option<i64>,
    active: Seq<SpellFacts>,
)
    requires
        spell.2 == Some(SpellType::Toggle),
        max_mana is Some,
        !name_active(active, spell.0),
    ensures
        cast_result(spell, mana, max_mana, active) == Ok::<CastOutcome, RpgError>(
            CastOutcome::Enabled,
        ),
        active_after_cast(spell, cast_result(spell, mana, max_mana, active), active)
            == active.push(spell),
        cast_result(spell, mana, max_mana, active.push(spell)) == Ok::<CastOutcome, RpgError>(
            CastOutcome::Disabled,
        ),
        active_after_cast(
            spell,
            cast_result(spell, mana, max_mana, active.push(spell)),
            active.push(spell),
        ) == active,
{
    let pushed = active.push(spell);
    assert(pushed[active.len() as int] == spell);
    assert(pushed.drop_last() == active);
    assert(pushed.last() == spell);
    lemma_without_absent_name(active, spell.0);
}

/// A toggle spell never spends mana when cast: it is switched on or off.
pub proof fn toggle_spells_cost_no_mana(
    spell: SpellFacts,
    mana: Option<i32>,
    max_mana: Option<i64>,
    active: Seq<SpellFacts>,
)
    requires
        spell.2 == Some(SpellType::Toggle),
    ensures
        !(cast_result(spell, mana, max_mana, active) matches Ok(CastOutcome::Cast(_))),
{
}

/// A single spell spends its cost when the mana covers it, leaving the mana
/// at zero or more, and is refused for lack of mana otherwise.
pub proof fn single_spells_spend_their_cost(
    spell: SpellFacts,
    mana: Option<i32>,
    max_mana: Option<i64>,
    active: Seq<SpellFacts>,
)
    requires
        spell.2 == Some(SpellType::Single),
        max_mana is Some,
        spell.1 is Some,
    ensures
        mana_before_cast(mana, max_mana) + spell.1.unwrap() >= 0 ==> cast_result(
            spell,
            mana,
            max_mana,
            active,
        ) == Ok::<CastOutcome, RpgError>(
            CastOutcome::Cast((mana_before_cast(mana, max_mana) + spell.1.unwrap()) as i32),
        ),
        mana_before_cast(mana, max_mana) + spell.1.unwrap() < 0 ==> cast_result(
            spell,
            mana,
            max_mana,
            active,
        ) == Ok::<CastOutcome, RpgError>(CastOutcome::NotEnoughMana),
{
}

/// The cast time shown for a spell.
pub open spec fn cast_time_text(t: Option<Seq<char>>) -> Seq<char> {
    match t {
        Some(x) => x,
        None => "No cast time found"@,
    }
}

/// The reply to a cast: who cast what (with the spell's name as typed,
/// first letter capitalised), or why nothing was cast.
pub open spec fn cast_reply_text(
    outcome: CastOutcome,
    character_name: Option<Seq<char>>,
    author: Seq<char>,
    spell_arg: Seq<char>,
    spell: SpellFacts,
) -> Seq<char> {
    let spell_name = match spell.0 {
        Some(n) => n,
        None => "Unnamed spell"@,
    };
    match outcome {
        CastOutcome::Cast(_) => (match character_name {
            Some(n) => n,
            None => "Unknown name"@,
        }) + " casts **"@ + capitalized(spell_arg) + "**: (Cast time: "@ + cast_time_text(spell.3)
            + ")\n"@,
        CastOutcome::NotEnoughMana => "Failed to cast **"@ + capitalized(spell_arg)
            + "** (not enough mana)\n"@,
        CastOutcome::Enabled => author + " enabled spell "@ + spell_name,
        CastOutcome::Disabled => author + " disabled spell "@ + spell_name,
        CastOutcome::SummonUnsupported => "Summon spells are currently not supported"@,
        CastOutcome::UnknownType => "Unknown spell type"@,
    }
}

/// The reply to a cast (see `cast_reply_text`).
pub fn cast_reply(
    outcome: CastOutcome,
    character_name: Option<&str>,
    author: &str,
    spell_arg: &str,
    spell: &Spell<ManaSpellResource>,
) -> (r: String)
    ensures
        r@ == cast_reply_text(
            outcome,
            match character_name {
                Some(n) => Some(n@),
                None => None,
            },
            author@,
            spell_arg@,
            spell_view(*spell),
        ),
{
    let mut s = String::new();
    match outcome {
        CastOutcome::Cast(_) => {
            match character_name {
                Some(n) => push_str(&mut s, n),
                None => push_str(&mut s, "Unknown name"),
            }
            push_str(&mut s, " casts **");
            let cap = capitalize_first_letter(spell_arg);
            push_str(&mut s, cap.as_str());
            push_str(&mut s, "**: (Cast time: ");
            match &spell.cast_time {
                Some(t) => push_str(&mut s, t.as_str()),
                None => push_str(&mut s, "No cast time found"),
            }
            push_str(&mut s, ")\n");
        },
        CastOutcome::NotEnoughMana => {
            push_str(&mut s, "Failed to cast **");
            let cap = capitalize_first_letter(spell_arg);
            push_str(&mut s, cap.as_str());
            push_str(&mut s, "** (not enough mana)\n");
        },
        CastOutcome::Enabled | CastOutcome::Disabled => {
            push_str(&mut s, author);
            if outcome == CastOutcome::Enabled {
                push_str(&mut s, " enabled spell ");
            } else {
                push_str(&mut s, " disabled spell ");
            }
            match &spell.name {
                Some(n) => push_str(&mut s, n.as_str()),
                None => push_str(&mut s, "Unnamed spell"),
            }
        },
        CastOutcome::SummonUnsupported => push_str(
            &mut s,
            "Summon spells are currently not supported",
        ),
        CastOutcome::UnknownType => push_str(&mut s, "Unknown spell type"),
    }
    s
}

/// The list of a sheet's spells: a header, then `- name ` on a line each.
pub open spec fn spell_list_text(header: Seq<char>, names: Seq<Seq<char>>) -> Seq<char> {
    header + concat_texts(names.map_values(|n: Seq<char>| "- "@ + n + " \n"@))
}

/// Lists the spells of a sheet; when the spell asked for is missing the
/// header says so ("Spell not found. Available Spells:"), otherwise it is
/// "Available Spells:".
pub fn spell_list_message(not_found: bool, names: &Vec<String>) -> (r: String)
    ensures
        r@ == spell_list_text(
            if not_found {
                "Spell not found. Available Spells: \n"@
            } else {
                "Available Spells: \n"@
            },
            names@.map_values(|n: String| n@),
        ),
{
    let ghost header = if not_found {
        "Spell not found. Available Spells: \n"@
    } else {
        "Available Spells: \n"@
    };
    let ghost nv = names@.map_values(|n: String| n@);
    let ghost lines = nv.map_values(|n: Seq<char>| "- "@ + n + " \n"@);
    let mut s = String::new();
    if not_found {
        push_str(&mut s, "Spell not found. Available Spells: \n");
    } else {
        push_str(&mut s, "Available Spells: \n");
    }
    let mut i: usize = 0;
    while i < names.len()
        invariant
            i <= names.len(),
            nv == names@.map_values(|n: String| n@),
            lines == nv.map_values(|n: Seq<char>| "- "@ + n + " \n"@),
            s@ == header + concat_texts(lines.take(i as int)),
        decreases names.len() - i,
    {
        push_str(&mut s, "- ");
        push_str(&mut s, names[i].as_str());
        push_str(&mut s, " \n");
        assert(lines.take(i + 1).drop_last() == lines.take(i as int));
        i = i + 1;
    }
    assert(lines.take(names.len() as int) == lines);
    s
}

// ---------------------------------------------------------------------------
// Ending a turn
// ---------------------------------------------------------------------------

/// One active spell at the end of a turn: its name, its cast time, and the
/// character's new mana when it was cast (`None` when mana was lacking).
pub struct TurnStep {
    pub spell_name: String,
    pub cast_time: String,
    pub new_mana: Option<i32>,
}

/// What stops the end of a turn at a spell: an unknown energy pool, or a
/// spell with no cost.
pub open spec fn turn_error(s: SpellFacts, max_mana: Option<i64>) -> Option<RpgError> {
    if max_mana is None {
        Some(RpgError::NoMaxEnergy)
    } else if s.1 is None {
        Some(RpgError::NoSpellCost)
    } else {
        None
    }
}

/// The mana before the `j`-th active spell at the end of a turn: each spell
/// cast in order spends (or gives) its cost; a spell the mana does not cover
/// fails and leaves the mana as it was.
pub open spec fn turn_mana(active: Seq<SpellFacts>, start: int, j: int) -> int
    decreases j,
{
    if j <= 0 {
        start
    } else {
        let prev = turn_mana(active, start, j - 1);
        let c = active[j - 1].1.unwrap() as int;
        if prev + c >= 0 {
            prev + c
        } else {
            prev
        }
    }
}

/// What an active spell does at the end of a turn, from the mana before it.
pub open spec fn turn_step(s: SpellFacts, before: int) -> (Seq<char>, Seq<char>, Option<i32>) {
    let c = s.1.unwrap() as int;
    (
        match s.0 {
            Some(n) => n,
            None => "unknown spell name"@,
        },
        cast_time_text(s.3),
        if before + c >= 0 {
            Some((before + c) as i32)
        } else {
            None
        },
    )
}

/// A turn step as plain values.
pub open spec fn step_view(t: TurnStep) -> (Seq<char>, Seq<char>, Option<i32>) {
    (t.spell_name@, t.cast_time@, t.new_mana)
}

/// Whether `steps` are the steps of the first spells of `active`, from the
/// mana `start`.
pub open spec fn steps_match(
    steps: Seq<TurnStep>,
    active: Seq<SpellFacts>,
    start: int,
    max_mana: Option<i64>,
) -> bool {
    &&& steps.len() <= active.len()
    &&& forall|j: int| 0 <= j < steps.len() ==> (#[trigger] turn_error(active[j], max_mana)) is None
    &&& forall|j: int|
        0 <= j < steps.len() ==> step_view(#[trigger] steps[j]) == turn_step(
            active[j],
            turn_mana(active, start, j),
        )
}

/// Whether every spell's new mana fits in `i32`.
pub open spec fn turn_fits(active: Seq<SpellFacts>, start: int) -> bool {
    forall|j: int|
        0 <= j < active.len() && #[trigger] active[j].1 is Some ==> i32::MIN <= turn_mana(
            active,
            start,
            j,
        ) + active[j].1.unwrap() <= i32::MAX
}

/// Ends a turn: each active spell in order spends (or gives) its cost from
/// the character's mana, or fails for lack of it and the turn goes on; the
/// first spell that cannot be handled stops the turn with its error.
pub fn end_turn_steps(
    mana: Option<i32>,
    max_mana: Option<i64>,
    active: &Vec<Spell<ManaSpellResource>>,
) -> (r: (Vec<TurnStep>, Option<RpgError>))
    requires
        turn_fits(spells_view(active@), mana_before_cast(mana, max_mana)),
        i32::MIN <= mana_before_cast(mana, max_mana) <= i32::MAX,
    ensures
        steps_match(r.0@, spells_view(active@), mana_before_cast(mana, max_mana), max_mana),
        r.1 is None ==> r.0.len() == active.len(),
        r.1 is Some ==> r.0.len() < active.len() && r.1 == turn_error(
            spells_view(active@)[r.0.len() as int],
            max_mana,
        ),
{
    let ghost av = spells_view(active@);
    let ghost start = mana_before_cast(mana, max_mana);
    let mut steps: Vec<TurnStep> = Vec::new();
    let mut cur: i32 = match max_mana {
        None => {
            if active.len() == 0 {
                return (steps, None);
            }
            return (steps, Some(RpgError::NoMaxEnergy));
        },
        Some(p) => match mana {
            Some(x) => x,
            None => p as i32,
        },
    };
    let mut i: usize = 0;
    while i < active.len()
        invariant
            i <= active.len(),
            av == spells_view(active@),
            max_mana is Some,
            start == mana_before_cast(mana, max_mana),
            turn_fits(av, start),
            cur == turn_mana(av, start, i as int),
            steps.len() == i,
            steps_match(steps@, av, start, max_mana),
        decreases active.len() - i,
    {
        let sp = &active[i];
        let cost = match sp.cost {
            None => {
                return (steps, Some(RpgError::NoSpellCost));
            },
            Some(c) => c.mana,
        };
        assert(av[i as int].1 == Some(cost));
        let new_mana = cur + cost;
        let mut name = String::new();
        match &sp.name {
            Some(n) => push_str(&mut name, n.as_str()),
            None => push_str(&mut name, "unknown spell name"),
        }
        let mut cast_time = String::new();
        match &sp.cast_time {
            Some(t) => push_str(&mut cast_time, t.as_str()),
            None => push_str(&mut cast_time, "No cast time found"),
        }
        let step = TurnStep {
            spell_name: name,
            cast_time,
            new_mana: if new_mana >= 0 {
                Some(new_mana)
            } else {
                None
            },
        };
        assert(step_view(step) == turn_step(av[i as int], turn_mana(av, start, i as int)));
        let ghost before = steps@;
        steps.push(step);
        assert(steps@ == before.push(step));
        assert forall|j: int| 0 <= j < steps@.len() implies step_view(#[trigger] steps@[j])
            == turn_step(av[j], turn_mana(av, start, j)) by {
            if j < i {
                assert(steps@[j] == before[j]);
            }
        }
        assert forall|j: int| 0 <= j < steps@.len() implies (#[trigger] turn_error(
            av[j],
            max_mana,
        )) is None by {
            if j < i {
                assert(steps_match(before, av, start, max_mana));
            }
        }
        if new_mana >= 0 {
            cur = new_mana;
        }
        i = i + 1;
    }
    (steps, None)
}

/// With a known energy pool and every spell costed, the end of a turn
/// never leaves the mana below zero when it started at zero or more: a
/// spell that would is the one that fails.
pub proof fn turn_mana_stays_non_negative(active: Seq<SpellFacts>, start: int, j: int)
    requires
        start >= 0,
        0 <= j <= active.len(),
    ensures
        turn_mana(active, start, j) >= 0,
    decreases j,
{
    if j > 0 {
        turn_mana_stays_non_negative(active, start, j - 1);
    }
}

/// A spell that fails for lack of mana leaves the mana unchanged for the
/// spells after it; one that is cast moves the mana by its cost.
pub proof fn turn_mana_step(active: Seq<SpellFacts>, start: int, j: int)
    requires
        0 <= j < active.len(),
        active[j].1 is Some,
        turn_fits(active, start),
    ensures
        turn_step(active[j], turn_mana(active, start, j)).2 is None ==> turn_mana(
            active,
            start,
            j + 1,
        ) == turn_mana(active, start, j),
        turn_step(active[j], turn_mana(active, start, j)).2 matches Some(m) ==> turn_mana(
            active,
            start,
            j + 1,
        ) == m,
{
}

/// The message for a turn step: the cast, or the failure for lack of mana.
pub fn turn_step_message(step: &TurnStep, character_name: Option<&str>) -> (r: String)
    ensures
        r@ == match step.new_mana {
            Some(_) => (match character_name {
                Some(n) => n@,
                None => "Unknown name"@,
            }) + " casts **"@ + step.spell_name@ + "**: (Cast time: "@ + step.cast_time@ + ")\n"@,
            None => "Spell "@ + step.spell_name@ + " failed due to lack of mana"@,
        },
{
    let mut s = String::new();
    match step.new_mana {
        Some(_) => {
            match character_name {
                Some(n) => push_str(&mut s, n),
                None => push_str(&mut s, "Unknown name"),
            }
            push_str(&mut s, " casts **");
            push_str(&mut s, step.spell_name.as_str());
            push_str(&mut s, "**: (Cast time: ");
            push_str(&mut s, step.cast_time.as_str());
            push_str(&mut s, ")\n");
        },
        None => {
            push_str(&mut s, "Spell ");
            push_str(&mut s, step.spell_name.as_str());
            push_str(&mut s, " failed due to lack of mana");
        },
    }
    s
}

// ---------------------------------------------------------------------------
// Rolling with a character's stats
// ---------------------------------------------------------------------------

/// Whether the `d` at index `i` starts a bare die: a `d` with no count before
/// it (at the start, or after a character that is not a digit) and a digit
/// after it, as in `d6` or `+d20`.
pub open spec fn bare_die_at(s: Seq<char>, i: int) -> bool {
    &&& 0 <= i < s.len()
    &&& s[i] == 'd'
    &&& (i == 0 || !is_dec_digit(s[i - 1]))
    &&& i + 1 < s.len()
    &&& is_dec_digit(s[i + 1])
}

/// The first `n` characters of `s` with each bare die's `d` written `1d`.
pub open spec fn bare_dice_expanded_upto(s: Seq<char>, n: int) -> Seq<char>
    decreases n,
{
    if n <= 0 {
        Seq::empty()
    } else {
        bare_dice_expanded_upto(s, n - 1) + if bare_die_at(s, n - 1) {
            "1d"@
        } else {
            seq![s[n - 1]]
        }
    }
}

/// A roll expression with every bare die given a count of one: `d6` becomes
/// `1d6` and `2d6+d4` becomes `2d6+1d4`; everything else is kept.
pub open spec fn bare_dice_expanded(s: Seq<char>) -> Seq<char> {
    bare_dice_expanded_upto(s, s.len() as int)
}

/// Gives every bare die of a roll expression a count of one (see
/// `bare_dice_expanded`).
pub fn expand_bare_dice(dice: &str) -> (r: String)
    ensures
        r@ == bare_dice_expanded(dice@),
{
    let v = str_to_chars(dice);
    let n = v.len();
    let mut out = String::new();
    let mut i: usize = 0;
    while i < n
        invariant
            n == v.len(),
            v@ == dice@,
            i <= n,
            out@ == bare_dice_expanded_upto(v@, i as int),
        decreases n - i,
    {
        let c = v[i];
        let bare = c == 'd' && (i == 0 || !is_dec_digit_char(v[i - 1])) && i + 1 < n && is_dec_digit_char(v[i + 1]);
        assert(bare == bare_die_at(v@, i as int));
        if bare {
            push_str(&mut out, "1d");
        } else {
            crate::text::push_char(&mut out, c);
            assert(out@ == bare_dice_expanded_upto(v@, i as int) + seq![c]);
        }
        i = i + 1;
    }
    out
}

/// The modifier a stat gives: a tenth of it, rounded toward zero.
pub open spec fn stat_modifier(v: i64) -> int {
    if v >= 0 {
        v as int / 10
    } else {
        -((-(v as int)) / 10)
    }
}

/// The expression with each stat's name replaced by its modifier, stat by
/// stat in order; stats without a whole-number value are left alone.
pub open spec fn stats_substituted(expr: Seq<char>, stats: Seq<(Seq<char>, Option<i64>)>) -> Seq<
    char,
>
    decreases stats.len(),
{
    if stats.len() == 0 {
        expr
    } else {
        let prev = stats_substituted(expr, stats.drop_last());
        match stats.last().1 {
            Some(v) => crate::text::replace_all(prev, stats.last().0, int_decimal(stat_modifier(v))),
            None => prev,
        }
    }
}

/// After the stats are put in, no stat that has a whole-number value is left
/// under its name anywhere in the expression: every occurrence became its
/// modifier.  (For names written without digits or `-`, the characters a
/// modifier is written with; a name such as `2s` can be made anew by the
/// modifier put in before it.)
pub proof fn every_stat_name_is_replaced(expr: Seq<char>, stats: Seq<(Seq<char>, Option<i64>)>)
    requires
        forall|j: int|
            0 <= j < stats.len() ==> (#[trigger] stats[j]).0.len() > 0
                && crate::text::no_number_chars(stats[j].0),
    ensures
        forall|j: int, k: int|
            0 <= j < stats.len() && (#[trigger] stats[j]).1 is Some ==> !#[trigger] crate::text::occurs_at(
                stats_substituted(expr, stats),
                stats[j].0,
                k,
            ),
    decreases stats.len(),
{
    if stats.len() > 0 {
        let init = stats.drop_last();
        assert forall|j: int| 0 <= j < init.len() implies (#[trigger] init[j]).0.len() > 0
            && crate::text::no_number_chars(init[j].0) by {
            assert(init[j] == stats[j]);
        }
        every_stat_name_is_replaced(expr, init);
        let prev = stats_substituted(expr, init);
        let last = stats.last();
        assert(last == stats[stats.len() - 1]);
        match last.1 {
            Some(v) => {
                let d = int_decimal(stat_modifier(v));
                crate::text::lemma_int_decimal_chars(stat_modifier(v));
                crate::text::lemma_replace_all_removes(prev, last.0, d);
                assert forall|j: int, k: int|
                    0 <= j < stats.len() && (#[trigger] stats[j]).1 is Some implies !#[trigger] crate::text::occurs_at(
                    stats_substituted(expr, stats),
                    stats[j].0,
                    k,
                ) by {
                    if j < stats.len() - 1 {
                        assert(init[j] == stats[j]);
                        assert forall|k2: int| !#[trigger] crate::text::occurs_at(prev, stats[j].0, k2) by {
                            assert(init[j].1 is Some);
                            assert(!crate::text::occurs_at(prev, init[j].0, k2));
                        }
                        crate::text::lemma_replace_all_keeps_absent(prev, last.0, d, stats[j].0);
                    }
                }
            },
            None => {
                assert forall|j: int, k: int|
                    0 <= j < stats.len() && (#[trigger] stats[j]).1 is Some implies !#[trigger] crate::text::occurs_at(
                    stats_substituted(expr, stats),
                    stats[j].0,
                    k,
                ) by {
                    if j < stats.len() - 1 {
                        assert(init[j] == stats[j]);
                        assert(!crate::text::occurs_at(prev, init[j].0, k));
                    }
                }
            },
        }
    }
}

/// Stats as plain values.
pub open spec fn stats_view(stats: Seq<(String, Option<i64>)>) -> Seq<(Seq<char>, Option<i64>)> {
    stats.map_values(|p: (String, Option<i64>)| (p.0@, p.1))
}

/// Puts the stats' modifiers into a roll expression (see `stats_substituted`).
pub fn substitute_stats(expr: &str, stats: &Vec<(String, Option<i64>)>) -> (r: String)
    ensures
        r@ == stats_substituted(expr@, stats_view(stats@)),
{
    let ghost sv = stats_view(stats@);
    let mut cur = crate::text::str_to_chars(expr);
    let mut i: usize = 0;
    while i < stats.len()
        invariant
            i <= stats.len(),
            sv == stats_view(stats@),
            cur@ == stats_substituted(expr@, sv.take(i as int)),
        decreases stats.len() - i,
    {
        assert(sv.take(i + 1).drop_last() == sv.take(i as int));
        assert(sv.take(i + 1).last() == sv[i as int]);
        match stats[i].1 {
            Some(v) => {
                let w = v as i128;
                let m: i128 = if w >= 0 {
                    w / 10
                } else {
                    -((-w) / 10)
                };
                let d = i64_to_chars(m as i64);
                let name = crate::text::str_to_chars(stats[i].0.as_str());
                cur = crate::text::replace_chars(&cur, &name, &d);
            },
            None => {},
        }
        i = i + 1;
    }
    assert(sv.take(stats.len() as int) == sv);
    crate::text::chars_to_string(&cur)
}

/// The expression rolled for a character: the one asked for, else the
/// sheet's default roll, else `1d100`.
pub open spec fn chosen_roll(expression: Option<Seq<char>>, default_roll: Option<Seq<char>>) -> Seq<
    char,
> {
    match expression {
        Some(e) => e,
        None => match default_roll {
            Some(d) => d,
            None => "1d100"@,
        },
    }
}

/// Prepares a roll for a character: picks the expression (see
/// `chosen_roll`), gives bare dice a count, and puts in the stats'
/// modifiers.
pub fn prepare_roll(
    expression: Option<&str>,
    default_roll: Option<&str>,
    stats: &Vec<(String, Option<i64>)>,
) -> (r: String)
    ensures
        r@ == stats_substituted(
            bare_dice_expanded(
                chosen_roll(
                    match expression {
                        Some(e) => Some(e@),
                        None => None,
                    },
                    match default_roll {
                        Some(d) => Some(d@),
                        None => None,
                    },
                ),
            ),
            stats_view(stats@),
        ),
{
    let dice = match expression {
        Some(e) => e,
        None => match default_roll {
            Some(d) => d,
            None => "1d100",
        },
    };
    let expanded = expand_bare_dice(dice);
    substitute_stats(expanded.as_str(), stats)
}

/// Whether a roll goes on without the character's stats when its sheet
/// cannot be read: when no character is selected or a sheet is missing.
pub fn stat_error_tolerated(e: RpgError) -> (r: bool)
    ensures
        r == (e == RpgError::NoCharacterSelected || e == RpgError::NoCharacterSheet || e
            == RpgError::NoSpellSheet),
{
    match e {
        RpgError::NoCharacterSelected | RpgError::NoCharacterSheet | RpgError::NoSpellSheet => true,
        _ => false,
    }
}

/// The buttons of a roll with disadvantage, a plain roll, and a roll with
/// advantage: their labels and the expressions they roll.
pub fn advantage_rolls(base: &str) -> (r: Vec<(String, String)>)
    ensures
        r@.map_values(|p: (String, String)| (p.0@, p.1@)) == seq![
            ("🎲 disadvantage"@, "min("@ + base@ + ","@ + base@ + ")"@),
            ("🎲"@, base@),
            ("🎲 advantage"@, "max("@ + base@ + ","@ + base@ + ")"@),
        ],
{
    let mut v: Vec<(String, String)> = Vec::new();
    let mut l1 = String::new();
    push_str(&mut l1, "🎲 disadvantage");
    let mut d1 = String::new();
    push_str(&mut d1, "min(");
    push_str(&mut d1, base);
    push_str(&mut d1, ",");
    push_str(&mut d1, base);
    push_str(&mut d1, ")");
    v.push((l1, d1));
    let mut l2 = String::new();
    push_str(&mut l2, "🎲");
    let mut d2 = String::new();
    push_str(&mut d2, base);
    v.push((l2, d2));
    let mut l3 = String::new();
    push_str(&mut l3, "🎲 advantage");
    let mut d3 = String::new();
    push_str(&mut d3, "max(");
    push_str(&mut d3, base);
    push_str(&mut d3, ",");
    push_str(&mut d3, base);
    push_str(&mut d3, ")");
    v.push((l3, d3));
    assert(v@.map_values(|p: (String, String)| (p.0@, p.1@)) =~= seq![
        ("🎲 disadvantage"@, "min("@ + base@ + ","@ + base@ + ")"@),
        ("🎲"@, base@),
        ("🎲 advantage"@, "max("@ + base@ + ","@ + base@ + ")"@),
    ]);
    v
}

fn stat_roll(label: &str, base: &str, stat: &str) -> (r: (String, String))
    ensures
        r.0@ == label@,
        r.1@ == base@ + stat@,
{
    let mut l = String::new();
    push_str(&mut l, label);
    let mut d = String::new();
    push_str(&mut d, base);
    push_str(&mut d, stat);
    (l, d)
}

/// The buttons that roll with one of the five stats added: their labels and
/// the expressions they roll.
pub fn stat_rolls(base: &str) -> (r: Vec<(String, String)>)
    ensures
        r@.map_values(|p: (String, String)| (p.0@, p.1@)) == seq![
            ("💪"@, base@ + "+str"@),
            ("🐇"@, base@ + "+agl"@),
            ("🛡️"@, base@ + "+con"@),
            ("🧠"@, base@ + "+kno"@),
            ("💬"@, base@ + "+cha"@),
        ],
{
    let mut v: Vec<(String, String)> = Vec::new();
    v.push(stat_roll("💪", base, "+str"));
    v.push(stat_roll("🐇", base, "+agl"));
    v.push(stat_roll("🛡️", base, "+con"));
    v.push(stat_roll("🧠", base, "+kno"));
    v.push(stat_roll("💬", base, "+cha"));
    assert(v@.map_values(|p: (String, String)| (p.0@, p.1@)) =~= seq![
        ("💪"@, base@ + "+str"@),
        ("🐇"@, base@ + "+agl"@),
        ("🛡️"@, base@ + "+con"@),
        ("🧠"@, base@ + "+kno"@),
        ("💬"@, base@ + "+cha"@),
    ]);
    v
}

// ---------------------------------------------------------------------------
// Characters
// ---------------------------------------------------------------------------

/// What the character list shows of a character: name, id, sheet channel.
pub type CharacterFacts = (Option<Seq<char>>, Option<i32>, Option<Seq<char>>);

/// The entry for one character.
pub open spec fn character_entry(c: CharacterFacts) -> Seq<char> {
    "- **"@ + match c.0 {
        Some(n) => n,
        None => "No name provided"@,
    } + "**\n-# <#"@ + match c.2 {
        Some(ch) => ch,
        None => "No channel ID"@,
    } + "> [#"@ + int_decimal(
        match c.1 {
            Some(i) => i as int,
            None => -1,
        },
    ) + "]"@
}

/// The list of a player's characters: how many, one entry each (separated
/// by blank lines), then the prompt to change character.
pub open spec fn characters_text(cs: Seq<CharacterFacts>) -> Seq<char> {
    "You have ("@ + int_decimal(cs.len() as int) + ") character(s): Characters:\n"@
        + crate::common::join_with(cs.map_values(|c: CharacterFacts| character_entry(c)), "\n\n"@)
        + "\n\nChange character:"@
}

/// A character as the list shows it.
pub struct CharacterSummary {
    pub name: Option<String>,
    pub id: Option<i32>,
    pub channel_id: Option<String>,
}

/// A character summary as plain values.
pub open spec fn summary_view(c: CharacterSummary) -> CharacterFacts {
    (opt_view(c.name), c.id, opt_view(c.channel_id))
}

fn character_entry_text(c: &CharacterSummary) -> (r: String)
    ensures
        r@ == character_entry(summary_view(*c)),
{
    let mut s = String::new();
    push_str(&mut s, "- **");
    match &c.name {
        Some(n) => push_str(&mut s, n.as_str()),
        None => push_str(&mut s, "No name provided"),
    }
    push_str(&mut s, "**\n-# <#");
    match &c.channel_id {
        Some(ch) => push_str(&mut s, ch.as_str()),
        None => push_str(&mut s, "No channel ID"),
    }
    push_str(&mut s, "> [#");
    let id: i64 = match c.id {
        Some(i) => i as i64,
        None => -1,
    };
    push_decimal(&mut s, id);
    push_str(&mut s, "]");
    s
}

/// The list of a player's characters (see `characters_text`).
pub fn characters_message(cs: &Vec<CharacterSummary>) -> (r: String)
    ensures
        r@ == characters_text(cs@.map_values(|c: CharacterSummary| summary_view(c))),
{
    let ghost cv = cs@.map_values(|c: CharacterSummary| summary_view(c));
    let ghost entries = cv.map_values(|c: CharacterFacts| character_entry(c));
    let mut list = String::new();
    let mut i: usize = 0;
    while i < cs.len()
        invariant
            i <= cs.len(),
            cv == cs@.map_values(|c: CharacterSummary| summary_view(c)),
            entries == cv.map_values(|c: CharacterFacts| character_entry(c)),
            list@ == crate::common::join_with(entries.take(i as int), "\n\n"@),
        decreases cs.len() - i,
    {
        let e = character_entry_text(&cs[i]);
        if i > 0 {
            push_str(&mut list, "\n\n");
        }
        push_str(&mut list, e.as_str());
        proof {
            assert(entries.take(i + 1).drop_last() == entries.take(i as int));
            assert(entries.take(i + 1).last() == entries[i as int]);
            if i == 0 {
                assert(list@ == entries[0]);
            }
        }
        i = i + 1;
    }
    assert(entries.take(cs.len() as int) == entries);
    let mut s = String::new();
    push_str(&mut s, "You have (");
    let count = crate::text::u64_to_string(cs.len() as u64);
    push_str(&mut s, count.as_str());
    push_str(&mut s, ") character(s): Characters:\n");
    push_str(&mut s, list.as_str());
    push_str(&mut s, "\n\nChange character:");
    s
}

/// Whether a player may select a character: its owner may, and so may an
/// administrator.
pub fn may_select(owner: Option<&str>, user_id: &str, is_admin: bool) -> (r: bool)
    ensures
        r == ((owner matches Some(o) && o@ == user_id@) || is_admin),
{
    let owns = match owner {
        Some(o) => crate::text::str_eq(o, user_id),
        None => false,
    };
    owns || is_admin
}

/// The reply to selecting a character.
pub fn selected_message(name: Option<&str>) -> (r: String)
    ensures
        r@ == "Selected character "@ + match name {
            Some(n) => n@,
            None => "No Name"@,
        },
{
    let mut s = String::new();
    push_str(&mut s, "Selected character ");
    match name {
        Some(n) => push_str(&mut s, n),
        None => push_str(&mut s, "No Name"),
    }
    s
}

/// What deleting a character does: whether the player's selection is
/// cleared (it was that character), and whether the character is deleted
/// whoever owns it (for administrators) rather than only if it is the
/// player's.
pub fn deletion_plan(selected: Option<i32>, character_id: i32, is_admin: bool) -> (r: (bool, bool))
    ensures
        r == (selected == Some(character_id), is_admin),
{
    let unset = match selected {
        Some(s) => s == character_id,
        None => false,
    };
    (unset, is_admin)
}

/// The reply to a deletion.
pub fn deleted_message(character_id: i32) -> (r: String)
    ensures
        r@ == "Succesfully deleted character id "@ + int_decimal(character_id as int),
{
    let mut s = String::new();
    push_str(&mut s, "Succesfully deleted character id ");
    push_decimal(&mut s, character_id as i64);
    s
}

/// The reply when a sheet already belongs to a character (id -1 and
/// "No Name" stand in for what the character lacks).
pub open spec fn existing_sheet_text(id: Option<i32>, name: Option<Seq<char>>) -> Seq<char> {
    "There is already a character using that character sheet! (id "@ + int_decimal(
        match id {
            Some(i) => i as int,
            None => -1,
        },
    ) + ", name "@ + match name {
        Some(n) => n,
        None => "No Name"@,
    } + ")"@
}

/// The reply when a sheet already belongs to a character.
pub fn existing_sheet_message(id: Option<i32>, name: Option<&str>) -> (r: String)
    ensures
        r@ == existing_sheet_text(
            id,
            match name {
                Some(n) => Some(n@),
                None => None,
            },
        ),
{
    let mut s = String::new();
    push_str(&mut s, "There is already a character using that character sheet! (id ");
    let i: i64 = match id {
        Some(i) => i as i64,
        None => -1,
    };
    push_decimal(&mut s, i);
    push_str(&mut s, ", name ");
    match name {
        Some(n) => push_str(&mut s, n),
        None => push_str(&mut s, "No Name"),
    }
    push_str(&mut s, ")");
    s
}

/// The reply to creating a character; a player's first character becomes
/// the selected one, and the reply says so.
pub fn created_message(name: &str, selected_as_default: bool) -> (r: String)
    ensures
        r@ == "Character "@ + name@ + " created successfully! "@ + if selected_as_default {
            "(and selected as default)"@
        } else {
            ""@
        },
{
    let mut s = String::new();
    push_str(&mut s, "Character ");
    push_str(&mut s, name);
    push_str(&mut s, " created successfully! ");
    if selected_as_default {
        push_str(&mut s, "(and selected as default)");
    } else {
        push_str(&mut s, "");
    }
    s
}

/// What creating a character from a sheet comes to.
#[derive(Debug, Clone, PartialEq, Eq)]
pub enum CreatePlan {
    /// Nothing is created; the reply is the text.
    Refuse(String),
    /// A character with this name is created from the sheet.
    Create(String),
}

/// Decides what creating a character from a sheet does, from the character
/// that already uses the sheet (its id and name), if any, and the name read
/// from the sheet: `None` when the reading has no name, `Some(None)` when
/// the name is null.  A sheet in use is refused without reading it; a sheet
/// without a name is refused with one of two texts.
pub fn create_plan(existing: Option<(Option<i32>, Option<&str>)>, sheet_name: Option<
    Option<&str>,
>) -> (r: CreatePlan)
    ensures
        existing matches Some((id, n)) ==> (r matches CreatePlan::Refuse(t) && t@
            == existing_sheet_text(
            id,
            match n {
                Some(n) => Some(n@),
                None => None,
            },
        )),
        existing is None && sheet_name is None ==> (r matches CreatePlan::Refuse(t) && t@
            == "Error: No character name detected"@),
        existing is None && sheet_name == Some(None::<&str>) ==> (r matches CreatePlan::Refuse(t)
            && t@ == "Error: No character name found"@),
        existing is None ==> (sheet_name matches Some(Some(n)) ==> (r matches CreatePlan::Create(
            m,
        ) && m@ == n@)),
{
    match existing {
        Some((id, n)) => CreatePlan::Refuse(existing_sheet_message(id, n)),
        None => match sheet_name {
            None => CreatePlan::Refuse(String::from_str("Error: No character name detected")),
            Some(None) => CreatePlan::Refuse(String::from_str("Error: No character name found")),
            Some(Some(n)) => CreatePlan::Create(String::from_str(n)),
        },
    }
}

/// After a character is created: the player's selected character (the new
/// one when none was selected) and the reply.
pub fn select_created(selected: Option<i32>, created: i32, name: &str) -> (r: (Option<i32>, String))
    ensures
        r.0 == if selected is None {
            Some(created)
        } else {
            selected
        },
        r.1@ == "Character "@ + name@ + " created successfully! "@ + if selected is None {
            "(and selected as default)"@
        } else {
            ""@
        },
{
    let first = selected.is_none();
    let chosen = if first {
        Some(created)
    } else {
        selected
    };
    (chosen, created_message(name, first))
}

// ---------------------------------------------------------------------------
// Mana
// ---------------------------------------------------------------------------

/// A character's mana, 0 when unknown.
pub open spec fn known_mana(mana: Option<i32>) -> int {
    match mana {
        Some(m) => m as int,
        None => 0,
    }
}

/// The mana after adding `modifier`.
pub fn added_mana(mana: Option<i32>, modifier: i32) -> (r: i32)
    requires
        i32::MIN <= known_mana(mana) + modifier <= i32::MAX,
    ensures
        r == known_mana(mana) + modifier,
{
    let m = match mana {
        Some(m) => m,
        None => 0,
    };
    m + modifier
}

/// The mana after subtracting `modifier`.
pub fn subtracted_mana(mana: Option<i32>, modifier: i32) -> (r: i32)
    requires
        i32::MIN <= known_mana(mana) - modifier <= i32::MAX,
    ensures
        r == known_mana(mana) - modifier,
{
    let m = match mana {
        Some(m) => m,
        None => 0,
    };
    m - modifier
}

/// Adding an amount of mana and then subtracting it gives back the mana the
/// character had (0 when it was unknown).
pub proof fn add_then_subtract_restores(mana: Option<i32>, modifier: i32)
    requires
        i32::MIN <= known_mana(mana) + modifier <= i32::MAX,
    ensures
        known_mana(Some((known_mana(mana) + modifier) as i32)) - modifier == known_mana(mana),
{
}

/// The reply to a change of mana: by how much it changed.
pub fn mana_change_message(old: Option<i32>, new: i32) -> (r: String)
    requires
        i32::MIN <= new - known_mana(old) <= i32::MAX,
    ensures
        r@ == "Modified energy. Change: "@ + int_decimal(new - known_mana(old)),
{
    let m = match old {
        Some(m) => m,
        None => 0,
    };
    let mut s = String::new();
    push_str(&mut s, "Modified energy. Change: ");
    push_decimal(&mut s, (new - m) as i64);
    s
}

/// The expression a mana formula stands for: each `n` replaced by the
/// character's mana; `None` when the formula has no `n`.
pub fn mana_formula(modifier: &str, mana: Option<i32>) -> (r: Option<String>)
    ensures
        match r {
            Some(e) => modifier@.contains('n') && e@ == crate::text::replace_all(
                modifier@,
                seq!['n'],
                int_decimal(known_mana(mana)),
            ),
            None => !modifier@.contains('n'),
        },
{
    let v = crate::text::str_to_chars(modifier);
    let mut has_n = false;
    let mut i: usize = 0;
    while i < v.len()
        invariant
            i <= v.len(),
            v@ == modifier@,
            has_n == exists|j: int| 0 <= j < i && v@[j] == 'n',
        decreases v.len() - i,
    {
        if v[i] == 'n' {
            has_n = true;
        }
        i = i + 1;
    }
    if !has_n {
        return None;
    }
    let m: i64 = match mana {
        Some(m) => m as i64,
        None => 0,
    };
    let d = i64_to_chars(m);
    let mut n: Vec<char> = Vec::new();
    n.push('n');
    let r = crate::text::replace_chars(&v, &n, &d);
    Some(crate::text::chars_to_string(&r))
}

// ---------------------------------------------------------------------------
// Describing a spell
// ---------------------------------------------------------------------------

/// The description of a spell from the sheet: its name (as typed, first
/// letter capitalised), kind, energy cost or gain, and cast time.
pub open spec fn spell_description_text(
    spell_arg: Seq<char>,
    spell_type: Option<Seq<char>>,
    cost: Option<i64>,
    cast_time: Option<Seq<char>>,
) -> Seq<char> {
    "**"@ + capitalized(spell_arg) + "**:\n> Type: "@ + match spell_type {
        Some(t) => t,
        None => "{unknown}"@,
    } + "\n> Energy "@ + (if cost matches Some(c) && c > 0 {
        "Gain"@
    } else {
        "Cost"@
    }) + ": "@ + match cost {
        Some(c) => int_decimal(c as int),
        None => "unknown"@,
    } + "\n> Cast time: "@ + cast_time_text(cast_time) + "\n"@
}

/// Describes a spell of the sheet (see `spell_description_text`).
pub fn spell_description(
    spell_arg: &str,
    spell_type: Option<&str>,
    cost: Option<i64>,
    cast_time: Option<&str>,
) -> (r: String)
    ensures
        r@ == spell_description_text(
            spell_arg@,
            match spell_type {
                Some(t) => Some(t@),
                None => None,
            },
            cost,
            match cast_time {
                Some(t) => Some(t@),
                None => None,
            },
        ),
{
    let mut s = String::new();
    push_str(&mut s, "**");
    let cap = capitalize_first_letter(spell_arg);
    push_str(&mut s, cap.as_str());
    push_str(&mut s, "**:\n> Type: ");
    match spell_type {
        Some(t) => push_str(&mut s, t),
        None => push_str(&mut s, "{unknown}"),
    }
    push_str(&mut s, "\n> Energy ");
    let gain = match cost {
        Some(c) => c > 0,
        None => false,
    };
    if gain {
        push_str(&mut s, "Gain");
    } else {
        push_str(&mut s, "Cost");
    }
    push_str(&mut s, ": ");
    match cost {
        Some(c) => push_decimal(&mut s, c),
        None => push_str(&mut s, "unknown"),
    }
    push_str(&mut s, "\n> Cast time: ");
    match cast_time {
        Some(t) => push_str(&mut s, t),
        None => push_str(&mut s, "No cast time found"),
    }
    push_str(&mut s, "\n");
    s
}

// ---------------------------------------------------------------------------
// Levelling up
// ---------------------------------------------------------------------------

/// The dice a character rolls per level, in the order the sheet is checked:
/// energy, magic, training; each missing one is an error.
pub fn level_up_dice(
    energy: Option<&str>,
    magic: Option<&str>,
    training: Option<&str>,
) -> (r: Result<(String, String, String), RpgError>)
    ensures
        match r {
            Ok((e, m, t)) => {
                &&& energy is Some && e@ == energy.unwrap()@
                &&& magic is Some && m@ == magic.unwrap()@
                &&& training is Some && t@ == training.unwrap()@
            },
            Err(err) => err == if energy is None {
                RpgError::NoEnergyDie
            } else if magic is None {
                RpgError::NoMagicDie
            } else {
                RpgError::NoTrainingDie
            } && (energy is None || magic is None || training is None),
        },
{
    let e = match energy {
        None => {
            return Err(RpgError::NoEnergyDie);
        },
        Some(x) => x,
    };
    let m = match magic {
        None => {
            return Err(RpgError::NoMagicDie);
        },
        Some(x) => x,
    };
    let t = match training {
        None => {
            return Err(RpgError::NoTrainingDie);
        },
        Some(x) => x,
    };
    let mut es = String::new();
    push_str(&mut es, e);
    let mut ms = String::new();
    push_str(&mut ms, m);
    let mut ts = String::new();
    push_str(&mut ts, t);
    Ok((es, ms, ts))
}

/// The head of a level-up message: the dice per level and a rule.
pub open spec fn level_header(e: Seq<char>, m: Seq<char>, t: Seq<char>) -> Seq<char> {
    "Per Level: \nEnergy: "@ + e + " \\| Magic: "@ + m + " \\| Training: "@ + t
        + "\n\\_\\_\\_\\_\\_\\_\\_\\_\\_\\_\\_\\_\\_\\_\\_\\_\\_\\_\\_\\_\\_\\_\\_\\_\\_\\_\\_\\_\\_\\_\\_\\_\\_\\_\\_\\_\nRolls:"@
}

/// The line for level `i` and its three results.
pub open spec fn level_line(i: int, r: (Seq<char>, Seq<char>, Seq<char>)) -> Seq<char> {
    "\n"@ + int_decimal(i) + ".  ⚡️ "@ + r.0 + "    🐇 "@ + r.1 + "    🏋 "@ + r.2
}

/// The lines for the levels, numbered from 1.
pub open spec fn level_lines(rs: Seq<(Seq<char>, Seq<char>, Seq<char>)>) -> Seq<char>
    decreases rs.len(),
{
    if rs.len() == 0 {
        Seq::empty()
    } else {
        level_lines(rs.drop_last()) + level_line(rs.len() as int, rs.last())
    }
}

/// The numbers the results stand for (their digits).
pub open spec fn result_numbers(rs: Seq<Seq<char>>) -> Seq<i32> {
    rs.map_values(|x: Seq<char>| crate::common::digits_number(x))
}

/// A level-up message: the head and a line per level with the quotes
/// removed, then the totals of each kind of result.
pub open spec fn level_up_text(
    e: Seq<char>,
    m: Seq<char>,
    t: Seq<char>,
    rs: Seq<(Seq<char>, Seq<char>, Seq<char>)>,
) -> Seq<char> {
    crate::text::replace_all(level_header(e, m, t) + level_lines(rs), seq!['"'], Seq::empty())
        + "\n\n**Total**:\n    ⚡️ "@ + int_decimal(
        crate::common::sum_i32(result_numbers(rs.map_values(|r: (Seq<char>, Seq<char>, Seq<char>)| r.0))),
    ) + "    🐇 "@ + int_decimal(
        crate::common::sum_i32(result_numbers(rs.map_values(|r: (Seq<char>, Seq<char>, Seq<char>)| r.1))),
    ) + "    🏋 "@ + int_decimal(
        crate::common::sum_i32(result_numbers(rs.map_values(|r: (Seq<char>, Seq<char>, Seq<char>)| r.2))),
    )
}

/// Whether each kind of result reads as numbers whose running totals fit in
/// `i32`.
pub open spec fn level_results_fit(rs: Seq<(Seq<char>, Seq<char>, Seq<char>)>) -> bool {
    &&& crate::common::numbers_fit(rs.map_values(|r: (Seq<char>, Seq<char>, Seq<char>)| r.0))
    &&& crate::common::numbers_fit(rs.map_values(|r: (Seq<char>, Seq<char>, Seq<char>)| r.1))
    &&& crate::common::numbers_fit(rs.map_values(|r: (Seq<char>, Seq<char>, Seq<char>)| r.2))
}

/// Level results as plain values.
pub open spec fn level_results_view(rs: Seq<(String, String, String)>) -> Seq<
    (Seq<char>, Seq<char>, Seq<char>),
> {
    rs.map_values(|r: (String, String, String)| (r.0@, r.1@, r.2@))
}

fn columns(rs: &Vec<(String, String, String)>) -> (r: (Vec<String>, Vec<String>, Vec<String>))
    ensures
        r.0@.map_values(|s: String| s@) == level_results_view(rs@).map_values(
            |x: (Seq<char>, Seq<char>, Seq<char>)| x.0,
        ),
        r.1@.map_values(|s: String| s@) == level_results_view(rs@).map_values(
            |x: (Seq<char>, Seq<char>, Seq<char>)| x.1,
        ),
        r.2@.map_values(|s: String| s@) == level_results_view(rs@).map_values(
            |x: (Seq<char>, Seq<char>, Seq<char>)| x.2,
        ),
{
    let ghost rv = level_results_view(rs@);
    let mut a: Vec<String> = Vec::new();
    let mut b: Vec<String> = Vec::new();
    let mut c: Vec<String> = Vec::new();
    let mut i: usize = 0;
    while i < rs.len()
        invariant
            i <= rs.len(),
            rv == level_results_view(rs@),
            a@.map_values(|s: String| s@) == rv.map_values(
                |x: (Seq<char>, Seq<char>, Seq<char>)| x.0,
            ).take(i as int),
            b@.map_values(|s: String| s@) == rv.map_values(
                |x: (Seq<char>, Seq<char>, Seq<char>)| x.1,
            ).take(i as int),
            c@.map_values(|s: String| s@) == rv.map_values(
                |x: (Seq<char>, Seq<char>, Seq<char>)| x.2,
            ).take(i as int),
        decreases rs.len() - i,
    {
        assert(rv[i as int] == (rs@[i as int].0@, rs@[i as int].1@, rs@[i as int].2@));
        let mut x = String::new();
        push_str(&mut x, rs[i].0.as_str());
        let mut y = String::new();
        push_str(&mut y, rs[i].1.as_str());
        let mut z = String::new();
        push_str(&mut z, rs[i].2.as_str());
        proof {
            let ca = rv.map_values(|x: (Seq<char>, Seq<char>, Seq<char>)| x.0);
            let cb = rv.map_values(|x: (Seq<char>, Seq<char>, Seq<char>)| x.1);
            let cc = rv.map_values(|x: (Seq<char>, Seq<char>, Seq<char>)| x.2);
            assert(ca.take(i + 1) == ca.take(i as int).push(x@));
            assert(cb.take(i + 1) == cb.take(i as int).push(y@));
            assert(cc.take(i + 1) == cc.take(i as int).push(z@));
        }
        let ghost pa = a@;
        let ghost pb = b@;
        let ghost pc = c@;
        a.push(x);
        b.push(y);
        c.push(z);
        assert(a@.map_values(|s: String| s@) =~= pa.map_values(|s: String| s@).push(x@));
        assert(b@.map_values(|s: String| s@) =~= pb.map_values(|s: String| s@).push(y@));
        assert(c@.map_values(|s: String| s@) =~= pc.map_values(|s: String| s@).push(z@));
        i = i + 1;
    }
    assert(rv.map_values(|x: (Seq<char>, Seq<char>, Seq<char>)| x.0).take(rs.len() as int)
        == rv.map_values(|x: (Seq<char>, Seq<char>, Seq<char>)| x.0));
    assert(rv.map_values(|x: (Seq<char>, Seq<char>, Seq<char>)| x.1).take(rs.len() as int)
        == rv.map_values(|x: (Seq<char>, Seq<char>, Seq<char>)| x.1));
    assert(rv.map_values(|x: (Seq<char>, Seq<char>, Seq<char>)| x.2).take(rs.len() as int)
        == rv.map_values(|x: (Seq<char>, Seq<char>, Seq<char>)| x.2));
    (a, b, c)
}

/// The message for a level-up (see `level_up_text`), from the dice per level
/// and the three results rolled for each level.
pub fn level_up_message(
    energy_die: &str,
    magic_die: &str,
    training_die: &str,
    results: &Vec<(String, String, String)>,
) -> (r: String)
    requires
        level_results_fit(level_results_view(results@)),
        results@.len() < i32::MAX,
    ensures
        r@ == level_up_text(energy_die@, magic_die@, training_die@, level_results_view(results@)),
{
    let ghost rv = level_results_view(results@);
    let mut msg = String::new();
    push_str(&mut msg, "Per Level: \nEnergy: ");
    push_str(&mut msg, energy_die);
    push_str(&mut msg, " \\| Magic: ");
    push_str(&mut msg, magic_die);
    push_str(&mut msg, " \\| Training: ");
    push_str(&mut msg, training_die);
    push_str(&mut msg, "\n\\_\\_\\_\\_\\_\\_\\_\\_\\_\\_\\_\\_\\_\\_\\_\\_\\_\\_\\_\\_\\_\\_\\_\\_\\_\\_\\_\\_\\_\\_\\_\\_\\_\\_\\_\\_\nRolls:");
    let ghost head = msg@;
    let mut i: usize = 0;
    while i < results.len()
        invariant
            i <= results.len(),
            results@.len() < i32::MAX,
            rv == level_results_view(results@),
            msg@ == head + level_lines(rv.take(i as int)),
        decreases results.len() - i,
    {
        push_str(&mut msg, "\n");
        push_decimal(&mut msg, (i + 1) as i64);
        push_str(&mut msg, ".  ⚡️ ");
        push_str(&mut msg, results[i].0.as_str());
        push_str(&mut msg, "    🐇 ");
        push_str(&mut msg, results[i].1.as_str());
        push_str(&mut msg, "    🏋 ");
        push_str(&mut msg, results[i].2.as_str());
        proof {
            assert(rv.take(i + 1).drop_last() == rv.take(i as int));
            assert(rv.take(i + 1).last() == rv[i as int]);
            assert(msg@ =~= head + level_lines(rv.take(i + 1)));
        }
        i = i + 1;
    }
    assert(rv.take(results.len() as int) == rv);
    let body = crate::text::str_to_chars(msg.as_str());
    let mut quote: Vec<char> = Vec::new();
    quote.push('"');
    let empty: Vec<char> = Vec::new();
    let cleaned = crate::text::replace_chars(&body, &quote, &empty);
    let mut out = crate::text::chars_to_string(&cleaned);
    let (ca, cb, cc) = columns(results);
    let es = crate::common::total_of_numbers(&ca);
    let ms = crate::common::total_of_numbers(&cb);
    let ts = crate::common::total_of_numbers(&cc);
    push_str(&mut out, "\n\n**Total**:\n    ⚡️ ");
    push_decimal(&mut out, es as i64);
    push_str(&mut out, "    🐇 ");
    push_decimal(&mut out, ms as i64);
    push_str(&mut out, "    🏋 ");
    push_decimal(&mut out, ts as i64);
    out
}

// ---------------------------------------------------------------------------
// The administrators' status readout
// ---------------------------------------------------------------------------

/// The mana buttons of the administrators' readout, in two rows: each
/// button's label and the change it makes.
pub open spec fn admin_mana_table() -> Seq<Seq<(Seq<char>, i64)>> {
    seq![
        seq![("🪄-50"@, -50i64), ("🪄-25"@, -25i64), ("🪄+25"@, 25i64), ("🪄+50"@, 50i64)],
        seq![("🪄-200"@, -200i64), ("🪄-100"@, -100i64), ("🪄+100"@, 100i64), ("🪄+200"@, 200i64)],
    ]
}

fn mana_button(label: &str, change: i64) -> (r: (String, i64))
    ensures
        r.0@ == label@,
        r.1 == change,
{
    let mut s = String::new();
    push_str(&mut s, label);
    (s, change)
}

/// The mana buttons of the administrators' readout (see `admin_mana_table`).
pub fn admin_mana_buttons() -> (r: Vec<Vec<(String, i64)>>)
    ensures
        r@.map_values(|row: Vec<(String, i64)>| row@.map_values(|b: (String, i64)| (b.0@, b.1)))
            == admin_mana_table(),
{
    let mut first: Vec<(String, i64)> = Vec::new();
    first.push(mana_button("🪄-50", -50));
    first.push(mana_button("🪄-25", -25));
    first.push(mana_button("🪄+25", 25));
    first.push(mana_button("🪄+50", 50));
    let mut second: Vec<(String, i64)> = Vec::new();
    second.push(mana_button("🪄-200", -200));
    second.push(mana_button("🪄-100", -100));
    second.push(mana_button("🪄+100", 100));
    second.push(mana_button("🪄+200", 200));
    assert(first@.map_values(|b: (String, i64)| (b.0@, b.1)) =~= admin_mana_table()[0]);
    assert(second@.map_values(|b: (String, i64)| (b.0@, b.1)) =~= admin_mana_table()[1]);
    let mut rows: Vec<Vec<(String, i64)>> = Vec::new();
    rows.push(first);
    rows.push(second);
    assert(rows@.map_values(
        |row: Vec<(String, i64)>| row@.map_values(|b: (String, i64)| (b.0@, b.1)),
    ) =~= admin_mana_table());
    rows
}

} // verus!
