use ordis::rpg::mir::buff_formula::parse_formula;
use ordis::rpg::mir::event_handlers::{ChangeCharacterEvent, ChangeManaEvent, RollEvent};
use ordis::rpg::mir::{
    added_mana, admin_mana_buttons, advantage_rolls, cast_reply, cast_spell, characters_message,
    create_plan, created_message, deleted_message, select_created, CreatePlan, deletion_plan, end_turn_steps, existing_sheet_message,
    get_mana_bar_message, level_up_dice, level_up_message, mana_change_message, mana_formula,
    expand_bare_dice, may_select, prepare_roll, selected_message, spell_description, spell_list_message,
    stat_error_tolerated, stat_rolls, stats_footer, status_can_draw, status_message,
    status_title, substitute_stats, subtracted_mana, turn_step_message, CastOutcome,
    CharacterSummary, StatusFigures,
};
use ordis::rpg::spells::{ManaSpellResource, Spell, SpellResource, SpellType};
use ordis::rpg::{sheet_changed, sheet_text, RpgError};

fn spell(name: &str, cost: Option<i32>, kind: SpellType) -> Spell<ManaSpellResource> {
    Spell {
        name: Some(name.to_string()),
        cost: cost.map(|mana| ManaSpellResource { mana }),
        spell_type: Some(kind),
        cast_time: Some("1 action".to_string()),
    }
}

#[test]
fn formulas_are_read() {
    let p = parse_formula("Strength += 2 * level").unwrap();
    assert_eq!((p.target.as_str(), p.op.as_str(), p.expr.as_str()), ("strength", "+=", "2 * level"));
    let q = parse_formula("hp -= 3").unwrap();
    assert_eq!(q.op, "-=");
    assert!(parse_formula("+= 3").is_none());
    assert!(parse_formula("hp += ").is_none());
    assert!(parse_formula("hp = 3").is_none());
    let r = parse_formula("a += b -= c").unwrap();
    assert_eq!((r.target.as_str(), r.expr.as_str()), ("a", "b -= c"));
    let s = parse_formula("x /= 2").unwrap();
    assert_eq!(s.op, "/=");
}

#[test]
fn error_messages() {
    assert_eq!(RpgError::SpellNotFound.message(), "Spell not found");
    assert_eq!(
        RpgError::NoMaxEnergy.message(),
        "Energy pool appears to be missing from your stat block"
    );
    assert_eq!(RpgError::TestingError.message(), "Testing");
}

#[test]
fn sheets_are_shown() {
    assert_eq!(sheet_text(Some("{}"), Some("text"), "No stat sheet found"), "{}");
    assert_eq!(sheet_text(None, Some("text"), "No stat sheet found"), "text");
    assert_eq!(sheet_text(None, None, "No stat sheet found"), "No stat sheet found");
    assert!(sheet_changed(None, "abc"));
    assert!(sheet_changed(Some("abd"), "abc"));
    assert!(!sheet_changed(Some("abc"), "abc"));
}

#[test]
fn spell_kinds() {
    assert_eq!(SpellType::from_str("toggle"), Ok(SpellType::Toggle));
    assert_eq!(SpellType::from_str("Toggle"), Ok(SpellType::Unknown));
    assert_eq!(SpellType::Summon.as_str(), "summon");
    let mut a = ManaSpellResource { mana: -5 };
    let b = ManaSpellResource { mana: 3 };
    assert_eq!(a.add(&b).mana, -2);
    assert_eq!(a.mana, -5);
    assert_eq!(ManaSpellResource { mana: -5 }.text(), "Mana: -5");
}

#[test]
fn single_spells_spend_mana() {
    let mut active = vec![];
    let fire = spell("fireball", Some(-30), SpellType::Single);
    assert_eq!(cast_spell(&fire, Some(40), Some(100), &mut active), Ok(CastOutcome::Cast(10)));
    assert_eq!(cast_spell(&fire, None, Some(100), &mut active), Ok(CastOutcome::Cast(70)));
    assert_eq!(cast_spell(&fire, Some(20), Some(100), &mut active), Ok(CastOutcome::NotEnoughMana));
    assert_eq!(cast_spell(&fire, Some(40), None, &mut active), Err(RpgError::NoMaxEnergy));
    let free = spell("light", None, SpellType::Single);
    assert_eq!(cast_spell(&free, Some(40), Some(1), &mut active), Err(RpgError::NoSpellCost));
    assert!(active.is_empty());
}

#[test]
fn toggle_spells_switch_on_and_off() {
    let mut active = vec![];
    let shield = spell("shield", Some(-5), SpellType::Toggle);
    let haste = spell("haste", Some(-3), SpellType::Toggle);
    assert_eq!(cast_spell(&shield, Some(40), Some(100), &mut active), Ok(CastOutcome::Enabled));
    assert_eq!(cast_spell(&haste, Some(40), Some(100), &mut active), Ok(CastOutcome::Enabled));
    assert_eq!(active.len(), 2);
    assert_eq!(cast_spell(&shield, Some(40), Some(100), &mut active), Ok(CastOutcome::Disabled));
    assert_eq!(active.len(), 1);
    assert_eq!(active[0].name, Some("haste".to_string()));
    assert_eq!(cast_spell(&shield, Some(40), Some(100), &mut active), Ok(CastOutcome::Enabled));
    assert_eq!(active.len(), 2);
    assert_eq!(active[1].name, Some("shield".to_string()));
    let summon = spell("wolf", Some(-5), SpellType::Summon);
    assert_eq!(cast_spell(&summon, None, Some(1), &mut active), Ok(CastOutcome::SummonUnsupported));
    let odd = Spell { spell_type: None, ..spell("odd", Some(1), SpellType::Single) };
    assert_eq!(cast_spell(&odd, None, Some(1), &mut active), Ok(CastOutcome::UnknownType));
}

#[test]
fn cast_replies() {
    let fire = spell("fireball", Some(-30), SpellType::Single);
    assert_eq!(
        cast_reply(CastOutcome::Cast(10), Some("Vex"), "tenno", "fireball", &fire),
        "Vex casts **Fireball**: (Cast time: 1 action)\n"
    );
    assert_eq!(
        cast_reply(CastOutcome::NotEnoughMana, None, "tenno", "fireball", &fire),
        "Failed to cast **Fireball** (not enough mana)\n"
    );
    assert_eq!(
        cast_reply(CastOutcome::Enabled, None, "tenno", "shield", &fire),
        "tenno enabled spell fireball"
    );
    assert_eq!(
        cast_reply(CastOutcome::Disabled, None, "tenno", "shield", &fire),
        "tenno disabled spell fireball"
    );
    assert_eq!(
        spell_list_message(true, &vec!["a".to_string(), "b".to_string()]),
        "Spell not found. Available Spells: \n- a \n- b \n"
    );
    assert_eq!(spell_list_message(false, &vec![]), "Available Spells: \n");
}

#[test]
fn end_of_turn() {
    let active = vec![
        spell("shield", Some(-30), SpellType::Toggle),
        spell("drain", Some(-60), SpellType::Toggle),
        spell("regen", Some(5), SpellType::Toggle),
    ];
    let (steps, err) = end_turn_steps(Some(50), Some(100), &active);
    assert!(err.is_none());
    let news: Vec<Option<i32>> = steps.iter().map(|s| s.new_mana).collect();
    assert_eq!(news, vec![Some(20), None, Some(25)]);
    assert_eq!(
        turn_step_message(&steps[0], Some("Vex")),
        "Vex casts **shield**: (Cast time: 1 action)\n"
    );
    assert_eq!(turn_step_message(&steps[1], None), "Spell drain failed due to lack of mana");
    let (none, err2) = end_turn_steps(Some(50), None, &active);
    assert!(none.is_empty());
    assert_eq!(err2, Some(RpgError::NoMaxEnergy));
    let costless = vec![spell("a", Some(-1), SpellType::Toggle), spell("b", None, SpellType::Toggle)];
    let (one, err3) = end_turn_steps(None, Some(10), &costless);
    assert_eq!(one.len(), 1);
    assert_eq!(one[0].new_mana, Some(9));
    assert_eq!(err3, Some(RpgError::NoSpellCost));
}

#[test]
fn mana_readouts() {
    assert_eq!(get_mana_bar_message(Some(5), Some(10), Some(4)), "🪄 🟦🟦⬛⬛ ``5 / 10``\n\n");
    assert_eq!(get_mana_bar_message(None, None, Some(2)), "🪄 ⬛⬛ ``0 / 0``\n\n");
    assert_eq!(added_mana(Some(5), 3), 8);
    assert_eq!(subtracted_mana(None, 3), -3);
    assert_eq!(mana_change_message(Some(5), 8), "Modified energy. Change: 3");
    assert_eq!(mana_formula("n*2", Some(7)), Some("7*2".to_string()));
    assert_eq!(mana_formula("5", Some(7)), None);
}

#[test]
fn status_readouts() {
    let f = StatusFigures {
        hp: Some(5),
        max_hp: Some(10),
        hunger: None,
        armour: None,
        max_armour: None,
        soul: None,
        max_soul: None,
        energy_pool: Some(10),
        mana: Some(10),
    };
    assert!(status_can_draw(&f));
    let text = status_message(&f, None);
    let expected = format!(
        "\u{200B}\n♥️ {} ``5 / 10\n\n``🪄 {} ``10 / 10``\n\n\u{200B}\n                \n\n                ",
        "🟥".repeat(9) + &"⬛".repeat(8),
        "🟦".repeat(17)
    );
    assert_eq!(text, expected);
    let active = vec![spell("shield", Some(-5), SpellType::Toggle)];
    let with_spells = status_message(&f, Some(&active));
    assert!(with_spells.contains(
        "Active Spells:\n- shield: Mana: -5 per turn\n\nNet mana change: Mana: 0 per turn"
    ));
    let unknown = StatusFigures { max_hp: None, ..f };
    assert!(status_message(&unknown, None).contains("Current health unknown."));
    assert_eq!(status_title(None, None), "\n            No name?\n<#>\n            ");
    assert_eq!(
        stats_footer(&vec![("agl".to_string(), 1), ("str".to_string(), -1)]),
        "| agl +1 | str +-1 | "
    );
    assert_eq!(stats_footer(&vec![]), " | ");
}

#[test]
fn rolls_with_stats() {
    let stats = vec![("str".to_string(), Some(25)), ("agl".to_string(), Some(-15)), ("kno".to_string(), None)];
    assert_eq!(substitute_stats("1d20+str+agl+kno", &stats), "1d20+2+-1+kno");
    assert_eq!(prepare_roll(Some("d20+str"), None, &stats), "1d20+2");
    assert_eq!(prepare_roll(None, Some("2d6"), &vec![]), "2d6");
    assert_eq!(prepare_roll(None, None, &vec![]), "1d100");
    assert_eq!(prepare_roll(Some("2+d6"), None, &vec![]), "2+1d6");
    assert_eq!(prepare_roll(Some("8d10, 5d5, d6, 2d100"), None, &vec![]), "8d10, 5d5, 1d6, 2d100");
    assert!(stat_error_tolerated(RpgError::NoCharacterSheet));
    assert!(!stat_error_tolerated(RpgError::NoGuildId));
}

#[test]
fn roll_buttons() {
    let a = advantage_rolls("1d20");
    assert_eq!(a[0], ("🎲 disadvantage".to_string(), "min(1d20,1d20)".to_string()));
    assert_eq!(a[1], ("🎲".to_string(), "1d20".to_string()));
    assert_eq!(a[2].1, "max(1d20,1d20)");
    let s = stat_rolls("1d100");
    assert_eq!(s.len(), 5);
    assert_eq!(s[1], ("🐇".to_string(), "1d100+agl".to_string()));
    let admin = admin_mana_buttons();
    assert_eq!(admin[0][0], ("🪄-50".to_string(), -50));
    assert_eq!(admin[1][3], ("🪄+200".to_string(), 200));
}

#[test]
fn character_management() {
    let cs = vec![
        CharacterSummary { name: Some("Vex".to_string()), id: Some(3), channel_id: Some("99".to_string()) },
        CharacterSummary { name: None, id: None, channel_id: None },
    ];
    assert_eq!(
        characters_message(&cs),
        "You have (2) character(s): Characters:\n- **Vex**\n-# <#99> [#3]\n\n- **No name provided**\n-# <#No channel ID> [#-1]\n\nChange character:"
    );
    assert!(may_select(Some("1"), "1", false));
    assert!(!may_select(Some("1"), "2", false));
    assert!(may_select(None, "2", true));
    assert_eq!(selected_message(None), "Selected character No Name");
    assert_eq!(deletion_plan(Some(4), 4, false), (true, false));
    assert_eq!(deletion_plan(None, 4, true), (false, true));
    assert_eq!(deleted_message(4), "Succesfully deleted character id 4");
    assert_eq!(
        existing_sheet_message(None, Some("Vex")),
        "There is already a character using that character sheet! (id -1, name Vex)"
    );
    assert_eq!(created_message("Vex", true), "Character Vex created successfully! (and selected as default)");
    assert_eq!(created_message("Vex", false), "Character Vex created successfully! ");
}

#[test]
fn spell_descriptions() {
    assert_eq!(
        spell_description("fireball", Some("single"), Some(-30), None),
        "**Fireball**:\n> Type: single\n> Energy Cost: -30\n> Cast time: No cast time found\n"
    );
    assert_eq!(
        spell_description("heal", None, Some(5), Some("1 turn")),
        "**Heal**:\n> Type: {unknown}\n> Energy Gain: 5\n> Cast time: 1 turn\n"
    );
}

#[test]
fn levelling_up() {
    assert_eq!(level_up_dice(Some("a"), None, None), Err(RpgError::NoMagicDie));
    assert_eq!(level_up_dice(None, Some("a"), Some("b")), Err(RpgError::NoEnergyDie));
    let results = vec![
        ("\"3\"".to_string(), "1".to_string(), "2".to_string()),
        ("4".to_string(), "5".to_string(), "6".to_string()),
    ];
    let text = level_up_message("\"1d6\"", "1d4", "1d8", &results);
    let rule = "\\_".repeat(36);
    assert_eq!(
        text,
        format!(
            "Per Level: \nEnergy: 1d6 \\| Magic: 1d4 \\| Training: 1d8\n{rule}\nRolls:\n1.  ⚡️ 3    🐇 1    🏋 2\n2.  ⚡️ 4    🐇 5    🏋 6\n\n**Total**:\n    ⚡️ 7    🐇 6    🏋 8"
        )
    );
}

#[test]
fn event_decisions() {
    assert!(ChangeCharacterEvent::may_switch(Some("12"), "12"));
    assert!(!ChangeCharacterEvent::may_switch(None, "12"));
    assert_eq!(ChangeManaEvent::changed_mana(Some(10), -25), -15);
    assert_eq!(ChangeManaEvent::changed_mana(None, 50), 50);
    assert_eq!(RollEvent::roller_name(None), "Test");
}

#[test]
fn spell_kinds_read_back_their_words() {
    for kind in [SpellType::Single, SpellType::Toggle, SpellType::Summon] {
        assert_eq!(SpellType::from_str(kind.as_str()), Ok(kind));
    }
}

#[test]
fn spells_from_sheets() {
    let s = Spell::<ManaSpellResource>::from_sheet("heal", Some(Some("toggle")), Some(5), Some("\"1 turn\""));
    assert_eq!(s.name.as_deref(), Some("heal"));
    assert_eq!(s.cost.map(|c| c.mana), Some(5));
    assert_eq!(s.spell_type, Some(SpellType::Toggle));
    assert_eq!(s.cast_time.as_deref(), Some("\"1 turn\""));
    let t = Spell::<ManaSpellResource>::from_sheet("x", Some(None), None, None);
    assert_eq!(t.spell_type, Some(SpellType::Unknown));
    let u = Spell::<ManaSpellResource>::from_sheet("x", None, None, None);
    assert_eq!(u.spell_type, None);
}

#[test]
fn bare_dice_get_a_count() {
    assert_eq!(expand_bare_dice("d100"), "1d100");
    assert_eq!(expand_bare_dice("2d6+d4"), "2d6+1d4");
    assert_eq!(expand_bare_dice("d6d6"), "1d6d6");
    assert_eq!(expand_bare_dice("xdd6"), "xd1d6");
    assert_eq!(expand_bare_dice("d"), "d");
    assert_eq!(expand_bare_dice("12d8"), "12d8");
}

#[test]
fn creating_characters() {
    assert_eq!(
        create_plan(Some((Some(7), Some("Vex"))), Some(Some("Hank"))),
        CreatePlan::Refuse("There is already a character using that character sheet! (id 7, name Vex)".to_string())
    );
    assert_eq!(
        create_plan(None, None),
        CreatePlan::Refuse("Error: No character name detected".to_string())
    );
    assert_eq!(
        create_plan(None, Some(None)),
        CreatePlan::Refuse("Error: No character name found".to_string())
    );
    assert_eq!(create_plan(None, Some(Some("Hank"))), CreatePlan::Create("Hank".to_string()));
    assert_eq!(
        select_created(None, 12, "Hank"),
        (Some(12), "Character Hank created successfully! (and selected as default)".to_string())
    );
    assert_eq!(
        select_created(Some(3), 12, "Hank"),
        (Some(3), "Character Hank created successfully! ".to_string())
    );
}

#[test]
fn formulas_with_non_ascii_targets_read() {
    let p = parse_formula(" É += 2 ").unwrap();
    assert_eq!(p.target, "é");
    assert_eq!(p.op, "+=");
    assert_eq!(p.expr, "2");
}
