use ordis::text::{i64_to_string, u64_to_string};
use ordis::common::{
    author_colour, can_draw_bar, capitalize_first_letter, checked_sum, custom_emoji_name,
    draw_bar, emoji_display, emojify_char, emojify_custom, emojify_string, format_emoji_string,
    get_channel_tags, guild_ids, handler_name, hash, join_to_string, role_colour,
    safe_to_number, safe_to_u64, strip_non_numerical, sum_array, total_of_numbers, uid_to_rgb,
    Emoji, EmojiError,
};

#[test]
fn uid_to_rgb_takes_lowest_bytes() {
    assert_eq!(uid_to_rgb(0x00AB_CDEF), (0xEF, 0xCD, 0xAB));
    assert_eq!(uid_to_rgb(0xFF00_0000_0001_0203), (0x03, 0x02, 0x01));
}

#[test]
fn draw_bar_rounds_to_nearest_cell() {
    assert_eq!(draw_bar(5, 10, 17, "#", "-"), "#########--------");
    assert_eq!(draw_bar(0, 10, 4, "#", "-"), "----");
    assert_eq!(draw_bar(10, 10, 4, "#", "-"), "####");
    assert_eq!(draw_bar(-3, 10, 4, "#", "-"), "----");
    assert_eq!(draw_bar(20, 10, 4, "#", "-"), "########");
    assert_eq!(draw_bar(1, 3, 3, "🟦", "⬛"), "🟦⬛⬛");
}

#[test]
fn draw_bar_with_zero_maximum() {
    assert!(!can_draw_bar(5, 0, 17, "#"));
    assert!(can_draw_bar(0, 0, 17, "#"));
    assert_eq!(draw_bar(0, 0, 3, "#", "-"), "---");
    assert!(can_draw_bar(5, 0, 17, ""));
}

#[test]
fn capitalize_first_letter_cases() {
    assert_eq!(capitalize_first_letter("fireball"), "Fireball");
    assert_eq!(capitalize_first_letter(""), "");
    assert_eq!(capitalize_first_letter("élan"), "Élan");
    assert_eq!(capitalize_first_letter("ß"), "SS");
}

#[test]
fn numbers_from_text() {
    assert_eq!(strip_non_numerical("a1b2c3"), "123");
    assert_eq!(safe_to_number("x42y"), 42);
    assert_eq!(safe_to_number("none"), 0);
    assert_eq!(safe_to_u64("id: 18446744073709551615"), u64::MAX);
    assert_eq!(safe_to_u64(""), 0);
}

#[test]
fn joining_and_summing() {
    assert_eq!(join_to_string(&[1, -2, 30], ", "), "1, -2, 30");
    assert_eq!(join_to_string(&[], ", "), "");
    assert_eq!(sum_array(&vec![1, 2, 3, -4]), 2);
    assert_eq!(checked_sum(&vec![i32::MAX, 1]), None);
    assert_eq!(checked_sum(&vec![i32::MAX, -1]), Some(i32::MAX - 1));
    assert_eq!(checked_sum(&vec![]), Some(0));
}

#[test]
fn total_of_written_numbers() {
    let v = vec!["\"7\"".to_string(), "12".to_string(), "none".to_string()];
    assert_eq!(total_of_numbers(&v), 19);
}

#[test]
fn hash_is_sha256_hex() {
    assert_eq!(
        hash("abc"),
        "ba7816bf8f01cfea414140de5dae2223b00361a396177a9cb410ff61f20015ad"
    );
    assert_eq!(
        hash(""),
        "e3b0c44298fc1c149afbf4c8996fb92427ae41e4649b934ca495991b7852b855"
    );
}

#[test]
fn emoji_texts() {
    let e = Emoji { name: "a_dark".to_string(), id: 123, animated: false };
    assert_eq!(format_emoji_string(&e), "<:a_dark:123>");
    assert_eq!(emoji_display(&e), "<:a_dark:123>");
    let a = Emoji { name: "spin".to_string(), id: 9, animated: true };
    assert_eq!(emoji_display(&a), "<a:spin:9>");
    assert_eq!(emojify_char('A', None, None), ":regional_indicator_a:");
    assert_eq!(emojify_char('b', Some("{}_dark"), None), "b_dark");
    assert_eq!(emojify_char('b', Some("{}_dark"), Some(&e)), "<:a_dark:123>");
    assert_eq!(emojify_string("Hi"), ":regional_indicator_h: :regional_indicator_i: ");
    assert_eq!(custom_emoji_name('Q', "{}_yellow"), "q_yellow");
    assert_eq!(emojify_custom("ab", &vec![Some(e), None]), "<:a_dark:123> b ");
    assert_eq!(EmojiError::NotFound.message(), "NotFound");
}

#[test]
fn handler_names_are_last_path_segment() {
    assert_eq!(handler_name("ordis::rpg::mir::RollEvent"), "RollEvent");
    assert_eq!(handler_name("RollEvent"), "RollEvent");
    assert_eq!(handler_name("a::::b"), "b");
    assert_eq!(handler_name("a::"), "");
}

#[test]
fn role_colours() {
    assert_eq!(role_colour(&vec![]), None);
    assert_eq!(role_colour(&vec![(1, 0), (2, 0)]), None);
    assert_eq!(role_colour(&vec![(1, 0x112233), (5, 0), (3, 0x445566)]), Some(0x445566));
    assert_eq!(role_colour(&vec![(3, 0x000001), (3, 0x000002)]), Some(0x000002));
    assert_eq!(author_colour(Some(0xABCDEF), 7), 0xABCDEF);
    assert_eq!(author_colour(None, 0x00AB_CDEF), 0xEFCDAB);
}

#[test]
fn channel_tags_are_always_empty() {
    assert!(get_channel_tags(Some("-rp dice,spells\n-lang en")).is_empty());
    assert!(get_channel_tags(None).is_empty());
}

#[test]
fn guild_id_lists() {
    assert_eq!(guild_ids("123, 456,x"), vec![123, 456, 0]);
    assert_eq!(guild_ids(""), vec![0]);
}

#[test]
fn written_numbers_read_back() {
    for n in [0u64, 7, 10, 12345, u64::MAX] {
        assert_eq!(safe_to_u64(&u64_to_string(n)), n);
    }
    assert_eq!(safe_to_number(&i64_to_string(2024)), 2024);
}
