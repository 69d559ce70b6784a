use ordis::rpg::mir::color_matcher::get_closest_color_emoji;

#[test]
fn test_hex_colors() {
    assert_eq!(get_closest_color_emoji(Some("#ff0000")), "🟥"); // Red
    assert_eq!(get_closest_color_emoji(Some("#00ff00")), "🟩"); // Green
    assert_eq!(get_closest_color_emoji(Some("#0000ff")), "🟦"); // Blue
    assert_eq!(get_closest_color_emoji(Some("#fff")), "⬜"); // White
    assert_eq!(get_closest_color_emoji(Some("#000")), "⬛"); // Black
}

#[test]
fn test_named_colors() {
    assert_eq!(get_closest_color_emoji(Some("red")), "🟥");
    assert_eq!(get_closest_color_emoji(Some("blue")), "🟦");
    assert_eq!(get_closest_color_emoji(Some("yellow")), "🟨");
    assert_eq!(get_closest_color_emoji(Some("purple")), "🟪");
}

#[test]
fn test_rgb_colors() {
    assert_eq!(get_closest_color_emoji(Some("rgb(255, 0, 0)")), "🟥"); // Red
    assert_eq!(get_closest_color_emoji(Some("rgb(0, 255, 0)")), "🟩"); // Green
    assert_eq!(get_closest_color_emoji(Some("rgba(0, 0, 255, 1)")), "🟦"); // Blue
}

#[test]
fn test_invalid_colors() {
    assert_eq!(get_closest_color_emoji(Some("invalid")), "🟦"); // Default
    assert_eq!(get_closest_color_emoji(None), "🟦"); // Default
    assert_eq!(get_closest_color_emoji(Some("")), "🟦"); // Default
}

#[test]
fn unreadable_colours_fall_back_to_blue() {
    assert_eq!(get_closest_color_emoji(Some("#éa")), "🟦");
    assert_eq!(get_closest_color_emoji(Some("rgb)(")), "🟦");
    assert_eq!(get_closest_color_emoji(Some("  RED ")), "🟥");
}
