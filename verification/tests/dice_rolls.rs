use ordis::dice::{
    find_dice_terms, format_rolls, join_rolls_to_string, parse_dice_term, roll_all_terms, roll_dice_string,
    roll_expression, roll_message, sum_roll_array, term_in_bounds, DiceError, Roll,
};

fn roll(result: i32, expression: &str) -> Roll {
    Roll { result, expression: expression.to_string() }
}

#[test]
fn dice_terms_are_read() {
    assert_eq!(parse_dice_term("3d6"), Ok((3, 6)));
    assert_eq!(parse_dice_term("d20"), Ok((1, 20)));
    assert_eq!(parse_dice_term("0d6"), Err(DiceError::InvalidDiceCount));
    assert_eq!(parse_dice_term("2d1"), Err(DiceError::InvalidFaceCount));
    assert_eq!(parse_dice_term("2d0"), Err(DiceError::InvalidFaceCount));
    assert_eq!(parse_dice_term("1d2d3"), Err(DiceError::TooMuchD));
}

#[test]
fn dice_error_messages() {
    assert_eq!(DiceError::TooMuchD.message(), "TooMuchD");
    assert_eq!(DiceError::InvalidFaceCount.message(), "InvalidFaceCount");
    assert_eq!(DiceError::InvalidDiceCount.message(), "InvalidDiceCount");
}

#[test]
fn rolls_lie_on_the_die() {
    let rolls = roll_dice_string("4d6").unwrap();
    assert_eq!(rolls.len(), 4);
    for r in &rolls {
        assert!(1 <= r.result && r.result <= 6);
        assert_eq!(r.expression, "4d6");
    }
    let total = sum_roll_array(&rolls);
    assert!(4 <= total && total <= 24);
}

#[test]
fn bounds_on_terms() {
    assert!(term_in_bounds("3d6"));
    assert!(term_in_bounds("0d6"));
    assert!(!term_in_bounds("99999999999d6"));
    assert!(term_in_bounds("50000d50000"));
    assert!(term_in_bounds("2d1073741824"));
    assert!(!term_in_bounds("2d2147483647"));
    assert!(term_in_bounds("d"));
    assert!(!term_in_bounds(""));
}

#[test]
fn joining_and_summing_rolls() {
    let rolls = vec![roll(3, "2d6"), roll(5, "2d6"), roll(1, "1d4")];
    assert_eq!(join_rolls_to_string(&rolls, ", "), "3, 5, 1");
    assert_eq!(sum_roll_array(&rolls), 9);
}

#[test]
fn rolls_are_described_by_term() {
    let rolls = vec![roll(3, "2d6"), roll(5, "2d6"), roll(1, "1d4"), roll(6, "2d6")];
    assert_eq!(
        format_rolls(&rolls),
        Some("- 2d6: [3, 5, 6] (14)\n- 1d4: [1] (1)".to_string())
    );
    assert_eq!(format_rolls(&vec![]), Some(String::new()));
    let huge = vec![roll(i32::MAX, "1d9"), roll(1, "1d9")];
    assert_eq!(format_rolls(&huge), None);
}

#[test]
fn terms_are_rolled_and_replaced() {
    let terms = vec!["2d6".to_string(), "1d4".to_string()];
    let x = roll_all_terms("2d6+1d4+1", &terms).unwrap().unwrap();
    assert_eq!(x.rolls.len(), 3);
    let a = x.rolls[0].result + x.rolls[1].result;
    let b = x.rolls[2].result;
    assert_eq!(x.replaced, format!("{a}+{b}+1"));
    let bad = vec!["2d6".to_string(), "0d4".to_string()];
    assert!(matches!(roll_all_terms("2d6+0d4", &bad), Some(Err(DiceError::InvalidDiceCount))));
    let huge = vec!["99999999999d6".to_string()];
    assert!(roll_all_terms("99999999999d6", &huge).is_none());
}

#[test]
fn expressions_find_their_terms() {
    let x = roll_expression("2d6 + 3").unwrap().unwrap();
    assert_eq!(x.rolls.len(), 2);
    let total = x.rolls[0].result + x.rolls[1].result;
    assert_eq!(x.replaced, format!("{total} + 3"));
    let plain = roll_expression("1+2").unwrap().unwrap();
    assert_eq!(plain.replaced, "1+2");
    assert!(plain.rolls.is_empty());
}

#[test]
fn roll_messages() {
    assert_eq!(
        roll_message("2d6", "- 2d6: [1, 2] (3)", "3"),
        "2d6 \n- 2d6: [1, 2] (3)\n\n Result: __3__"
    );
}

#[test]
fn term_totals_add_up_to_the_roll_total() {
    let x = roll_expression("3d6+1d4+3d6").unwrap().unwrap();
    let summary = format_rolls(&x.rolls).unwrap();
    let mut shown = 0;
    for line in summary.lines() {
        let open = line.rfind('(').unwrap();
        let close = line.rfind(')').unwrap();
        shown += line[open + 1..close].parse::<i32>().unwrap();
    }
    assert_eq!(summary.lines().count(), 2);
    assert_eq!(shown, sum_roll_array(&x.rolls));
}

#[test]
fn dice_terms_are_found() {
    assert_eq!(find_dice_terms("8d10, 5d5, d6, 2d100"), vec!["8d10", "5d5", "2d100"]);
    assert_eq!(find_dice_terms("1d20+str"), vec!["1d20"]);
    assert_eq!(find_dice_terms("1d2d3"), vec!["1d2"]);
    assert_eq!(find_dice_terms("1dd2 3d"), Vec::<String>::new());
    assert_eq!(find_dice_terms("x12d8y4d6"), vec!["12d8", "4d6"]);
}

#[test]
fn large_dice_are_rolled() {
    let terms = vec!["2d1073741824".to_string()];
    let x = roll_all_terms("2d1073741824", &terms);
    match x {
        Some(Ok(x)) => assert_eq!(x.rolls.len(), 2),
        None => {}
        Some(Err(e)) => panic!("{e:?}"),
    }
    let too_many_faces = vec!["2d2147483647".to_string()];
    assert!(roll_all_terms("2d2147483647", &too_many_faces).is_none());
}
