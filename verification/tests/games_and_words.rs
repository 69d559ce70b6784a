use ordis::admin::{parse_colour, reaction_for, react_emoji_names, wants_thread, Reaction};
use ordis::bot::{
    calc_reply, component_payload, get_random, message_answer, next_ping_count, ping_quotes,
    ping_reply,
};
use ordis::dictionary::{check_dictionary, lines, read_random_line, DictionaryError};
use ordis::games::russian_roulette::{pull_message, pull_trigger, pull_with, Pull};
use ordis::games::wordle::{format_wordle, generate_wordle, letter_patterns};
use ordis::stat_puller::{sheet_messages, StatPullerError};
use ordis::voice::VoiceError;

#[test]
fn roulette_pulls() {
    assert_eq!(pull_with(0, 1), (1, Pull::Click(5)));
    assert_eq!(pull_with(0, 5), (0, Pull::Bang));
    assert_eq!(pull_with(3, 1), (4, Pull::Click(2)));
    assert_eq!(pull_with(4, 1), (0, Pull::Bang));
    for count in 0..5 {
        let (next, pull) = pull_trigger(count);
        match pull {
            Pull::Click(left) => {
                assert_eq!(next, count + 1);
                assert_eq!(left, 5 - count);
            }
            Pull::Bang => assert_eq!(next, 0),
        }
        assert!((0..=4).contains(&next));
    }
    assert_eq!(pull_trigger(4), (0, Pull::Bang));
    assert_eq!(pull_message(Pull::Click(3)), "*click*... (3 bullets left in the chamber)");
    assert_eq!(pull_message(Pull::Bang), "Bang!");
}

#[test]
fn wordle_tiles_and_board() {
    let game = generate_wordle("crane");
    assert_eq!(game.word, "crane");
    assert_eq!(game.num_of_guesses, 5);
    assert!(game.guesses.is_empty());
    assert_eq!(
        letter_patterns("crane", "cater"),
        vec![":regional_indicator_{}:", "{}_yellow", "{}_dark", "{}_yellow", "{}_yellow"]
    );
    let tiles = vec![vec!["a".to_string(), "b".to_string()]];
    assert_eq!(format_wordle("ab", &tiles, 3), "a b \n⬛ ⬛ \n⬛ ⬛ \n");
    assert_eq!(format_wordle("ab", &tiles, 0), "a b \n");
}

#[test]
fn dictionaries() {
    assert_eq!(lines("a\r\nbb\n\nccc\n"), vec!["a", "bb", "", "ccc"]);
    assert_eq!(lines(""), Vec::<String>::new());
    assert_eq!(lines("x"), vec!["x"]);
    assert_eq!(check_dictionary(""), Err(DictionaryError::FileEmpty));
    assert_eq!(check_dictionary("a"), Ok(()));
    assert_eq!(read_random_line("one\nthree\nfive", Some(5)), Ok("three".to_string()));
    assert_eq!(read_random_line("one\ntwo", Some(7)), Err(DictionaryError::NotFound));
    let any = read_random_line("one\ntwo", None).unwrap();
    assert!(any == "one" || any == "two");
    assert_eq!(read_random_line("héé\nabcd", Some(5)), Ok("héé".to_string()));
    assert_eq!(DictionaryError::NotFound.message(), "A word by those criteria could not be found");
}

#[test]
fn bot_small_talk() {
    let quotes = ping_quotes();
    assert_eq!(quotes.len(), 12);
    assert_eq!(quotes[3], "Operator, are you enjoying the view?");
    for _ in 0..20 {
        let q = get_random(&quotes);
        assert!(quotes[1..].contains(&q.as_str()));
    }
    assert_eq!(next_ping_count(None), 1);
    assert_eq!(next_ping_count(Some(4)), 5);
    assert_eq!(ping_reply("Hi", 5), "Hi 5");
    assert_eq!(message_answer(false, "!ping"), Some("Pong!"));
    assert_eq!(message_answer(true, "!ping"), None);
    assert_eq!(message_answer(false, "ping"), None);
    assert_eq!(component_payload(Some(&vec!["x".to_string()]), "id"), Some("x".to_string()));
    assert_eq!(component_payload(Some(&vec![]), "id"), None);
    assert_eq!(component_payload(None, "id"), Some("id".to_string()));
    assert_eq!(calc_reply("1+1", "2"), "1+1 = 2");
}

#[test]
fn sheets_and_voice() {
    let m = sheet_messages("read this", "STR 10");
    assert_eq!(m[0].content, "read this");
    assert_eq!(m[1].content, "STR 10");
    assert_eq!(StatPullerError::SpellNotFound.message(), "SpellNotFound");
    assert_eq!(VoiceError::UserNotInVoiceChannel.message(), "User not in voice channel");
}

#[test]
fn administration_helpers() {
    assert_eq!(parse_colour("#ff8800"), Some(0xff8800));
    assert_eq!(parse_colour("+1F"), Some(0x1f));
    assert_eq!(parse_colour("##"), None);
    assert_eq!(parse_colour("fffffffff"), None);
    assert_eq!(parse_colour("zz"), None);
    assert_eq!(
        react_emoji_names("rules\n-autoReact :fire:, ,thumbsup\r\nother"),
        vec![":fire:".to_string(), "thumbsup".to_string()]
    );
    assert!(react_emoji_names("no marker").is_empty());
    assert_eq!(reaction_for(Some(5), "x"), Reaction::Custom(5));
    assert_eq!(reaction_for(None, ":fire:"), Reaction::Unicode("🔥".to_string()));
    assert_eq!(reaction_for(None, "not_an_emoji_code"), Reaction::Unicode("❓".to_string()));
    assert!(!wants_thread(Some("-threadChannel yes")));
}

#[test]
fn six_pulls_in_a_row_fire_once_at_least() {
    let mut count = 0;
    let mut fired = false;
    for _ in 0..6 {
        let (next, pull) = pull_with(count, 1);
        match pull {
            Pull::Click(left) => assert_eq!(left, 6 - next),
            Pull::Bang => {
                assert_eq!(next, 0);
                fired = true;
            }
        }
        count = next;
        if fired {
            break;
        }
    }
    assert!(fired);
}
