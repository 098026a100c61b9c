use agent_x::intent::{Draws, Intent};
use agent_x::orientation::OrientationMap;
use agent_x::setup::{effective_player_count, parse_count, resize_names, set_name};
use agent_x::types::{GameScreen, GameState, WordCategory};

fn texts(names: &[&str]) -> Vec<String> {
    names.iter().map(|n| n.to_string()).collect()
}

#[test]
fn parse_count_reads_plain_digits() {
    assert_eq!(parse_count("0"), Some(0));
    assert_eq!(parse_count("7"), Some(7));
    assert_eq!(parse_count("10"), Some(10));
    assert_eq!(parse_count("007"), Some(7));
    assert_eq!(parse_count("12345"), Some(12345));
}

#[test]
fn parse_count_takes_a_leading_plus() {
    assert_eq!(parse_count("+5"), Some(5));
    assert_eq!(parse_count("+"), None);
    assert_eq!(parse_count("++5"), None);
    assert_eq!(parse_count("5+"), None);
}

#[test]
fn parse_count_refuses_everything_else() {
    assert_eq!(parse_count(""), None);
    assert_eq!(parse_count("-1"), None);
    assert_eq!(parse_count("-0"), None);
    assert_eq!(parse_count(" 5"), None);
    assert_eq!(parse_count("5 "), None);
    assert_eq!(parse_count("five"), None);
    assert_eq!(parse_count("4.0"), None);
    assert_eq!(parse_count("1_0"), None);
    assert_eq!(parse_count("٣"), None);
}

#[test]
fn parse_count_agrees_with_the_standard_library() {
    let samples = [
        "", "+", "-", "0", "+0", "-0", "3", "10", "0010", "+12", "1 2", "12a", "a12", "\t4", "4\n",
        "18446744073709551615", "18446744073709551616", "340282366920938463463374607431768211456",
        "4294967295", "4294967296", "٣", "１２",
    ];
    for text in samples.iter() {
        assert_eq!(parse_count(text), text.parse::<usize>().ok());
    }
}

#[test]
fn parse_count_refuses_numbers_too_large() {
    assert_eq!(parse_count("18446744073709551615"), "18446744073709551615".parse::<usize>().ok());
    assert_eq!(parse_count("99999999999999999999999999999"), None);
}

#[test]
fn effective_count_is_held_between_three_and_ten() {
    assert_eq!(effective_player_count("3"), 3);
    assert_eq!(effective_player_count("4"), 4);
    assert_eq!(effective_player_count("10"), 10);
    assert_eq!(effective_player_count("0"), 3);
    assert_eq!(effective_player_count("2"), 3);
    assert_eq!(effective_player_count("11"), 10);
    assert_eq!(effective_player_count("5000"), 10);
}

#[test]
fn effective_count_is_three_where_nothing_is_read() {
    assert_eq!(effective_player_count(""), 3);
    assert_eq!(effective_player_count("many"), 3);
    assert_eq!(effective_player_count("-4"), 3);
    assert_eq!(effective_player_count("99999999999999999999999999999"), 3);
}

#[test]
fn resize_keeps_the_prefix_and_pads_with_empty_names() {
    let names = texts(&["Ann", "Bo"]);
    assert_eq!(resize_names(&names, 4), texts(&["Ann", "Bo", "", ""]));
    assert_eq!(resize_names(&names, 2), texts(&["Ann", "Bo"]));
    assert_eq!(resize_names(&names, 1), texts(&["Ann"]));
    assert_eq!(resize_names(&names, 0), texts(&[]));
}

#[test]
fn set_name_replaces_or_extends() {
    let mut names = texts(&["Ann", "Bo"]);
    set_name(&mut names, 1, "Cy".to_string());
    assert_eq!(names, texts(&["Ann", "Cy"]));
    set_name(&mut names, 4, "Di".to_string());
    assert_eq!(names, texts(&["Ann", "Cy", "", "", "Di"]));
    set_name(&mut names, 5, "Ed".to_string());
    assert_eq!(names, texts(&["Ann", "Cy", "", "", "Di", "Ed"]));
}

#[test]
fn fresh_state_is_setup_for_three() {
    let state = GameState::new("abc".to_string());
    assert_eq!(state.session_id, "abc");
    assert_eq!(state.game_screen, GameScreen::Setup);
    assert!(state.players.is_empty());
    assert_eq!(state.player_count_input, "3");
    assert_eq!(state.player_names, texts(&["", "", ""]));
    assert_eq!(state.round_number, 1);
    assert!(state.cards.is_empty());
    assert_eq!(state.imposter_index, 0);
    assert_eq!(state.current_category, None);
    assert_eq!(state.selected_category_index, None);
    assert_eq!(state.starting_player_offset, 0);
    assert_eq!(state.current_round_words, None);
    assert!(state.is_valid());
}

#[test]
fn player_count_is_stored_as_typed() {
    let mut state = GameState::new("s".to_string());
    state.set_player_name(0, "Ann".to_string());
    state.set_player_count("five".to_string());
    assert_eq!(state.player_count_input, "five");
    assert_eq!(state.player_names, texts(&["Ann", "", ""]));
    state.set_player_count("5".to_string());
    assert_eq!(state.player_count_input, "5");
    assert_eq!(state.player_names, texts(&["Ann", "", "", "", ""]));
    state.set_player_count("12".to_string());
    assert_eq!(state.player_count_input, "12");
    assert_eq!(state.player_names.len(), 10);
    state.set_player_count("".to_string());
    assert_eq!(state.player_names, texts(&["Ann", "", ""]));
}

#[test]
fn normalize_fits_the_names_to_the_stored_count() {
    let mut state = GameState::new("s".to_string());
    state.player_count_input = "4".to_string();
    state.normalize_names();
    assert_eq!(state.player_names, texts(&["", "", "", ""]));
    assert_eq!(state.player_count_input, "4");
}

#[test]
fn start_is_ignored_while_a_name_is_blank() {
    let mut state = GameState::new("s".to_string());
    assert!(!state.start_game());
    state.set_player_name(0, "Ann".to_string());
    state.set_player_name(1, "Bo".to_string());
    assert!(!state.start_game());
    state.set_player_name(2, "   ".to_string());
    assert!(!state.start_game());
    state.set_player_name(2, "\t\n ".to_string());
    assert!(!state.start_game());
    assert_eq!(state.game_screen, GameScreen::Setup);
    assert!(state.players.is_empty());
    assert_eq!(state.player_names, texts(&["Ann", "Bo", "\t\n "]));
}

#[test]
fn start_builds_the_players_from_the_names_as_typed() {
    let mut state = GameState::new("s".to_string());
    state.round_number = 9;
    state.set_player_name(0, " Ann ".to_string());
    state.set_player_name(1, "Bo".to_string());
    state.set_player_name(2, "Cy".to_string());
    assert!(state.start_game());
    assert_eq!(state.game_screen, GameScreen::CategorySelection);
    assert_eq!(state.round_number, 1);
    assert_eq!(state.players.len(), 3);
    assert_eq!(state.players[0].name, " Ann ");
    for player in state.players.iter() {
        assert_eq!(player.score, 0);
        assert!(!player.is_eliminated);
    }
    assert!(state.is_valid());
}

#[test]
fn begin_game_does_not_look_at_the_names() {
    let mut state = GameState::new("s".to_string());
    state.begin_game();
    assert_eq!(state.game_screen, GameScreen::CategorySelection);
    assert_eq!(state.players.len(), 3);
    assert_eq!(state.players[1].name, "");
}

#[test]
fn start_with_eleven_names_leaves_the_valid_states() {
    let mut state = GameState::new("s".to_string());
    for i in 0..11 {
        state.set_player_name(i, "x".to_string());
    }
    assert!(state.is_valid());
    assert!(state.start_game());
    assert_eq!(state.players.len(), 11);
    assert!(!state.is_valid());
}

#[test]
fn setup_intents_are_ignored_in_other_phases() {
    let mut state = GameState::new("s".to_string());
    state.begin_game();
    let before = state.clone();
    state.set_player_count("7".to_string());
    state.set_player_name(0, "Zed".to_string());
    state.normalize_names();
    assert!(!state.start_game());
    assert_eq!(state, before);
}

#[test]
fn intents_that_the_machine_does_not_record_change_nothing() {
    let categories: Vec<WordCategory> = vec![WordCategory {
        name: "n".to_string(),
        icon: "i".to_string(),
        pairs: vec![("a".to_string(), "b".to_string())],
    }];
    let mut orientation = OrientationMap::new();
    let draws = Draws { r_word: 0, r_imposter: 0, r_offset: 0 };
    let mut state = GameState::new("s".to_string());
    let before = state.clone();
    state.apply(Intent::RevealCard, &categories, &mut orientation, draws);
    state.apply(Intent::RequestNewGame, &categories, &mut orientation, draws);
    state.apply(Intent::CancelNewGame, &categories, &mut orientation, draws);
    state.apply(Intent::ConfirmNewGame, &categories, &mut orientation, draws);
    state.apply(Intent::NextRound, &categories, &mut orientation, draws);
    state.apply(Intent::Evict(0), &categories, &mut orientation, draws);
    state.apply(Intent::Continue, &categories, &mut orientation, draws);
    state.apply(Intent::StartRound, &categories, &mut orientation, draws);
    state.apply(Intent::NextPlayer, &categories, &mut orientation, draws);
    state.apply(Intent::Back, &categories, &mut orientation, draws);
    state.apply(Intent::BackToCategoryReveal, &categories, &mut orientation, draws);
    state.apply(Intent::ViewScores, &categories, &mut orientation, draws);
    state.apply(Intent::SelectCategory(0), &categories, &mut orientation, draws);
    assert_eq!(state, before);
    assert_eq!(orientation.len(), 0);
}
