use agent_x::dealer::deal_round;
use agent_x::intent::{Draws, Intent};
use agent_x::orientation::OrientationMap;
use agent_x::types::{CardType, GameScreen, GameState, WordCategory};

fn corpus() -> Vec<WordCategory> {
    vec![
        WordCategory {
            name: "Fruit".to_string(),
            icon: "F".to_string(),
            pairs: vec![
                ("Apple".to_string(), "Pear".to_string()),
                ("Lemon".to_string(), "Lime".to_string()),
            ],
        },
        WordCategory {
            name: "Animals".to_string(),
            icon: "A".to_string(),
            pairs: vec![("Wolf".to_string(), "Fox".to_string())],
        },
    ]
}

fn started(names: &[&str]) -> GameState {
    let mut state = GameState::new("session".to_string());
    state.set_player_count(names.len().to_string());
    for (i, name) in names.iter().enumerate() {
        state.set_player_name(i, name.to_string());
    }
    assert!(state.start_game());
    state
}

fn in_voting(names: &[&str], r_imposter: u64) -> GameState {
    let categories = corpus();
    let mut orientation = OrientationMap::new();
    let mut state = started(names);
    assert_eq!(state.game_screen, GameScreen::CategorySelection);
    state.select_category(&categories, 0);
    assert_eq!(
        state.game_screen,
        GameScreen::CategoryReveal { category_name: "Fruit".to_string(), category_icon: "F".to_string() }
    );
    state.start_round(&categories, &mut orientation, 0, r_imposter);
    for i in 0..names.len() {
        assert_eq!(state.game_screen, GameScreen::CardView { current_player_index: i });
        state.next_player();
    }
    assert_eq!(state.game_screen, GameScreen::Voting);
    state
}

fn scores(state: &GameState) -> Vec<i32> {
    state.players.iter().map(|p| p.score).collect()
}

#[test]
fn three_players_imposter_caught_first_vote() {
    let mut state = in_voting(&["Ann", "Bo", "Cy"], 2);
    assert_eq!(state.imposter_index, 2);
    state.evict(2);
    assert_eq!(state.game_screen, GameScreen::Elimination { eliminated_index: 2, was_imposter: true });
    state.continue_round();
    assert_eq!(state.game_screen, GameScreen::RoundEnd { imposter_found: true, game_over: true });
    assert_eq!(scores(&state), vec![10, 10, 0]);
}

#[test]
fn three_players_civilian_evicted_game_ends() {
    let mut state = in_voting(&["Ann", "Bo", "Cy"], 0);
    assert_eq!(state.imposter_index, 0);
    state.evict(1);
    assert_eq!(state.game_screen, GameScreen::Elimination { eliminated_index: 1, was_imposter: false });
    state.continue_round();
    assert_eq!(state.game_screen, GameScreen::RoundEnd { imposter_found: false, game_over: true });
    assert_eq!(scores(&state), vec![20, 0, 0]);
}

#[test]
fn four_players_two_wrong_votes() {
    let mut state = in_voting(&["Ann", "Bo", "Cy", "Di"], 3);
    assert_eq!(state.imposter_index, 3);
    state.evict(0);
    assert_eq!(state.game_screen, GameScreen::Elimination { eliminated_index: 0, was_imposter: false });
    state.continue_round();
    assert_eq!(state.game_screen, GameScreen::Voting);
    assert_eq!(state.round_number, 2);
    state.evict(1);
    state.continue_round();
    assert_eq!(state.game_screen, GameScreen::RoundEnd { imposter_found: false, game_over: true });
    assert_eq!(scores(&state), vec![0, 0, 0, 20]);
}

#[test]
fn four_players_one_wrong_then_correct() {
    let mut state = in_voting(&["Ann", "Bo", "Cy", "Di"], 3);
    state.evict(0);
    state.continue_round();
    assert_eq!(state.game_screen, GameScreen::Voting);
    state.evict(3);
    assert_eq!(state.game_screen, GameScreen::Elimination { eliminated_index: 3, was_imposter: true });
    state.continue_round();
    assert_eq!(state.game_screen, GameScreen::RoundEnd { imposter_found: true, game_over: true });
    assert_eq!(scores(&state), vec![0, 10, 10, 0]);
}

#[test]
fn pair_orientation_swaps_between_deals() {
    let categories = corpus();
    let mut orientation = OrientationMap::new();
    let first = deal_round(&categories, &mut orientation, 3, 0, 0, 1);
    let second = deal_round(&categories, &mut orientation, 3, 0, 2, 1);
    assert_eq!(first.civilian_word, "Pear");
    assert_eq!(first.imposter_word, "Apple");
    assert_eq!(second.civilian_word, first.imposter_word);
    assert_eq!(second.imposter_word, first.civilian_word);
    assert_eq!(first.cards[1].card_type, CardType::Imposter);
    assert_eq!(first.cards[1].word, "Apple");
    assert_eq!(first.cards[0].word, "Pear");
    assert_eq!(first.cards[2].word, "Pear");
}

#[test]
fn apply_follows_the_intents() {
    let categories = corpus();
    let mut orientation = OrientationMap::new();
    let draws = Draws { r_word: 1, r_imposter: 4, r_offset: 5 };
    let mut state = GameState::new("s".to_string());
    state.apply(Intent::SetPlayerCount("3".to_string()), &categories, &mut orientation, draws);
    for (i, name) in ["Ann", "Bo", "Cy"].iter().enumerate() {
        state.apply(Intent::SetPlayerName(i, name.to_string()), &categories, &mut orientation, draws);
    }
    state.apply(Intent::StartGame, &categories, &mut orientation, draws);
    state.apply(Intent::SelectCategory(1), &categories, &mut orientation, draws);
    state.apply(Intent::StartRound, &categories, &mut orientation, draws);
    assert_eq!(state.imposter_index, 1);
    assert_eq!(state.current_category, Some(("Animals".to_string(), "A".to_string())));
    assert_eq!(state.current_round_words, Some(("Wolf".to_string(), "Fox".to_string())));
    assert_eq!(orientation.lookup(1, 0), Some(false));
}
