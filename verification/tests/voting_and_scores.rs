use agent_x::orientation::OrientationMap;
use agent_x::scoring::{
    apply_eviction, count_active, count_active_civilians, EvictionOutcome, CIVILIAN_AWARD, IMPOSTER_AWARD,
    LAST_STAND,
};
use agent_x::types::{GameCard, GameScreen, GameState, Player, WordCategory};
use agent_x::views::{players_in_order, players_remaining, ranking, scoreboard, voting_candidates};

fn player(name: &str, score: i32, is_eliminated: bool) -> Player {
    Player { name: name.to_string(), score, is_eliminated }
}

fn corpus_of_one() -> Vec<WordCategory> {
    vec![WordCategory {
        name: "Fruit".to_string(),
        icon: "F".to_string(),
        pairs: vec![("Apple".to_string(), "Pear".to_string())],
    }]
}

fn voting(count: usize, r_imposter: u64) -> GameState {
    let categories = corpus_of_one();
    let mut orientation = OrientationMap::new();
    let mut state = GameState::new("s".to_string());
    state.set_player_count(count.to_string());
    for i in 0..count {
        state.set_player_name(i, ["Ann", "Bo", "Cy", "Di", "Ed", "Flo"][i].to_string());
    }
    assert!(state.start_game());
    state.select_category(&categories, 0);
    state.start_round(&categories, &mut orientation, 0, r_imposter);
    for _ in 0..count {
        state.next_player();
    }
    assert_eq!(state.game_screen, GameScreen::Voting);
    state
}

fn scores(state: &GameState) -> Vec<i32> {
    state.players.iter().map(|p| p.score).collect()
}

fn marks(state: &GameState) -> Vec<bool> {
    state.players.iter().map(|p| p.is_eliminated).collect()
}

#[test]
fn the_rules_in_numbers() {
    assert_eq!(CIVILIAN_AWARD, 10);
    assert_eq!(IMPOSTER_AWARD, 20);
    assert_eq!(LAST_STAND, 2);
}

#[test]
fn counting_active_players() {
    let players = vec![player("a", 0, false), player("b", 0, true), player("c", 0, false), player("d", 0, false)];
    assert_eq!(count_active(&players), 3);
    assert_eq!(count_active_civilians(&players, 0), 2);
    assert_eq!(count_active_civilians(&players, 1), 3);
    assert_eq!(count_active_civilians(&players, 9), 3);
    assert_eq!(count_active(&vec![]), 0);
    assert_eq!(players_remaining(&players), 2);
}

#[test]
fn correct_eviction_awards_ten_to_each_active_civilian() {
    let mut players = vec![
        player("a", 5, false),
        player("b", 7, true),
        player("c", 30, false),
        player("d", 0, false),
        player("e", 1, false),
    ];
    let civilians = count_active_civilians(&players, 2);
    let before: i32 = players.iter().map(|p| p.score).sum();
    let outcome = apply_eviction(&mut players, 2, 2);
    assert_eq!(outcome, EvictionOutcome::CiviliansWin);
    assert_eq!(players.iter().map(|p| p.score).collect::<Vec<i32>>(), vec![15, 7, 30, 10, 11]);
    assert_eq!(players.iter().map(|p| p.is_eliminated).collect::<Vec<bool>>(), vec![false, true, true, false, false]);
    let after: i32 = players.iter().map(|p| p.score).sum();
    assert_eq!(civilians, 3);
    assert_eq!(after - before, 10 * civilians as i32);
}

#[test]
fn wrong_eviction_with_two_left_awards_twenty_to_the_imposter() {
    let mut players = vec![player("a", 5, false), player("b", 7, false), player("c", 30, false)];
    let outcome = apply_eviction(&mut players, 0, 1);
    assert_eq!(outcome, EvictionOutcome::ImposterWins);
    assert_eq!(players.iter().map(|p| p.score).collect::<Vec<i32>>(), vec![5, 27, 30]);
    assert!(players[0].is_eliminated);
    assert!(!players[1].is_eliminated);
}

#[test]
fn wrong_eviction_with_three_left_awards_nothing() {
    let mut players = vec![player("a", 5, false), player("b", 7, false), player("c", 30, false), player("d", 2, false)];
    let outcome = apply_eviction(&mut players, 3, 1);
    assert_eq!(outcome, EvictionOutcome::RoundContinues);
    assert_eq!(players.iter().map(|p| p.score).collect::<Vec<i32>>(), vec![5, 7, 30, 2]);
    assert_eq!(count_active(&players), 3);
    assert!(players[3].is_eliminated);
}

#[test]
fn scores_fill_up_to_the_limit() {
    let mut players = vec![player("a", i32::MAX - 10, false), player("b", i32::MAX, false), player("c", -50, false)];
    assert_eq!(apply_eviction(&mut players, 1, 1), EvictionOutcome::CiviliansWin);
    assert_eq!(players[0].score, i32::MAX);
    assert_eq!(players[1].score, i32::MAX);
    assert_eq!(players[2].score, -40);
}

#[test]
fn evicting_needs_a_player_who_is_still_in() {
    let mut state = voting(4, 3);
    state.evict(4);
    assert_eq!(state.game_screen, GameScreen::Voting);
    state.evict(usize::MAX);
    assert_eq!(state.game_screen, GameScreen::Voting);
    state.evict(0);
    assert_eq!(state.game_screen, GameScreen::Elimination { eliminated_index: 0, was_imposter: false });
    assert!(!state.players[0].is_eliminated);
    assert!(state.is_valid());
    state.continue_round();
    assert!(state.players[0].is_eliminated);
    assert!(state.is_valid());
    state.evict(0);
    assert_eq!(state.game_screen, GameScreen::Voting);
}

#[test]
fn no_step_of_a_game_lowers_a_score_or_leaves_the_valid_states() {
    let categories = corpus_of_one();
    let mut orientation = OrientationMap::new();
    let mut state = voting(5, 4);
    let mut last = scores(&state);
    let steps: Vec<(usize, u64)> = vec![(0, 1), (4, 2), (1, 3), (3, 0), (2, 4), (0, 0)];
    for (target, r) in steps {
        loop {
            state.evict(target);
            assert!(state.is_valid());
            state.continue_round();
            assert!(state.is_valid());
            let now = scores(&state);
            assert!(now.iter().zip(last.iter()).all(|(a, b)| a >= b));
            last = now;
            match state.game_screen {
                GameScreen::Voting => {
                    let next = (0..5).find(|i| !state.players[*i].is_eliminated && *i != state.imposter_index);
                    match next {
                        Some(other) => {
                            state.evict(other);
                            state.continue_round();
                        }
                        None => break,
                    }
                    if state.game_screen == GameScreen::Voting {
                        continue;
                    }
                    break;
                }
                _ => break,
            }
        }
        assert!(matches!(state.game_screen, GameScreen::RoundEnd { .. }));
        let now = scores(&state);
        assert!(now.iter().zip(last.iter()).all(|(a, b)| a >= b));
        last = now;
        state.view_scores();
        assert!(state.is_valid());
        state.next_round();
        assert!(state.is_valid());
        assert_eq!(scores(&state), last);
        state.select_category(&categories, 0);
        state.start_round(&categories, &mut orientation, r, r);
        assert!(state.is_valid());
        for _ in 0..5 {
            state.next_player();
            assert!(state.is_valid());
        }
    }
    assert!(last.iter().sum::<i32>() > 0);
}

#[test]
fn next_round_clears_the_round_and_rotates_the_start() {
    let mut state = voting(3, 2);
    state.starting_player_offset = 1;
    state.evict(2);
    state.continue_round();
    assert_eq!(state.round_number, 1);
    state.next_round();
    assert_eq!(state.game_screen, GameScreen::CategorySelection);
    assert!(state.cards.is_empty());
    assert_eq!(state.current_round_words, None);
    assert_eq!(marks(&state), vec![false, false, false]);
    assert_eq!(scores(&state), vec![10, 10, 0]);
    assert_eq!(state.round_number, 2);
    assert_eq!(state.starting_player_offset, 2);
    assert_eq!(state.selected_category_index, Some(0));
    assert_eq!(state.current_category, Some(("Fruit".to_string(), "F".to_string())));
}

#[test]
fn rotation_wraps_round_the_players() {
    let mut state = voting(3, 2);
    state.evict(2);
    state.continue_round();
    state.starting_player_offset = 2;
    state.view_scores();
    assert_eq!(state.game_screen, GameScreen::GameScore);
    state.view_scores();
    assert_eq!(state.game_screen, GameScreen::GameScore);
    state.next_round();
    assert_eq!(state.starting_player_offset, 0);

    let mut far = voting(3, 2);
    far.evict(2);
    far.continue_round();
    far.starting_player_offset = usize::MAX;
    let expected = ((usize::MAX as u128 + 1) % 3) as usize;
    far.next_round();
    assert_eq!(far.starting_player_offset, expected);
}

#[test]
fn new_game_clears_the_game_and_keeps_the_session() {
    let mut state = voting(4, 1);
    state.evict(1);
    state.continue_round();
    state.round_number = 6;
    let names = state.player_names.clone();
    state.confirm_new_game(10);
    assert_eq!(state.game_screen, GameScreen::Setup);
    assert_eq!(state.session_id, "s");
    assert!(state.cards.is_empty());
    assert!(state.players.is_empty());
    assert_eq!(state.imposter_index, 0);
    assert_eq!(state.round_number, 1);
    // 10 mod 4 players
    assert_eq!(state.starting_player_offset, 2);
    assert_eq!(state.player_names, names);
    assert_eq!(state.player_count_input, "4");
    assert!(state.is_valid());
}

#[test]
fn new_game_from_the_scores_and_not_from_the_vote() {
    let mut state = voting(3, 1);
    let before = state.clone();
    state.confirm_new_game(1);
    assert_eq!(state, before);
    state.evict(1);
    state.continue_round();
    state.view_scores();
    state.confirm_new_game(7);
    assert_eq!(state.game_screen, GameScreen::Setup);
    assert_eq!(state.starting_player_offset, 1);
}

#[test]
fn new_game_without_players_starts_at_zero() {
    let mut state = GameState::new("s".to_string());
    state.game_screen = GameScreen::GameScore;
    state.starting_player_offset = 5;
    state.confirm_new_game(9);
    assert_eq!(state.starting_player_offset, 0);
    assert_eq!(state.game_screen, GameScreen::Setup);
}

#[test]
fn candidates_are_the_players_still_in() {
    let players = vec![player("Ann", 0, false), player("Bo", 0, true), player("Cy", 0, false)];
    assert_eq!(voting_candidates(&players), vec![(0, "Ann".to_string()), (2, "Cy".to_string())]);
    assert!(voting_candidates(&vec![player("x", 0, true)]).is_empty());
}

#[test]
fn ranking_is_by_score_and_keeps_the_order_of_play_among_equals() {
    let players = vec![
        player("Ann", 10, false),
        player("Bo", 30, false),
        player("Cy", 10, true),
        player("Di", 20, false),
        player("Ed", 30, false),
        player("Flo", -5, false),
    ];
    assert_eq!(ranking(&players), vec![1, 4, 3, 0, 2, 5]);
    let board = scoreboard(&players);
    let names: Vec<&str> = board.iter().map(|p| p.name.as_str()).collect();
    assert_eq!(names, vec!["Bo", "Ed", "Di", "Ann", "Cy", "Flo"]);
    assert_eq!(board[4], player("Cy", 10, true));
    assert_eq!(players[0].name, "Ann");
    assert!(ranking(&vec![]).is_empty());
    assert_eq!(players_in_order(&players, &vec![5, 5, 0]).iter().map(|p| p.score).collect::<Vec<i32>>(), vec![-5, -5, 10]);
}

#[test]
fn ranking_agrees_with_a_stable_sort() {
    let mut seed: u64 = 12345;
    for round in 0..50 {
        let count = 3 + round % 8;
        let mut players = Vec::new();
        for i in 0..count {
            seed = seed.wrapping_mul(6364136223846793005).wrapping_add(1442695040888963407);
            players.push(player(&i.to_string(), ((seed >> 33) % 4) as i32 * 10, false));
        }
        let mut expected: Vec<usize> = (0..count).collect();
        expected.sort_by(|a, b| players[*b].score.cmp(&players[*a].score));
        assert_eq!(ranking(&players), expected);
    }
}

#[test]
fn the_device_goes_round_from_the_starting_player() {
    let mut state = voting(4, 1);
    state.starting_player_offset = 3;
    let mut seen = Vec::new();
    for cursor in 0..4 {
        state.game_screen = GameScreen::CardView { current_player_index: cursor };
        seen.push(state.display_player());
    }
    assert_eq!(seen, vec![Some(3), Some(0), Some(1), Some(2)]);
    state.game_screen = GameScreen::CardView { current_player_index: 2 };
    assert_eq!(state.display_card(), Some(&GameCard { card_type: agent_x::types::CardType::Imposter, word: "Apple".to_string() }));
    state.game_screen = GameScreen::CardView { current_player_index: 4 };
    assert_eq!(state.display_player(), None);
    assert_eq!(state.display_card(), None);
    state.game_screen = GameScreen::Voting;
    assert_eq!(state.display_player(), None);
    state.starting_player_offset = usize::MAX;
    state.game_screen = GameScreen::CardView { current_player_index: 3 };
    assert_eq!(state.display_player(), Some(((usize::MAX as u128 + 3) % 4) as usize));
}

#[test]
fn the_imposter_has_a_name() {
    let mut state = voting(3, 1);
    assert_eq!(state.imposter_name(), Some("Bo".to_string()));
    state.imposter_index = 3;
    assert_eq!(state.imposter_name(), None);
}

#[test]
fn validity_is_checked_part_by_part() {
    let good = voting(3, 1);
    assert!(good.is_valid());

    let mut two_imposters = good.clone();
    two_imposters.cards[0].card_type = agent_x::types::CardType::Imposter;
    assert!(!two_imposters.is_valid());

    let mut wrong_position = good.clone();
    wrong_position.imposter_index = 0;
    assert!(!wrong_position.is_valid());

    let mut too_few_cards = good.clone();
    too_few_cards.cards.pop();
    assert!(!too_few_cards.is_valid());

    let mut no_words = good.clone();
    no_words.current_round_words = None;
    assert!(!no_words.is_valid());

    let mut wrong_word = good.clone();
    wrong_word.cards[0].word = "Plum".to_string();
    assert!(!wrong_word.is_valid());

    let mut imposter_with_the_civilian_word = good.clone();
    imposter_with_the_civilian_word.cards[1].word = "Pear".to_string();
    assert!(!imposter_with_the_civilian_word.is_valid());

    let mut words_swapped = good.clone();
    words_swapped.current_round_words = Some(("Apple".to_string(), "Pear".to_string()));
    assert!(!words_swapped.is_valid());

    let mut one_word = good.clone();
    one_word.current_round_words = Some(("Pear".to_string(), "Pear".to_string()));
    one_word.cards[1].word = "Pear".to_string();
    assert!(!one_word.is_valid());

    let mut no_category = good.clone();
    no_category.current_category = None;
    assert!(!no_category.is_valid());

    let mut no_choice = good.clone();
    no_choice.selected_category_index = None;
    assert!(!no_choice.is_valid());

    let mut cursor_too_far = good.clone();
    cursor_too_far.game_screen = GameScreen::CardView { current_player_index: 4 };
    assert!(!cursor_too_far.is_valid());
    cursor_too_far.game_screen = GameScreen::CardView { current_player_index: 3 };
    assert!(cursor_too_far.is_valid());

    let mut wrong_flag = good.clone();
    wrong_flag.game_screen = GameScreen::Elimination { eliminated_index: 1, was_imposter: false };
    assert!(!wrong_flag.is_valid());
    wrong_flag.game_screen = GameScreen::Elimination { eliminated_index: 1, was_imposter: true };
    assert!(wrong_flag.is_valid());
    wrong_flag.players[1].is_eliminated = true;
    assert!(!wrong_flag.is_valid());

    let mut setup_with_players = good.clone();
    setup_with_players.game_screen = GameScreen::Setup;
    assert!(!setup_with_players.is_valid());

    let mut two_players = good.clone();
    two_players.players.pop();
    two_players.cards.pop();
    assert!(!two_players.is_valid());
}
