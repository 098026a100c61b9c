use agent_x::dealer::{
    deal_round, generate_cards_for_category, get_all_categories, is_valid_category, is_valid_corpus,
};
use agent_x::orientation::OrientationMap;
use agent_x::random::{bytes_from_draw, number_from_bytes, random_bytes, random_u64};
use agent_x::types::{CardType, GameCard, GameScreen, GameState, WordCategory, WordList};

fn category(name: &str, icon: &str, pairs: &[(&str, &str)]) -> WordCategory {
    WordCategory {
        name: name.to_string(),
        icon: icon.to_string(),
        pairs: pairs.iter().map(|(a, b)| (a.to_string(), b.to_string())).collect(),
    }
}

fn word_list() -> WordList {
    WordList {
        categories: vec![
            category("Fruit", "F", &[("Apple", "Pear"), ("Lemon", "Lime"), ("Plum", "Fig")]),
            category("Animals", "A", &[("Wolf", "Fox")]),
            category("Tools", "T", &[("Saw", "File"), ("Nail", "Screw")]),
        ],
    }
}

fn playing(count: usize) -> GameState {
    let mut state = GameState::new("s".to_string());
    state.set_player_count(count.to_string());
    for i in 0..count {
        state.set_player_name(i, ["Ann", "Bo", "Cy", "Di", "Ed", "Flo", "Gus", "Hal", "Ida", "Jo"][i].to_string());
    }
    assert!(state.start_game());
    state
}

#[test]
fn categories_come_in_the_order_of_the_list() {
    let categories = get_all_categories(word_list());
    let names: Vec<&str> = categories.iter().map(|c| c.name.as_str()).collect();
    assert_eq!(names, vec!["Fruit", "Animals", "Tools"]);
    assert_eq!(categories[2].pairs[1], ("Nail".to_string(), "Screw".to_string()));
    assert!(get_all_categories(WordList { categories: vec![] }).is_empty());
}

#[test]
fn corpus_needs_a_category_and_pairs_of_two_words() {
    assert!(is_valid_corpus(&word_list().categories));
    assert!(!is_valid_corpus(&vec![]));
    assert!(!is_valid_corpus(&vec![category("Empty", "E", &[])]));
    assert!(!is_valid_corpus(&vec![
        category("Fine", "F", &[("a", "b")]),
        category("Twice", "T", &[("a", "b"), ("c", "c")]),
    ]));
    assert!(is_valid_category(&category("Fine", "F", &[("a", "b")])));
    assert!(!is_valid_category(&category("Twice", "T", &[("same", "same")])));
    assert!(!is_valid_category(&category("Empty", "E", &[])));
}

#[test]
fn deal_wraps_the_category_the_pair_and_the_imposter() {
    let categories = word_list().categories;
    let mut orientation = OrientationMap::new();
    // category 7 mod 3 = 1; pair 5 mod 1 = 0; imposter 14 mod 4 = 2; seed 5 & 1 = 1
    let deal = deal_round(&categories, &mut orientation, 4, 7, 5, 14);
    assert_eq!(deal.category_name, "Animals");
    assert_eq!(deal.category_icon, "A");
    assert_eq!(deal.imposter_index, 2);
    assert_eq!(deal.civilian_word, "Wolf");
    assert_eq!(deal.imposter_word, "Fox");
    assert_eq!(orientation.lookup(1, 0), Some(false));
    assert_eq!(orientation.lookup(0, 0), None);
    assert_eq!(orientation.len(), 1);
    assert_eq!(
        deal.cards,
        vec![
            GameCard { card_type: CardType::Normal, word: "Wolf".to_string() },
            GameCard { card_type: CardType::Normal, word: "Wolf".to_string() },
            GameCard { card_type: CardType::Imposter, word: "Fox".to_string() },
            GameCard { card_type: CardType::Normal, word: "Wolf".to_string() },
        ]
    );
}

#[test]
fn deal_picks_the_pair_from_the_whole_number() {
    let categories = word_list().categories;
    let mut orientation = OrientationMap::new();
    // 2^32 + 1 mod 3 = 2, though its low 32 bits alone give 1
    let deal = deal_round(&categories, &mut orientation, 3, 0, 4294967297, 18446744073709551615);
    assert_eq!(deal.civilian_word, "Plum");
    assert_eq!(deal.imposter_word, "Fig");
    // 2^64 - 1 mod 3 = 0
    assert_eq!(deal.imposter_index, 0);
    assert_eq!(orientation.lookup(0, 2), Some(false));
}

#[test]
fn deal_uses_the_recorded_orientation_before_the_seed() {
    let categories = word_list().categories;
    let mut orientation = OrientationMap::new();
    let first = deal_round(&categories, &mut orientation, 3, 2, 0, 0);
    assert_eq!((first.civilian_word.as_str(), first.imposter_word.as_str()), ("File", "Saw"));
    // same pair, odd number: the record decides, not the seed
    let second = deal_round(&categories, &mut orientation, 3, 2, 2, 0);
    assert_eq!((second.civilian_word.as_str(), second.imposter_word.as_str()), ("Saw", "File"));
    let third = deal_round(&categories, &mut orientation, 3, 2, 4, 0);
    assert_eq!((third.civilian_word.as_str(), third.imposter_word.as_str()), ("File", "Saw"));
    // another pair of the same category has its own record
    let other = deal_round(&categories, &mut orientation, 3, 2, 1, 0);
    assert_eq!((other.civilian_word.as_str(), other.imposter_word.as_str()), ("Nail", "Screw"));
    assert_eq!(orientation.len(), 2);
}

#[test]
fn every_deal_has_one_imposter_with_another_word() {
    let categories = word_list().categories;
    let mut orientation = OrientationMap::new();
    for count in 3..=10usize {
        for r in 0..40u64 {
            let deal = deal_round(&categories, &mut orientation, count, (r % 5) as usize, r * 7 + 3, r * 13 + 1);
            assert_eq!(deal.cards.len(), count);
            let imposters: Vec<usize> = (0..count)
                .filter(|i| deal.cards[*i].card_type == CardType::Imposter)
                .collect();
            assert_eq!(imposters, vec![deal.imposter_index]);
            assert_eq!(deal.imposter_index as u64, (r * 13 + 1) % count as u64);
            assert_ne!(deal.civilian_word, deal.imposter_word);
            for (i, card) in deal.cards.iter().enumerate() {
                if i == deal.imposter_index {
                    assert_eq!(card.word, deal.imposter_word);
                } else {
                    assert_eq!(card.card_type, CardType::Normal);
                    assert_eq!(card.word, deal.civilian_word);
                }
            }
        }
    }
}

#[test]
fn random_deal_is_a_sound_deal() {
    let categories = word_list().categories;
    let mut orientation = OrientationMap::new();
    for _ in 0..20 {
        let deal = generate_cards_for_category(&categories, &mut orientation, 5, 0);
        assert_eq!(deal.cards.len(), 5);
        assert_eq!(deal.category_name, "Fruit");
        assert!(deal.imposter_index < 5);
        assert_eq!(deal.cards.iter().filter(|c| c.card_type == CardType::Imposter).count(), 1);
        assert_eq!(deal.cards[deal.imposter_index].word, deal.imposter_word);
        assert_ne!(deal.civilian_word, deal.imposter_word);
    }
    assert!(orientation.len() >= 1 && orientation.len() <= 3);
}

#[test]
fn random_bytes_come_in_the_length_asked_for() {
    assert_eq!(random_bytes(0).len(), 0);
    assert_eq!(random_bytes(8).len(), 8);
    assert_eq!(random_bytes(16).len(), 16);
    let _ = random_u64();
}

#[test]
fn failed_draw_counts_as_zeros() {
    assert_eq!(bytes_from_draw(None, 4), vec![0, 0, 0, 0]);
    assert_eq!(bytes_from_draw(Some(vec![1, 2, 3]), 4), vec![0, 0, 0, 0]);
    assert_eq!(bytes_from_draw(Some(vec![1, 2, 3, 4]), 4), vec![1, 2, 3, 4]);
    assert_eq!(number_from_bytes(&bytes_from_draw(None, 8)), 0);
}

#[test]
fn number_is_read_least_significant_byte_first() {
    assert_eq!(number_from_bytes(&vec![1, 0, 0, 0, 0, 0, 0, 0]), 1);
    assert_eq!(number_from_bytes(&vec![0, 1, 0, 0, 0, 0, 0, 0]), 256);
    assert_eq!(number_from_bytes(&vec![0xef, 0xcd, 0xab, 0x89, 0x67, 0x45, 0x23, 0x01]), 0x0123456789abcdef);
    assert_eq!(number_from_bytes(&vec![255; 8]), u64::MAX);
}

#[test]
fn orientation_map_records_and_flips() {
    let mut orientation = OrientationMap::new();
    assert_eq!(orientation.len(), 0);
    assert_eq!(orientation.lookup(3, 4), None);
    assert!(orientation.next_flip(3, 4, true));
    assert_eq!(orientation.lookup(3, 4), Some(false));
    assert!(!orientation.next_flip(3, 4, true));
    assert_eq!(orientation.lookup(3, 4), Some(true));
    assert!(!orientation.next_flip(4, 3, false));
    assert_eq!(orientation.lookup(4, 3), Some(true));
    assert_eq!(orientation.lookup(3, 4), Some(true));
    assert_eq!(orientation.len(), 2);
}

#[test]
fn select_category_reveals_it() {
    let categories = word_list().categories;
    let mut state = playing(3);
    state.select_category(&categories, 3);
    assert_eq!(state.game_screen, GameScreen::CategorySelection);
    assert_eq!(state.selected_category_index, None);
    state.select_category(&categories, 2);
    assert_eq!(state.selected_category_index, Some(2));
    assert_eq!(
        state.game_screen,
        GameScreen::CategoryReveal { category_name: "Tools".to_string(), category_icon: "T".to_string() }
    );
    assert!(state.is_valid());
    state.back();
    assert_eq!(state.game_screen, GameScreen::CategorySelection);
    assert_eq!(state.selected_category_index, Some(2));
}

#[test]
fn start_round_deals_once() {
    let categories = word_list().categories;
    let mut orientation = OrientationMap::new();
    let mut state = playing(4);
    state.select_category(&categories, 1);
    state.start_round(&categories, &mut orientation, 0, 6);
    assert_eq!(state.game_screen, GameScreen::CardView { current_player_index: 0 });
    assert_eq!(state.imposter_index, 2);
    assert_eq!(state.cards.len(), 4);
    assert_eq!(state.current_category, Some(("Animals".to_string(), "A".to_string())));
    assert_eq!(state.current_round_words, Some(("Fox".to_string(), "Wolf".to_string())));
    assert!(state.is_valid());
    let dealt = state.clone();

    state.back_to_category_reveal();
    assert_eq!(
        state.game_screen,
        GameScreen::CategoryReveal { category_name: "Animals".to_string(), category_icon: "A".to_string() }
    );
    assert!(state.is_valid());
    state.start_round(&categories, &mut orientation, 1, 1);
    assert_eq!(state, dealt);
    assert_eq!(orientation.len(), 1);
    assert_eq!(orientation.lookup(1, 0), Some(true));
}

#[test]
fn back_to_the_reveal_only_before_anyone_has_looked() {
    let categories = word_list().categories;
    let mut orientation = OrientationMap::new();
    let mut state = playing(3);
    state.select_category(&categories, 0);
    state.start_round(&categories, &mut orientation, 0, 0);
    state.next_player();
    assert_eq!(state.game_screen, GameScreen::CardView { current_player_index: 1 });
    state.back_to_category_reveal();
    assert_eq!(state.game_screen, GameScreen::CardView { current_player_index: 1 });
}

#[test]
fn last_player_opens_the_vote() {
    let categories = word_list().categories;
    let mut orientation = OrientationMap::new();
    let mut state = playing(3);
    state.select_category(&categories, 0);
    state.start_round(&categories, &mut orientation, 0, 0);
    state.next_player();
    state.next_player();
    assert_eq!(state.game_screen, GameScreen::CardView { current_player_index: 2 });
    state.next_player();
    assert_eq!(state.game_screen, GameScreen::Voting);
    state.game_screen = GameScreen::CardView { current_player_index: 3 };
    state.next_player();
    assert_eq!(state.game_screen, GameScreen::Voting);
}
