use agent_x::codec::{
    decode_card, decode_cards, decode_choice, decode_pair, decode_players, decode_tagged_screen, decode_texts,
    encode_cards, encode_choice, encode_pair, encode_players, encode_texts, is_tag, named, read_bool,
    read_bool_field, read_index, read_index_field, read_role, read_score, read_score_field, read_text,
    read_text_field, tagged_node, text_node,
};
use agent_x::dealer::RoundDeal;
use agent_x::document::Node;
use agent_x::machine::return_all;
use agent_x::setup::{all_names_given, build_players};
use agent_x::types::{
    clone_cards, clone_players, clone_text_pair, clone_texts, CardType, GameCard, GameScreen, GameState, Player,
};
use agent_x::validity::{cards_are_valid, words_are_dealt};

fn text(value: &str) -> Node {
    Node::Text(value.to_string())
}

fn card(card_type: CardType, word: &str) -> GameCard {
    GameCard { card_type, word: word.to_string() }
}

#[test]
fn scalars_are_read_from_nodes_of_their_kind() {
    assert_eq!(read_text(&text("a")), Some("a".to_string()));
    assert_eq!(read_text(&Node::Number(1)), None);
    assert_eq!(read_bool(&Node::Bool(true)), Some(true));
    assert_eq!(read_bool(&Node::Null), None);
    assert_eq!(read_score(&Node::Number(-2147483648)), Some(i32::MIN));
    assert_eq!(read_score(&Node::Number(2147483647)), Some(i32::MAX));
    assert_eq!(read_score(&Node::Number(-2147483649)), None);
    assert_eq!(read_score(&text("1")), None);
    assert_eq!(read_index(&Node::Number(0)), Some(0));
    assert_eq!(read_index(&Node::Number(usize::MAX as i128)), Some(usize::MAX));
    assert_eq!(read_index(&Node::Number(usize::MAX as i128 + 1)), None);
    assert_eq!(read_index(&Node::Number(-1)), None);
    assert_eq!(read_index(&Node::Bool(false)), None);
}

#[test]
fn fields_are_read_by_name() {
    let fields = vec![
        named("n", text("Ann")),
        named("b", Node::Bool(false)),
        named("s", Node::Number(-7)),
        named("i", Node::Number(7)),
    ];
    assert_eq!(fields[0], ("n".to_string(), text("Ann")));
    assert_eq!(read_text_field(&fields, "n"), Some("Ann".to_string()));
    assert_eq!(read_text_field(&fields, "b"), None);
    assert_eq!(read_text_field(&fields, "x"), None);
    assert_eq!(read_bool_field(&fields, "b"), Some(false));
    assert_eq!(read_bool_field(&fields, "n"), None);
    assert_eq!(read_score_field(&fields, "s"), Some(-7));
    assert_eq!(read_score_field(&fields, "N"), None);
    assert_eq!(read_index_field(&fields, "i"), Some(7));
    assert_eq!(read_index_field(&fields, "s"), None);
    assert_eq!(text_node(&"w".to_string()), text("w"));
}

#[test]
fn tags_name_roles_and_phases() {
    assert!(is_tag(&"Voting".to_string(), "Voting"));
    assert!(!is_tag(&"voting".to_string(), "Voting"));
    assert_eq!(read_role(&"Normal".to_string()), Some(CardType::Normal));
    assert_eq!(read_role(&"Imposter".to_string()), Some(CardType::Imposter));
    assert_eq!(read_role(&"imposter".to_string()), None);
    assert_eq!(
        tagged_node("CardView", vec![named("current_player_index", Node::Number(3))]),
        Node::Record(vec![(
            "CardView".to_string(),
            Node::Record(vec![("current_player_index".to_string(), Node::Number(3))])
        )])
    );
    assert_eq!(
        decode_tagged_screen(&"CardView".to_string(), &vec![named("current_player_index", Node::Number(3))]),
        Some(GameScreen::CardView { current_player_index: 3 })
    );
    assert_eq!(
        decode_tagged_screen(
            &"Elimination".to_string(),
            &vec![named("was_imposter", Node::Bool(true)), named("eliminated_index", Node::Number(1))]
        ),
        Some(GameScreen::Elimination { eliminated_index: 1, was_imposter: true })
    );
    assert_eq!(decode_tagged_screen(&"Setup".to_string(), &vec![]), None);
    assert_eq!(decode_tagged_screen(&"CardView".to_string(), &vec![]), None);
}

#[test]
fn lists_are_read_item_by_item() {
    let players = vec![
        Player { name: "Ann".to_string(), score: 3, is_eliminated: false },
        Player { name: "Bo".to_string(), score: -3, is_eliminated: true },
    ];
    assert_eq!(decode_players(&encode_players(&players)), Some(clone_players(&players)));
    assert_eq!(decode_players(&Node::List(vec![])), Some(vec![]));
    assert_eq!(decode_players(&Node::Null), None);
    assert_eq!(decode_players(&Node::List(vec![Node::Null])), None);

    let cards = vec![card(CardType::Normal, "Pear"), card(CardType::Imposter, "Apple")];
    assert_eq!(decode_cards(&encode_cards(&cards)), Some(clone_cards(&cards)));
    assert_eq!(decode_cards(&text("cards")), None);
    assert_eq!(decode_card(&Node::Record(vec![named("word", text("w"))])), None);

    let texts = vec!["a".to_string(), String::new(), "ç".to_string()];
    assert_eq!(encode_texts(&texts), Node::List(vec![text("a"), text(""), text("ç")]));
    assert_eq!(decode_texts(&encode_texts(&texts)), Some(clone_texts(&texts)));
    assert_eq!(decode_texts(&Node::List(vec![text("a"), Node::Null])), None);
    assert_eq!(decode_texts(&Node::Record(vec![])), None);
}

#[test]
fn pairs_and_choices_may_be_absent() {
    let pair = Some(("a".to_string(), "b".to_string()));
    assert_eq!(encode_pair(&pair), Node::List(vec![text("a"), text("b")]));
    assert_eq!(encode_pair(&None), Node::Null);
    assert_eq!(decode_pair(&encode_pair(&pair)), Some(clone_text_pair(&pair)));
    assert_eq!(decode_pair(&Node::Null), Some(None));
    assert_eq!(decode_pair(&Node::List(vec![text("a"), text("b"), text("c")])), None);
    assert_eq!(decode_pair(&Node::List(vec![text("a"), Node::Number(1)])), None);
    assert_eq!(decode_pair(&text("ab")), None);
    assert_eq!(encode_choice(&Some(4)), Node::Number(4));
    assert_eq!(encode_choice(&None), Node::Null);
    assert_eq!(decode_choice(&Node::Number(4)), Some(Some(4)));
    assert_eq!(decode_choice(&Node::Null), Some(None));
    assert_eq!(decode_choice(&Node::Number(-4)), None);
    assert_eq!(decode_choice(&Node::Bool(true)), None);
}

#[test]
fn names_are_given_when_none_is_blank() {
    assert!(all_names_given(&vec!["Ann".to_string(), " Bo ".to_string(), ".".to_string()]));
    assert!(!all_names_given(&vec!["Ann".to_string(), String::new()]));
    assert!(!all_names_given(&vec![" \u{a0}\u{2003}".to_string()]));
    assert!(all_names_given(&vec![]));
    let players = build_players(&vec!["Ann".to_string(), String::new()]);
    assert_eq!(
        players,
        vec![
            Player { name: "Ann".to_string(), score: 0, is_eliminated: false },
            Player { name: String::new(), score: 0, is_eliminated: false },
        ]
    );
}

#[test]
fn everybody_returns_with_the_score_kept() {
    let mut players = vec![
        Player { name: "Ann".to_string(), score: 3, is_eliminated: true },
        Player { name: "Bo".to_string(), score: 5, is_eliminated: false },
    ];
    return_all(&mut players);
    assert_eq!(
        players,
        vec![
            Player { name: "Ann".to_string(), score: 3, is_eliminated: false },
            Player { name: "Bo".to_string(), score: 5, is_eliminated: false },
        ]
    );
}

#[test]
fn a_deal_is_taken_into_the_state() {
    let mut state = GameState::new("s".to_string());
    state.begin_game();
    let before = state.clone();
    state.take_deal(RoundDeal {
        cards: vec![card(CardType::Normal, "a"), card(CardType::Imposter, "b"), card(CardType::Normal, "a")],
        imposter_index: 1,
        category_name: "C".to_string(),
        category_icon: "i".to_string(),
        civilian_word: "a".to_string(),
        imposter_word: "b".to_string(),
    });
    assert_eq!(state.cards.len(), 3);
    assert_eq!(state.imposter_index, 1);
    assert_eq!(state.current_category, Some(("C".to_string(), "i".to_string())));
    assert_eq!(state.current_round_words, Some(("a".to_string(), "b".to_string())));
    assert_eq!(state.game_screen, before.game_screen);
    assert_eq!(state.players, before.players);
    assert_eq!(state.round_number, before.round_number);
}

#[test]
fn cards_are_checked_against_the_record() {
    let cards = vec![card(CardType::Normal, "a"), card(CardType::Imposter, "b"), card(CardType::Normal, "a")];
    assert!(cards_are_valid(&cards, 1, 3));
    assert!(!cards_are_valid(&cards, 0, 3));
    assert!(!cards_are_valid(&cards, 1, 4));
    assert!(!cards_are_valid(&cards, 3, 3));
    assert!(!cards_are_valid(&vec![], 0, 0));
    assert!(!cards_are_valid(&vec![card(CardType::Normal, "a")], 0, 1));
    assert!(cards_are_valid(&vec![card(CardType::Imposter, "a")], 0, 1));
    let words = ("a".to_string(), "b".to_string());
    assert!(words_are_dealt(&cards, 1, &words));
    assert!(!words_are_dealt(&cards, 0, &words));
    assert!(!words_are_dealt(&cards, 1, &("b".to_string(), "a".to_string())));
    assert!(!words_are_dealt(&vec![], 0, &("a".to_string(), "a".to_string())));
    assert!(words_are_dealt(&vec![], 0, &words));
}
