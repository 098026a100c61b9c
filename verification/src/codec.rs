//! The stored form of a game state: how a state is written as a document,
//! how a document is read back, and the proof that reading back what was
//! written gives the state again.

use crate::document::{
    field, fields_model, find_field, lemma_field_found, lemma_list_model,
    lemma_record_model, nodes_model, Node, NodeModel,
};
use crate::types::{
    cards_model, players_model, texts_model, CardModel, CardType, GameCard, GameScreen, Player, PlayerModel,
    ScreenModel,
};
use vstd::prelude::*;
use vstd::string::StringExecFns;

verus! {

/// The text of a text node.
pub open spec fn text_of(node: NodeModel) -> Option<Seq<char>> {
    match node {
        NodeModel::Text(text) => Some(text),
        _ => None,
    }
}

/// The truth value of a truth-value node.
pub open spec fn bool_of(node: NodeModel) -> Option<bool> {
    match node {
        NodeModel::Bool(b) => Some(b),
        _ => None,
    }
}

/// The number of a number node, where it lies between `low` and `high`.
pub open spec fn number_between(node: NodeModel, low: int, high: int) -> Option<int> {
    match node {
        NodeModel::Number(n) => if low <= n <= high {
            Some(n)
        } else {
            None
        },
        _ => None,
    }
}

/// The score of a number node.
pub open spec fn score_of(node: NodeModel) -> Option<int> {
    number_between(node, i32::MIN as int, i32::MAX as int)
}

/// The position of a number node.
pub open spec fn index_of(node: NodeModel) -> Option<nat> {
    match number_between(node, 0, usize::MAX as int) {
        Some(n) => Some(n as nat),
        None => None,
    }
}

/// Reads a text node.
pub fn read_text(node: &Node) -> (r: Option<String>)
    ensures
        match r {
            Some(text) => text_of(node@) == Some(text@),
            None => text_of(node@) is None,
        },
{
    match node {
        Node::Text(text) => Some(text.clone()),
        _ => None,
    }
}

/// Reads a truth-value node.
pub fn read_bool(node: &Node) -> (r: Option<bool>)
    ensures
        r == bool_of(node@),
{
    match node {
        Node::Bool(b) => Some(*b),
        _ => None,
    }
}

/// Reads a number node as a score.
pub fn read_score(node: &Node) -> (r: Option<i32>)
    ensures
        match r {
            Some(n) => score_of(node@) == Some(n as int),
            None => score_of(node@) is None,
        },
{
    match node {
        Node::Number(n) => {
            if i32::MIN as i128 <= *n && *n <= i32::MAX as i128 {
                Some(*n as i32)
            } else {
                None
            }
        },
        _ => None,
    }
}

/// Reads a number node as a position.
pub fn read_index(node: &Node) -> (r: Option<usize>)
    ensures
        match r {
            Some(n) => index_of(node@) == Some(n as nat),
            None => index_of(node@) is None,
        },
{
    match node {
        Node::Number(n) => {
            if 0 <= *n && *n <= usize::MAX as i128 {
                Some(*n as usize)
            } else {
                None
            }
        },
        _ => None,
    }
}

/// A text node.
pub fn text_node(text: &String) -> (r: Node)
    ensures
        r@ == NodeModel::Text(text@),
{
    Node::Text(text.clone())
}

/// A record field with the name given.
pub fn named(key: &str, value: Node) -> (r: (String, Node))
    ensures
        r.0@ == key@,
        r.1 == value,
{
    (String::from_str(key), value)
}

/// The text of the field named `key`; none where the field is missing or
/// holds something else.
pub open spec fn text_field(fields: Seq<(Seq<char>, NodeModel)>, key: Seq<char>) -> Option<Seq<char>> {
    match field(fields, key) {
        Some(value) => text_of(value),
        None => None,
    }
}

/// The truth value of the field named `key`.
pub open spec fn bool_field(fields: Seq<(Seq<char>, NodeModel)>, key: Seq<char>) -> Option<bool> {
    match field(fields, key) {
        Some(value) => bool_of(value),
        None => None,
    }
}

/// The score in the field named `key`.
pub open spec fn score_field(fields: Seq<(Seq<char>, NodeModel)>, key: Seq<char>) -> Option<int> {
    match field(fields, key) {
        Some(value) => score_of(value),
        None => None,
    }
}

/// The position in the field named `key`.
pub open spec fn index_field(fields: Seq<(Seq<char>, NodeModel)>, key: Seq<char>) -> Option<nat> {
    match field(fields, key) {
        Some(value) => index_of(value),
        None => None,
    }
}

/// Reads the text of the field named `key`.
pub fn read_text_field(fields: &Vec<(String, Node)>, key: &str) -> (r: Option<String>)
    ensures
        match r {
            Some(text) => text_field(fields_model(fields@), key@) == Some(text@),
            None => text_field(fields_model(fields@), key@) is None,
        },
{
    match find_field(fields, &String::from_str(key)) {
        Some(found) => read_text(found),
        None => None,
    }
}

/// Reads the truth value of the field named `key`.
pub fn read_bool_field(fields: &Vec<(String, Node)>, key: &str) -> (r: Option<bool>)
    ensures
        r == bool_field(fields_model(fields@), key@),
{
    match find_field(fields, &String::from_str(key)) {
        Some(found) => read_bool(found),
        None => None,
    }
}

/// Reads the score in the field named `key`.
pub fn read_score_field(fields: &Vec<(String, Node)>, key: &str) -> (r: Option<i32>)
    ensures
        match r {
            Some(n) => score_field(fields_model(fields@), key@) == Some(n as int),
            None => score_field(fields_model(fields@), key@) is None,
        },
{
    match find_field(fields, &String::from_str(key)) {
        Some(found) => read_score(found),
        None => None,
    }
}

/// Reads the position in the field named `key`.
pub fn read_index_field(fields: &Vec<(String, Node)>, key: &str) -> (r: Option<usize>)
    ensures
        match r {
            Some(n) => index_field(fields_model(fields@), key@) == Some(n as nat),
            None => index_field(fields_model(fields@), key@) is None,
        },
{
    match find_field(fields, &String::from_str(key)) {
        Some(found) => read_index(found),
        None => None,
    }
}

/// The stored form of a player.
pub open spec fn encoded_player(player: PlayerModel) -> NodeModel {
    NodeModel::Record(
        seq![
            ("name"@, NodeModel::Text(player.name)),
            ("score"@, NodeModel::Number(player.score)),
            ("is_eliminated"@, NodeModel::Bool(player.is_eliminated)),
        ],
    )
}

/// The player that a document stands for: a record with a name, a score and
/// the elimination mark.
pub open spec fn decoded_player(node: NodeModel) -> Option<PlayerModel> {
    match node {
        NodeModel::Record(fields) => match (
            text_field(fields, "name"@),
            score_field(fields, "score"@),
            bool_field(fields, "is_eliminated"@),
        ) {
            (Some(name), Some(score), Some(is_eliminated)) => Some(PlayerModel { name, score, is_eliminated }),
            _ => None,
        },
        _ => None,
    }
}

/// The three field names of a player differ.
proof fn lemma_player_keys()
    ensures
        "name"@ != "score"@,
        "name"@ != "is_eliminated"@,
        "score"@ != "is_eliminated"@,
{
    reveal_strlit("name");
    reveal_strlit("score");
    reveal_strlit("is_eliminated");
    assert("name"@.len() != "score"@.len());
    assert("name"@.len() != "is_eliminated"@.len());
    assert("score"@.len() != "is_eliminated"@.len());
}

/// Reading back the stored form of a player gives the player.
pub proof fn lemma_player_round_trip(player: Player)
    ensures
        decoded_player(encoded_player(player@)) == Some(player@),
{
    lemma_player_keys();
    let fields = encoded_player(player@)->Record_0;
    lemma_field_found(fields, "name"@, 0);
    lemma_field_found(fields, "score"@, 1);
    lemma_field_found(fields, "is_eliminated"@, 2);
}

/// Writes a player as a document.
pub fn encode_player(player: &Player) -> (r: Node)
    ensures
        r@ == encoded_player(player@),
{
    let mut fields: Vec<(String, Node)> = Vec::new();
    fields.push(named("name", text_node(&player.name)));
    fields.push(named("score", Node::Number(player.score as i128)));
    fields.push(named("is_eliminated", Node::Bool(player.is_eliminated)));
    proof {
        lemma_record_model(fields);
        assert(fields_model(fields@) =~= encoded_player(player@)->Record_0);
    }
    Node::Record(fields)
}

/// Reads a player from a document.
pub fn decode_player(node: &Node) -> (r: Option<Player>)
    ensures
        match r {
            Some(player) => decoded_player(node@) == Some(player@),
            None => decoded_player(node@) is None,
        },
{
    match node {
        Node::Record(fields) => {
            proof {
                lemma_record_model(*fields);
            }
            let name = read_text_field(fields, "name");
            let score = read_score_field(fields, "score");
            let is_eliminated = read_bool_field(fields, "is_eliminated");
            match (name, score, is_eliminated) {
                (Some(name), Some(score), Some(is_eliminated)) => Some(Player { name, score, is_eliminated }),
                _ => None,
            }
        },
        _ => None,
    }
}

/// The name under which a role is stored.
pub open spec fn role_tag(role: CardType) -> Seq<char> {
    match role {
        CardType::Normal => "Normal"@,
        CardType::Imposter => "Imposter"@,
    }
}

/// The role stored under a name.
pub open spec fn role_of(tag: Seq<char>) -> Option<CardType> {
    if tag == "Normal"@ {
        Some(CardType::Normal)
    } else if tag == "Imposter"@ {
        Some(CardType::Imposter)
    } else {
        None
    }
}

/// The stored form of a card.
pub open spec fn encoded_card(card: CardModel) -> NodeModel {
    NodeModel::Record(
        seq![("card_type"@, NodeModel::Text(role_tag(card.card_type))), ("word"@, NodeModel::Text(card.word))],
    )
}

/// The card that a document stands for: a record with a role and a word.
pub open spec fn decoded_card(node: NodeModel) -> Option<CardModel> {
    match node {
        NodeModel::Record(fields) => match (text_field(fields, "card_type"@), text_field(fields, "word"@)) {
            (Some(tag), Some(word)) => match role_of(tag) {
                Some(card_type) => Some(CardModel { card_type, word }),
                None => None,
            },
            _ => None,
        },
        _ => None,
    }
}

/// Reading back the stored form of a card gives the card.
pub proof fn lemma_card_round_trip(card: CardModel)
    ensures
        decoded_card(encoded_card(card)) == Some(card),
{
    reveal_strlit("card_type");
    reveal_strlit("word");
    reveal_strlit("Normal");
    reveal_strlit("Imposter");
    assert("card_type"@.len() != "word"@.len());
    assert("Normal"@.len() != "Imposter"@.len());
    let fields = encoded_card(card)->Record_0;
    lemma_field_found(fields, "card_type"@, 0);
    lemma_field_found(fields, "word"@, 1);
}

/// Writes a card as a document.
pub fn encode_card(card: &GameCard) -> (r: Node)
    ensures
        r@ == encoded_card(card@),
{
    let tag = match card.card_type {
        CardType::Normal => String::from_str("Normal"),
        CardType::Imposter => String::from_str("Imposter"),
    };
    let mut fields: Vec<(String, Node)> = Vec::new();
    fields.push(named("card_type", Node::Text(tag)));
    fields.push(named("word", text_node(&card.word)));
    proof {
        lemma_record_model(fields);
        assert(fields_model(fields@) =~= encoded_card(card@)->Record_0);
    }
    Node::Record(fields)
}

/// Reads a role from its name.
pub fn read_role(tag: &String) -> (r: Option<CardType>)
    ensures
        r == role_of(tag@),
{
    if *tag == String::from_str("Normal") {
        Some(CardType::Normal)
    } else if *tag == String::from_str("Imposter") {
        Some(CardType::Imposter)
    } else {
        None
    }
}

/// Reads a card from a document.
pub fn decode_card(node: &Node) -> (r: Option<GameCard>)
    ensures
        match r {
            Some(card) => decoded_card(node@) == Some(card@),
            None => decoded_card(node@) is None,
        },
{
    match node {
        Node::Record(fields) => {
            proof {
                lemma_record_model(*fields);
            }
            let tag = read_text_field(fields, "card_type");
            let word = read_text_field(fields, "word");
            match (tag, word) {
                (Some(tag), Some(word)) => match read_role(&tag) {
                    Some(card_type) => Some(GameCard { card_type, word }),
                    None => None,
                },
                _ => None,
            }
        },
        _ => None,
    }
}

/// A record with one field, named after a variant and holding its fields.
pub open spec fn tagged(tag: Seq<char>, body: Seq<(Seq<char>, NodeModel)>) -> NodeModel {
    NodeModel::Record(seq![(tag, NodeModel::Record(body))])
}

/// The stored form of a phase: the name of the phase, or a record named
/// after the phase that holds what the phase carries.
pub open spec fn encoded_screen(screen: ScreenModel) -> NodeModel {
    match screen {
        ScreenModel::Setup => NodeModel::Text("Setup"@),
        ScreenModel::CategorySelection => NodeModel::Text("CategorySelection"@),
        ScreenModel::CategoryReveal { category_name, category_icon } => tagged(
            "CategoryReveal"@,
            seq![
                ("category_name"@, NodeModel::Text(category_name)),
                ("category_icon"@, NodeModel::Text(category_icon)),
            ],
        ),
        ScreenModel::CardView { current_player_index } => tagged(
            "CardView"@,
            seq![("current_player_index"@, NodeModel::Number(current_player_index as int))],
        ),
        ScreenModel::Voting => NodeModel::Text("Voting"@),
        ScreenModel::Elimination { eliminated_index, was_imposter } => tagged(
            "Elimination"@,
            seq![
                ("eliminated_index"@, NodeModel::Number(eliminated_index as int)),
                ("was_imposter"@, NodeModel::Bool(was_imposter)),
            ],
        ),
        ScreenModel::RoundEnd { imposter_found, game_over } => tagged(
            "RoundEnd"@,
            seq![
                ("imposter_found"@, NodeModel::Bool(imposter_found)),
                ("game_over"@, NodeModel::Bool(game_over)),
            ],
        ),
        ScreenModel::GameScore => NodeModel::Text("GameScore"@),
    }
}

/// The phase stored under a bare name.
pub open spec fn decoded_plain_screen(tag: Seq<char>) -> Option<ScreenModel> {
    if tag == "Setup"@ {
        Some(ScreenModel::Setup)
    } else if tag == "CategorySelection"@ {
        Some(ScreenModel::CategorySelection)
    } else if tag == "Voting"@ {
        Some(ScreenModel::Voting)
    } else if tag == "GameScore"@ {
        Some(ScreenModel::GameScore)
    } else {
        None
    }
}

/// The phase stored as a record named `tag` with the fields `body`.
pub open spec fn decoded_tagged_screen(tag: Seq<char>, body: Seq<(Seq<char>, NodeModel)>) -> Option<
    ScreenModel,
> {
    if tag == "CategoryReveal"@ {
        match (text_field(body, "category_name"@), text_field(body, "category_icon"@)) {
            (Some(category_name), Some(category_icon)) => Some(
                ScreenModel::CategoryReveal { category_name, category_icon },
            ),
            _ => None,
        }
    } else if tag == "CardView"@ {
        match index_field(body, "current_player_index"@) {
            Some(current_player_index) => Some(ScreenModel::CardView { current_player_index }),
            None => None,
        }
    } else if tag == "Elimination"@ {
        match (index_field(body, "eliminated_index"@), bool_field(body, "was_imposter"@)) {
            (Some(eliminated_index), Some(was_imposter)) => Some(
                ScreenModel::Elimination { eliminated_index, was_imposter },
            ),
            _ => None,
        }
    } else if tag == "RoundEnd"@ {
        match (bool_field(body, "imposter_found"@), bool_field(body, "game_over"@)) {
            (Some(imposter_found), Some(game_over)) => Some(ScreenModel::RoundEnd { imposter_found, game_over }),
            _ => None,
        }
    } else {
        None
    }
}

/// The phase that a document stands for.
pub open spec fn decoded_screen(node: NodeModel) -> Option<ScreenModel> {
    match node {
        NodeModel::Text(tag) => decoded_plain_screen(tag),
        NodeModel::Record(fields) => if fields.len() == 1 {
            match fields[0].1 {
                NodeModel::Record(body) => decoded_tagged_screen(fields[0].0, body),
                _ => None,
            }
        } else {
            None
        },
        _ => None,
    }
}

/// The names of the phases differ, and so do the names of what each carries.
proof fn lemma_screen_keys()
    ensures
        "Setup"@ != "CategorySelection"@,
        "Setup"@ != "Voting"@,
        "Setup"@ != "GameScore"@,
        "CategorySelection"@ != "Voting"@,
        "CategorySelection"@ != "GameScore"@,
        "Voting"@ != "GameScore"@,
        "CategoryReveal"@ != "CardView"@,
        "CategoryReveal"@ != "Elimination"@,
        "CategoryReveal"@ != "RoundEnd"@,
        "CardView"@ != "Elimination"@,
        "CardView"@ != "RoundEnd"@,
        "Elimination"@ != "RoundEnd"@,
        "category_name"@ != "category_icon"@,
        "eliminated_index"@ != "was_imposter"@,
        "imposter_found"@ != "game_over"@,
{
    reveal_strlit("Setup");
    reveal_strlit("CategorySelection");
    reveal_strlit("Voting");
    reveal_strlit("GameScore");
    reveal_strlit("CategoryReveal");
    reveal_strlit("CardView");
    reveal_strlit("Elimination");
    reveal_strlit("RoundEnd");
    reveal_strlit("category_name");
    reveal_strlit("category_icon");
    reveal_strlit("eliminated_index");
    reveal_strlit("was_imposter");
    reveal_strlit("imposter_found");
    reveal_strlit("game_over");
    assert("Setup"@.len() == 5 && "CategorySelection"@.len() == 17 && "Voting"@.len() == 6 && "GameScore"@.len()
        == 9);
    assert("CategoryReveal"@.len() == 14 && "CardView"@.len() == 8 && "Elimination"@.len() == 11
        && "RoundEnd"@.len() == 8);
    assert("CardView"@[0] != "RoundEnd"@[0]);
    assert("category_name"@[9] != "category_icon"@[9]);
    assert("eliminated_index"@.len() != "was_imposter"@.len());
    assert("imposter_found"@.len() != "game_over"@.len());
}

/// Reading back the stored form of a phase gives the phase.
pub proof fn lemma_screen_round_trip(screen: GameScreen)
    ensures
        decoded_screen(encoded_screen(screen@)) == Some(screen@),
{
    lemma_screen_keys();
    match screen@ {
        ScreenModel::CategoryReveal { .. } => {
            let body = encoded_screen(screen@)->Record_0[0].1->Record_0;
            lemma_field_found(body, "category_name"@, 0);
            lemma_field_found(body, "category_icon"@, 1);
        },
        ScreenModel::CardView { .. } => {
            let body = encoded_screen(screen@)->Record_0[0].1->Record_0;
            lemma_field_found(body, "current_player_index"@, 0);
        },
        ScreenModel::Elimination { .. } => {
            let body = encoded_screen(screen@)->Record_0[0].1->Record_0;
            lemma_field_found(body, "eliminated_index"@, 0);
            lemma_field_found(body, "was_imposter"@, 1);
        },
        ScreenModel::RoundEnd { .. } => {
            let body = encoded_screen(screen@)->Record_0[0].1->Record_0;
            lemma_field_found(body, "imposter_found"@, 0);
            lemma_field_found(body, "game_over"@, 1);
        },
        _ => {},
    }
}

/// A record with one field, named after a variant and holding its fields.
pub fn tagged_node(tag: &str, body: Vec<(String, Node)>) -> (r: Node)
    ensures
        r@ == tagged(tag@, fields_model(body@)),
{
    let mut fields: Vec<(String, Node)> = Vec::new();
    proof {
        lemma_record_model(body);
    }
    fields.push(named(tag, Node::Record(body)));
    proof {
        lemma_record_model(fields);
        assert(fields_model(fields@) =~= seq![(tag@, NodeModel::Record(fields_model(body@)))]);
    }
    Node::Record(fields)
}

/// Writes a phase as a document.
pub fn encode_screen(screen: &GameScreen) -> (r: Node)
    ensures
        r@ == encoded_screen(screen@),
{
    match screen {
        GameScreen::Setup => Node::Text(String::from_str("Setup")),
        GameScreen::CategorySelection => Node::Text(String::from_str("CategorySelection")),
        GameScreen::CategoryReveal { category_name, category_icon } => {
            let mut body: Vec<(String, Node)> = Vec::new();
            body.push(named("category_name", text_node(category_name)));
            body.push(named("category_icon", text_node(category_icon)));
            assert(fields_model(body@) =~= seq![
                ("category_name"@, NodeModel::Text(category_name@)),
                ("category_icon"@, NodeModel::Text(category_icon@)),
            ]);
            tagged_node("CategoryReveal", body)
        },
        GameScreen::CardView { current_player_index } => {
            let mut body: Vec<(String, Node)> = Vec::new();
            body.push(named("current_player_index", Node::Number(*current_player_index as i128)));
            assert(fields_model(body@) =~= seq![
                ("current_player_index"@, NodeModel::Number(*current_player_index as int)),
            ]);
            tagged_node("CardView", body)
        },
        GameScreen::Voting => Node::Text(String::from_str("Voting")),
        GameScreen::Elimination { eliminated_index, was_imposter } => {
            let mut body: Vec<(String, Node)> = Vec::new();
            body.push(named("eliminated_index", Node::Number(*eliminated_index as i128)));
            body.push(named("was_imposter", Node::Bool(*was_imposter)));
            assert(fields_model(body@) =~= seq![
                ("eliminated_index"@, NodeModel::Number(*eliminated_index as int)),
                ("was_imposter"@, NodeModel::Bool(*was_imposter)),
            ]);
            tagged_node("Elimination", body)
        },
        GameScreen::RoundEnd { imposter_found, game_over } => {
            let mut body: Vec<(String, Node)> = Vec::new();
            body.push(named("imposter_found", Node::Bool(*imposter_found)));
            body.push(named("game_over", Node::Bool(*game_over)));
            assert(fields_model(body@) =~= seq![
                ("imposter_found"@, NodeModel::Bool(*imposter_found)),
                ("game_over"@, NodeModel::Bool(*game_over)),
            ]);
            tagged_node("RoundEnd", body)
        },
        GameScreen::GameScore => Node::Text(String::from_str("GameScore")),
    }
}

/// Whether a text is the name given.
pub fn is_tag(text: &String, tag: &str) -> (r: bool)
    ensures
        r == (text@ == tag@),
{
    *text == String::from_str(tag)
}

/// Reads a phase that is stored as a record named `tag`.
pub fn decode_tagged_screen(tag: &String, body: &Vec<(String, Node)>) -> (r: Option<GameScreen>)
    ensures
        match r {
            Some(screen) => decoded_tagged_screen(tag@, fields_model(body@)) == Some(screen@),
            None => decoded_tagged_screen(tag@, fields_model(body@)) is None,
        },
{
    if is_tag(tag, "CategoryReveal") {
        match (read_text_field(body, "category_name"), read_text_field(body, "category_icon")) {
            (Some(category_name), Some(category_icon)) => Some(
                GameScreen::CategoryReveal { category_name, category_icon },
            ),
            _ => None,
        }
    } else if is_tag(tag, "CardView") {
        match read_index_field(body, "current_player_index") {
            Some(current_player_index) => Some(GameScreen::CardView { current_player_index }),
            None => None,
        }
    } else if is_tag(tag, "Elimination") {
        match (read_index_field(body, "eliminated_index"), read_bool_field(body, "was_imposter")) {
            (Some(eliminated_index), Some(was_imposter)) => Some(
                GameScreen::Elimination { eliminated_index, was_imposter },
            ),
            _ => None,
        }
    } else if is_tag(tag, "RoundEnd") {
        match (read_bool_field(body, "imposter_found"), read_bool_field(body, "game_over")) {
            (Some(imposter_found), Some(game_over)) => Some(GameScreen::RoundEnd { imposter_found, game_over }),
            _ => None,
        }
    } else {
        None
    }
}

/// Reads a phase from a document.
pub fn decode_screen(node: &Node) -> (r: Option<GameScreen>)
    ensures
        match r {
            Some(screen) => decoded_screen(node@) == Some(screen@),
            None => decoded_screen(node@) is None,
        },
{
    match node {
        Node::Text(tag) => {
            if is_tag(tag, "Setup") {
                Some(GameScreen::Setup)
            } else if is_tag(tag, "CategorySelection") {
                Some(GameScreen::CategorySelection)
            } else if is_tag(tag, "Voting") {
                Some(GameScreen::Voting)
            } else if is_tag(tag, "GameScore") {
                Some(GameScreen::GameScore)
            } else {
                None
            }
        },
        Node::Record(fields) => {
            proof {
                lemma_record_model(*fields);
            }
            if fields.len() == 1 {
                match &fields[0].1 {
                    Node::Record(body) => {
                        proof {
                            lemma_record_model(*body);
                        }
                        decode_tagged_screen(&fields[0].0, body)
                    },
                    _ => None,
                }
            } else {
                None
            }
        },
        _ => None,
    }
}

/// The stored form of the players: a list of their stored forms.
pub open spec fn encoded_players(players: Seq<PlayerModel>) -> NodeModel {
    NodeModel::List(Seq::new(players.len(), |i: int| encoded_player(players[i])))
}

/// The players that a document stands for: a list in which every item
/// stands for a player.
pub open spec fn decoded_players(node: NodeModel) -> Option<Seq<PlayerModel>> {
    match node {
        NodeModel::List(items) => if forall|i: int|
            0 <= i < items.len() ==> decoded_player(#[trigger] items[i]) is Some {
            Some(Seq::new(items.len(), |i: int| decoded_player(items[i])->0))
        } else {
            None
        },
        _ => None,
    }
}

/// Reading back the stored form of the players gives the players.
pub proof fn lemma_players_round_trip(players: Seq<Player>)
    ensures
        decoded_players(encoded_players(players_model(players))) == Some(players_model(players)),
{
    let model = players_model(players);
    let items = encoded_players(model)->List_0;
    assert forall|i: int| 0 <= i < items.len() implies decoded_player(#[trigger] items[i]) == Some(
        model[i],
    ) by {
        lemma_player_round_trip(players[i]);
    }
    assert(decoded_players(encoded_players(model))->0 =~= model);
}

/// Writes the players as a document.
pub fn encode_players(players: &Vec<Player>) -> (r: Node)
    ensures
        r@ == encoded_players(players_model(players@)),
{
    let mut items: Vec<Node> = Vec::new();
    let mut i: usize = 0;
    while i < players.len()
        invariant
            i <= players.len(),
            items.len() == i,
            forall|j: int| 0 <= j < i ==> (#[trigger] items[j])@ == encoded_player(players[j]@),
        decreases players.len() - i,
    {
        items.push(encode_player(&players[i]));
        i += 1;
    }
    proof {
        lemma_list_model(items);
        assert(nodes_model(items@) =~= encoded_players(players_model(players@))->List_0);
    }
    Node::List(items)
}

/// Reads the players from a document.
pub fn decode_players(node: &Node) -> (r: Option<Vec<Player>>)
    ensures
        match r {
            Some(players) => decoded_players(node@) == Some(players_model(players@)),
            None => decoded_players(node@) is None,
        },
{
    match node {
        Node::List(items) => {
            proof {
                lemma_list_model(*items);
            }
            let ghost model = nodes_model(items@);
            let mut out: Vec<Player> = Vec::new();
            let mut i: usize = 0;
            while i < items.len()
                invariant
                    i <= items.len(),
                    out.len() == i,
                    model == nodes_model(items@),
                    node@ == NodeModel::List(model),
                    forall|j: int| 0 <= j < i ==> decoded_player(#[trigger] model[j]) == Some(out[j]@),
                decreases items.len() - i,
            {
                assert(model[i as int] == items[i as int]@);
                match decode_player(&items[i]) {
                    Some(player) => out.push(player),
                    None => {
                        return None;
                    },
                }
                i += 1;
            }
            assert(decoded_players(node@)->0 =~= players_model(out@));
            Some(out)
        },
        _ => None,
    }
}

/// The stored form of the cards: a list of their stored forms.
pub open spec fn encoded_cards(cards: Seq<CardModel>) -> NodeModel {
    NodeModel::List(Seq::new(cards.len(), |i: int| encoded_card(cards[i])))
}

/// The cards that a document stands for: a list in which every item stands
/// for a card.
pub open spec fn decoded_cards(node: NodeModel) -> Option<Seq<CardModel>> {
    match node {
        NodeModel::List(items) => if forall|i: int|
            0 <= i < items.len() ==> decoded_card(#[trigger] items[i]) is Some {
            Some(Seq::new(items.len(), |i: int| decoded_card(items[i])->0))
        } else {
            None
        },
        _ => None,
    }
}

/// Reading back the stored form of the cards gives the cards.
pub proof fn lemma_cards_round_trip(cards: Seq<CardModel>)
    ensures
        decoded_cards(encoded_cards(cards)) == Some(cards),
{
    let items = encoded_cards(cards)->List_0;
    assert forall|i: int| 0 <= i < items.len() implies decoded_card(#[trigger] items[i]) == Some(cards[i]) by {
        lemma_card_round_trip(cards[i]);
    }
    assert(decoded_cards(encoded_cards(cards))->0 =~= cards);
}

/// Writes the cards as a document.
pub fn encode_cards(cards: &Vec<GameCard>) -> (r: Node)
    ensures
        r@ == encoded_cards(cards_model(cards@)),
{
    let mut items: Vec<Node> = Vec::new();
    let mut i: usize = 0;
    while i < cards.len()
        invariant
            i <= cards.len(),
            items.len() == i,
            forall|j: int| 0 <= j < i ==> (#[trigger] items[j])@ == encoded_card(cards[j]@),
        decreases cards.len() - i,
    {
        items.push(encode_card(&cards[i]));
        i += 1;
    }
    proof {
        lemma_list_model(items);
        assert(nodes_model(items@) =~= encoded_cards(cards_model(cards@))->List_0);
    }
    Node::List(items)
}

/// Reads the cards from a document.
pub fn decode_cards(node: &Node) -> (r: Option<Vec<GameCard>>)
    ensures
        match r {
            Some(cards) => decoded_cards(node@) == Some(cards_model(cards@)),
            None => decoded_cards(node@) is None,
        },
{
    match node {
        Node::List(items) => {
            proof {
                lemma_list_model(*items);
            }
            let ghost model = nodes_model(items@);
            let mut out: Vec<GameCard> = Vec::new();
            let mut i: usize = 0;
            while i < items.len()
                invariant
                    i <= items.len(),
                    out.len() == i,
                    model == nodes_model(items@),
                    node@ == NodeModel::List(model),
                    forall|j: int| 0 <= j < i ==> decoded_card(#[trigger] model[j]) == Some(out[j]@),
                decreases items.len() - i,
            {
                assert(model[i as int] == items[i as int]@);
                match decode_card(&items[i]) {
                    Some(card) => out.push(card),
                    None => {
                        return None;
                    },
                }
                i += 1;
            }
            assert(decoded_cards(node@)->0 =~= cards_model(out@));
            Some(out)
        },
        _ => None,
    }
}

/// The stored form of a sequence of texts: a list of text nodes.
pub open spec fn encoded_texts(texts: Seq<Seq<char>>) -> NodeModel {
    NodeModel::List(Seq::new(texts.len(), |i: int| NodeModel::Text(texts[i])))
}

/// The texts that a document stands for: a list of text nodes.
pub open spec fn decoded_texts(node: NodeModel) -> Option<Seq<Seq<char>>> {
    match node {
        NodeModel::List(items) => if forall|i: int| 0 <= i < items.len() ==> text_of(#[trigger] items[i]) is Some {
            Some(Seq::new(items.len(), |i: int| text_of(items[i])->0))
        } else {
            None
        },
        _ => None,
    }
}

/// Reading back the stored form of a sequence of texts gives the texts.
pub proof fn lemma_texts_round_trip(texts: Seq<Seq<char>>)
    ensures
        decoded_texts(encoded_texts(texts)) == Some(texts),
{
    assert(decoded_texts(encoded_texts(texts))->0 =~= texts);
}

/// Writes a sequence of texts as a document.
pub fn encode_texts(texts: &Vec<String>) -> (r: Node)
    ensures
        r@ == encoded_texts(texts_model(texts@)),
{
    let mut items: Vec<Node> = Vec::new();
    let mut i: usize = 0;
    while i < texts.len()
        invariant
            i <= texts.len(),
            items.len() == i,
            forall|j: int| 0 <= j < i ==> (#[trigger] items[j])@ == NodeModel::Text(texts[j]@),
        decreases texts.len() - i,
    {
        items.push(text_node(&texts[i]));
        i += 1;
    }
    proof {
        lemma_list_model(items);
        assert(nodes_model(items@) =~= encoded_texts(texts_model(texts@))->List_0);
    }
    Node::List(items)
}

/// Reads a sequence of texts from a document.
pub fn decode_texts(node: &Node) -> (r: Option<Vec<String>>)
    ensures
        match r {
            Some(texts) => decoded_texts(node@) == Some(texts_model(texts@)),
            None => decoded_texts(node@) is None,
        },
{
    match node {
        Node::List(items) => {
            proof {
                lemma_list_model(*items);
            }
            let ghost model = nodes_model(items@);
            let mut out: Vec<String> = Vec::new();
            let mut i: usize = 0;
            while i < items.len()
                invariant
                    i <= items.len(),
                    out.len() == i,
                    model == nodes_model(items@),
                    node@ == NodeModel::List(model),
                    forall|j: int| 0 <= j < i ==> text_of(#[trigger] model[j]) == Some(out[j]@),
                decreases items.len() - i,
            {
                assert(model[i as int] == items[i as int]@);
                match read_text(&items[i]) {
                    Some(text) => out.push(text),
                    None => {
                        return None;
                    },
                }
                i += 1;
            }
            assert(decoded_texts(node@)->0 =~= texts_model(out@));
            Some(out)
        },
        _ => None,
    }
}

/// The stored form of an optional pair of texts: nothing, or a list of two
/// text nodes.
pub open spec fn encoded_pair(pair: Option<(Seq<char>, Seq<char>)>) -> NodeModel {
    match pair {
        Some(p) => NodeModel::List(seq![NodeModel::Text(p.0), NodeModel::Text(p.1)]),
        None => NodeModel::Null,
    }
}

/// The optional pair of texts that a document stands for.
pub open spec fn decoded_pair(node: NodeModel) -> Option<Option<(Seq<char>, Seq<char>)>> {
    match node {
        NodeModel::Null => Some(None),
        NodeModel::List(items) => if items.len() == 2 {
            match (text_of(items[0]), text_of(items[1])) {
                (Some(first), Some(second)) => Some(Some((first, second))),
                _ => None,
            }
        } else {
            None
        },
        _ => None,
    }
}

/// Reading back the stored form of an optional pair gives the pair.
pub proof fn lemma_pair_round_trip(pair: Option<(Seq<char>, Seq<char>)>)
    ensures
        decoded_pair(encoded_pair(pair)) == Some(pair),
{
}

/// Writes an optional pair of texts as a document.
pub fn encode_pair(pair: &Option<(String, String)>) -> (r: Node)
    ensures
        r@ == encoded_pair(crate::types::text_pair_model(*pair)),
{
    match pair {
        Some(p) => {
            let mut items: Vec<Node> = Vec::new();
            items.push(text_node(&p.0));
            items.push(text_node(&p.1));
            proof {
                lemma_list_model(items);
                assert(nodes_model(items@) =~= seq![NodeModel::Text(p.0@), NodeModel::Text(p.1@)]);
            }
            Node::List(items)
        },
        None => Node::Null,
    }
}

/// Reads an optional pair of texts from a document. The outer `None` says
/// that the document stands for no such pair.
pub fn decode_pair(node: &Node) -> (r: Option<Option<(String, String)>>)
    ensures
        match r {
            Some(pair) => decoded_pair(node@) == Some(crate::types::text_pair_model(pair)),
            None => decoded_pair(node@) is None,
        },
{
    match node {
        Node::Null => Some(None),
        Node::List(items) => {
            proof {
                lemma_list_model(*items);
            }
            if items.len() == 2 {
                assert(nodes_model(items@)[0] == items[0]@);
                assert(nodes_model(items@)[1] == items[1]@);
                match (read_text(&items[0]), read_text(&items[1])) {
                    (Some(first), Some(second)) => Some(Some((first, second))),
                    _ => None,
                }
            } else {
                None
            }
        },
        _ => None,
    }
}

/// The stored form of an optional position: nothing, or a number.
pub open spec fn encoded_choice(choice: Option<nat>) -> NodeModel {
    match choice {
        Some(index) => NodeModel::Number(index as int),
        None => NodeModel::Null,
    }
}

/// The optional position that a document stands for.
pub open spec fn decoded_choice(node: NodeModel) -> Option<Option<nat>> {
    match node {
        NodeModel::Null => Some(None),
        _ => match index_of(node) {
            Some(index) => Some(Some(index)),
            None => None,
        },
    }
}

/// Writes an optional position as a document.
pub fn encode_choice(choice: &Option<usize>) -> (r: Node)
    ensures
        r@ == encoded_choice(crate::types::index_model(*choice)),
{
    match choice {
        Some(index) => Node::Number(*index as i128),
        None => Node::Null,
    }
}

/// Reads an optional position from a document. The outer `None` says that
/// the document stands for no such position.
pub fn decode_choice(node: &Node) -> (r: Option<Option<usize>>)
    ensures
        match r {
            Some(choice) => decoded_choice(node@) == Some(crate::types::index_model(choice)),
            None => decoded_choice(node@) is None,
        },
{
    match node {
        Node::Null => Some(None),
        _ => match read_index(node) {
            Some(index) => Some(Some(index)),
            None => None,
        },
    }
}

} // verus!
