//! The stored form of a whole game state, and the proof that a state that is
//! saved and loaded again is the state that was saved.

use crate::codec::{
    decode_cards, decode_choice, decode_pair, decode_players, decode_screen, decode_texts, decoded_cards,
    decoded_choice, decoded_pair, decoded_players, decoded_screen, decoded_texts, encode_cards,
    encode_choice, encode_pair, encode_players, encode_screen, encode_texts, encoded_cards,
    encoded_choice, encoded_pair, encoded_players, encoded_screen, encoded_texts, index_of,
    lemma_cards_round_trip, lemma_pair_round_trip, lemma_players_round_trip, lemma_screen_round_trip,
    lemma_texts_round_trip, named, read_index, read_score, read_text, score_of, text_node, text_of,
};
use crate::document::{
    field, fields_model, find_field, lemma_field_found, lemma_record_model, Node, NodeModel,
};
use crate::machine::fresh_state;
use crate::persistence::{restored, saved_model};
use crate::types::{GameState, StateModel};
use vstd::prelude::*;
use vstd::string::StringExecFns;

verus! {

/// The stored form of a game state: a record with one field for each part of
/// the state.
pub open spec fn encoded_state(s: StateModel) -> NodeModel {
    NodeModel::Record(
        seq![
            ("session_id"@, NodeModel::Text(s.session_id)),
            ("game_screen"@, encoded_screen(s.game_screen)),
            ("players"@, encoded_players(s.players)),
            ("player_count_input"@, NodeModel::Text(s.player_count_input)),
            ("player_names"@, encoded_texts(s.player_names)),
            ("round_number"@, NodeModel::Number(s.round_number)),
            ("cards"@, encoded_cards(s.cards)),
            ("imposter_index"@, NodeModel::Number(s.imposter_index as int)),
            ("current_category"@, encoded_pair(s.current_category)),
            ("selected_category_index"@, encoded_choice(s.selected_category_index)),
            ("starting_player_offset"@, NodeModel::Number(s.starting_player_offset as int)),
            ("current_round_words"@, encoded_pair(s.current_round_words)),
        ],
    )
}

/// What a field stands for: what `read` makes of its value, or `default`
/// where the field is missing. None where the value cannot be read.
pub open spec fn or_default<T>(
    found: Option<NodeModel>,
    read: spec_fn(NodeModel) -> Option<T>,
    default: T,
) -> Option<T> {
    match found {
        Some(value) => read(value),
        None => Some(default),
    }
}

/// The game state that a document stands for: a record whose fields are read
/// by name. A field that is missing has the value that a fresh state has; a
/// field of another name is passed over; and a field that cannot be read
/// leaves the document without a state.
pub open spec fn decoded_state(node: NodeModel) -> Option<StateModel> {
    match node {
        NodeModel::Record(fields) => {
            let fresh = fresh_state(Seq::empty());
            let session_id = or_default(field(fields, "session_id"@), |n: NodeModel| text_of(n), fresh.session_id);
            let game_screen = or_default(
                field(fields, "game_screen"@),
                |n: NodeModel| decoded_screen(n),
                fresh.game_screen,
            );
            let players = or_default(field(fields, "players"@), |n: NodeModel| decoded_players(n), fresh.players);
            let player_count_input = or_default(
                field(fields, "player_count_input"@),
                |n: NodeModel| text_of(n),
                fresh.player_count_input,
            );
            let player_names = or_default(
                field(fields, "player_names"@),
                |n: NodeModel| decoded_texts(n),
                fresh.player_names,
            );
            let round_number = or_default(
                field(fields, "round_number"@),
                |n: NodeModel| score_of(n),
                fresh.round_number,
            );
            let cards = or_default(field(fields, "cards"@), |n: NodeModel| decoded_cards(n), fresh.cards);
            let imposter_index = or_default(
                field(fields, "imposter_index"@),
                |n: NodeModel| index_of(n),
                fresh.imposter_index,
            );
            let current_category = or_default(
                field(fields, "current_category"@),
                |n: NodeModel| decoded_pair(n),
                fresh.current_category,
            );
            let selected_category_index = or_default(
                field(fields, "selected_category_index"@),
                |n: NodeModel| decoded_choice(n),
                fresh.selected_category_index,
            );
            let starting_player_offset = or_default(
                field(fields, "starting_player_offset"@),
                |n: NodeModel| index_of(n),
                fresh.starting_player_offset,
            );
            let current_round_words = or_default(
                field(fields, "current_round_words"@),
                |n: NodeModel| decoded_pair(n),
                fresh.current_round_words,
            );
            if session_id is Some && game_screen is Some && players is Some && player_count_input is Some
                && player_names is Some && round_number is Some && cards is Some && imposter_index is Some
                && current_category is Some && selected_category_index is Some
                && starting_player_offset is Some && current_round_words is Some {
                Some(
                    StateModel {
                        session_id: session_id->0,
                        game_screen: game_screen->0,
                        players: players->0,
                        player_count_input: player_count_input->0,
                        player_names: player_names->0,
                        round_number: round_number->0,
                        cards: cards->0,
                        imposter_index: imposter_index->0,
                        current_category: current_category->0,
                        selected_category_index: selected_category_index->0,
                        starting_player_offset: starting_player_offset->0,
                        current_round_words: current_round_words->0,
                    },
                )
            } else {
                None
            }
        },
        _ => None,
    }
}

/// The twelve field names of a state differ from one another.
proof fn lemma_state_keys(fields: Seq<(Seq<char>, NodeModel)>)
    requires
        fields.len() == 12,
        fields[0].0 == "session_id"@,
        fields[1].0 == "game_screen"@,
        fields[2].0 == "players"@,
        fields[3].0 == "player_count_input"@,
        fields[4].0 == "player_names"@,
        fields[5].0 == "round_number"@,
        fields[6].0 == "cards"@,
        fields[7].0 == "imposter_index"@,
        fields[8].0 == "current_category"@,
        fields[9].0 == "selected_category_index"@,
        fields[10].0 == "starting_player_offset"@,
        fields[11].0 == "current_round_words"@,
    ensures
        forall|i: int, j: int| 0 <= i < j < 12 ==> (#[trigger] fields[i]).0 != (#[trigger] fields[j]).0,
{
    reveal_strlit("session_id");
    reveal_strlit("game_screen");
    reveal_strlit("players");
    reveal_strlit("player_count_input");
    reveal_strlit("player_names");
    reveal_strlit("round_number");
    reveal_strlit("cards");
    reveal_strlit("imposter_index");
    reveal_strlit("current_category");
    reveal_strlit("selected_category_index");
    reveal_strlit("starting_player_offset");
    reveal_strlit("current_round_words");
    assert(fields[0].0.len() == 10);
    assert(fields[1].0.len() == 11);
    assert(fields[2].0.len() == 7);
    assert(fields[3].0.len() == 18);
    assert(fields[4].0.len() == 12);
    assert(fields[5].0.len() == 12);
    assert(fields[6].0.len() == 5);
    assert(fields[7].0.len() == 14);
    assert(fields[8].0.len() == 16);
    assert(fields[9].0.len() == 23);
    assert(fields[10].0.len() == 22);
    assert(fields[11].0.len() == 19);
    assert(fields[4].0[0] != fields[5].0[0]);
}

/// Reading back the stored form of a state gives the state.
pub proof fn lemma_state_round_trip(state: GameState)
    ensures
        decoded_state(encoded_state(state@)) == Some(state@),
{
    let s = state@;
    let fields = encoded_state(s)->Record_0;
    lemma_state_keys(fields);
    lemma_field_found(fields, "session_id"@, 0);
    lemma_field_found(fields, "game_screen"@, 1);
    lemma_field_found(fields, "players"@, 2);
    lemma_field_found(fields, "player_count_input"@, 3);
    lemma_field_found(fields, "player_names"@, 4);
    lemma_field_found(fields, "round_number"@, 5);
    lemma_field_found(fields, "cards"@, 6);
    lemma_field_found(fields, "imposter_index"@, 7);
    lemma_field_found(fields, "current_category"@, 8);
    lemma_field_found(fields, "selected_category_index"@, 9);
    lemma_field_found(fields, "starting_player_offset"@, 10);
    lemma_field_found(fields, "current_round_words"@, 11);
    lemma_screen_round_trip(state.game_screen);
    lemma_players_round_trip(state.players@);
    lemma_texts_round_trip(s.player_names);
    lemma_cards_round_trip(s.cards);
    lemma_pair_round_trip(s.current_category);
    lemma_pair_round_trip(s.current_round_words);
}

/// A state that is written as a document, read back and adopted under its
/// own session is the state that was written, in every part.
pub proof fn lemma_save_load_round_trip(state: GameState)
    ensures
        restored(state@.session_id, decoded_state(encoded_state(state@))) == state@,
{
    lemma_state_round_trip(state);
}

/// Writes a state as a document.
pub fn encode_state(state: &GameState) -> (r: Node)
    ensures
        r@ == encoded_state(state@),
{
    let mut fields: Vec<(String, Node)> = Vec::new();
    fields.push(named("session_id", text_node(&state.session_id)));
    fields.push(named("game_screen", encode_screen(&state.game_screen)));
    fields.push(named("players", encode_players(&state.players)));
    fields.push(named("player_count_input", text_node(&state.player_count_input)));
    fields.push(named("player_names", encode_texts(&state.player_names)));
    fields.push(named("round_number", Node::Number(state.round_number as i128)));
    fields.push(named("cards", encode_cards(&state.cards)));
    fields.push(named("imposter_index", Node::Number(state.imposter_index as i128)));
    fields.push(named("current_category", encode_pair(&state.current_category)));
    fields.push(named("selected_category_index", encode_choice(&state.selected_category_index)));
    fields.push(named("starting_player_offset", Node::Number(state.starting_player_offset as i128)));
    fields.push(named("current_round_words", encode_pair(&state.current_round_words)));
    proof {
        lemma_record_model(fields);
        assert(fields_model(fields@) =~= encoded_state(state@)->Record_0);
    }
    Node::Record(fields)
}

/// Reads a state from a document.
pub fn decode_state(node: &Node) -> (r: Option<GameState>)
    ensures
        saved_model(r) == decoded_state(node@),
{
    let fields = match node {
        Node::Record(fields) => fields,
        _ => {
            return None;
        },
    };
    proof {
        lemma_record_model(*fields);
    }
    let fresh = GameState::new(String::new());
    let session_id = match find_field(fields, &String::from_str("session_id")) {
        Some(found) => match read_text(found) {
            Some(value) => value,
            None => {
                return None;
            },
        },
        None => fresh.session_id,
    };
    let game_screen = match find_field(fields, &String::from_str("game_screen")) {
        Some(found) => match decode_screen(found) {
            Some(value) => value,
            None => {
                return None;
            },
        },
        None => fresh.game_screen,
    };
    let players = match find_field(fields, &String::from_str("players")) {
        Some(found) => match decode_players(found) {
            Some(value) => value,
            None => {
                return None;
            },
        },
        None => fresh.players,
    };
    let player_count_input = match find_field(fields, &String::from_str("player_count_input")) {
        Some(found) => match read_text(found) {
            Some(value) => value,
            None => {
                return None;
            },
        },
        None => fresh.player_count_input,
    };
    let player_names = match find_field(fields, &String::from_str("player_names")) {
        Some(found) => match decode_texts(found) {
            Some(value) => value,
            None => {
                return None;
            },
        },
        None => fresh.player_names,
    };
    let round_number = match find_field(fields, &String::from_str("round_number")) {
        Some(found) => match read_score(found) {
            Some(value) => value,
            None => {
                return None;
            },
        },
        None => fresh.round_number,
    };
    let cards = match find_field(fields, &String::from_str("cards")) {
        Some(found) => match decode_cards(found) {
            Some(value) => value,
            None => {
                return None;
            },
        },
        None => fresh.cards,
    };
    let imposter_index = match find_field(fields, &String::from_str("imposter_index")) {
        Some(found) => match read_index(found) {
            Some(value) => value,
            None => {
                return None;
            },
        },
        None => fresh.imposter_index,
    };
    let current_category = match find_field(fields, &String::from_str("current_category")) {
        Some(found) => match decode_pair(found) {
            Some(value) => value,
            None => {
                return None;
            },
        },
        None => fresh.current_category,
    };
    let selected_category_index = match find_field(fields, &String::from_str("selected_category_index")) {
        Some(found) => match decode_choice(found) {
            Some(value) => value,
            None => {
                return None;
            },
        },
        None => fresh.selected_category_index,
    };
    let starting_player_offset = match find_field(fields, &String::from_str("starting_player_offset")) {
        Some(found) => match read_index(found) {
            Some(value) => value,
            None => {
                return None;
            },
        },
        None => fresh.starting_player_offset,
    };
    let current_round_words = match find_field(fields, &String::from_str("current_round_words")) {
        Some(found) => match decode_pair(found) {
            Some(value) => value,
            None => {
                return None;
            },
        },
        None => fresh.current_round_words,
    };
    Some(
        GameState {
            session_id,
            game_screen,
            players,
            player_count_input,
            player_names,
            round_number,
            cards,
            imposter_index,
            current_category,
            selected_category_index,
            starting_player_offset,
            current_round_words,
        },
    )
}

} // verus!
