//! The game's data: players, cards, phases and the whole game state, each with
//! the mathematical model that the contracts of this crate speak of.

use vstd::prelude::*;

verus! {

/// Mathematical model of a [`Player`].
pub struct PlayerModel {
    pub name: Seq<char>,
    pub score: int,
    pub is_eliminated: bool,
}

/// One participant. A player's identity is the position in the players
/// sequence of the game state.
#[derive(Debug, PartialEq)]
pub struct Player {
    pub name: String,
    pub score: i32,
    pub is_eliminated: bool,
}

impl View for Player {
    type V = PlayerModel;

    open spec fn view(&self) -> PlayerModel {
        PlayerModel { name: self.name@, score: self.score as int, is_eliminated: self.is_eliminated }
    }
}

impl Clone for Player {
    fn clone(&self) -> (r: Self)
        ensures
            r@ == self@,
    {
        Player { name: self.name.clone(), score: self.score, is_eliminated: self.is_eliminated }
    }
}

/// The role written on a card.
#[derive(Clone, Copy, Debug, PartialEq, Eq, Structural)]
pub enum CardType {
    Normal,
    Imposter,
}

/// Mathematical model of a [`GameCard`].
pub struct CardModel {
    pub card_type: CardType,
    pub word: Seq<char>,
}

/// The card of one player: card `i` belongs to player `i`.
#[derive(Debug, PartialEq)]
pub struct GameCard {
    pub card_type: CardType,
    pub word: String,
}

impl View for GameCard {
    type V = CardModel;

    open spec fn view(&self) -> CardModel {
        CardModel { card_type: self.card_type, word: self.word@ }
    }
}

impl Clone for GameCard {
    fn clone(&self) -> (r: Self)
        ensures
            r@ == self@,
    {
        GameCard { card_type: self.card_type, word: self.word.clone() }
    }
}

/// Mathematical model of a [`GameScreen`].
pub enum ScreenModel {
    Setup,
    CategorySelection,
    CategoryReveal { category_name: Seq<char>, category_icon: Seq<char> },
    CardView { current_player_index: nat },
    Voting,
    Elimination { eliminated_index: nat, was_imposter: bool },
    RoundEnd { imposter_found: bool, game_over: bool },
    GameScore,
}

/// The phase the game is in.
#[derive(Debug, PartialEq)]
pub enum GameScreen {
    Setup,
    CategorySelection,
    CategoryReveal { category_name: String, category_icon: String },
    CardView { current_player_index: usize },
    Voting,
    Elimination { eliminated_index: usize, was_imposter: bool },
    RoundEnd { imposter_found: bool, game_over: bool },
    GameScore,
}

impl View for GameScreen {
    type V = ScreenModel;

    open spec fn view(&self) -> ScreenModel {
        match self {
            GameScreen::Setup => ScreenModel::Setup,
            GameScreen::CategorySelection => ScreenModel::CategorySelection,
            GameScreen::CategoryReveal { category_name, category_icon } => ScreenModel::CategoryReveal {
                category_name: category_name@,
                category_icon: category_icon@,
            },
            GameScreen::CardView { current_player_index } => ScreenModel::CardView {
                current_player_index: *current_player_index as nat,
            },
            GameScreen::Voting => ScreenModel::Voting,
            GameScreen::Elimination { eliminated_index, was_imposter } => ScreenModel::Elimination {
                eliminated_index: *eliminated_index as nat,
                was_imposter: *was_imposter,
            },
            GameScreen::RoundEnd { imposter_found, game_over } => ScreenModel::RoundEnd {
                imposter_found: *imposter_found,
                game_over: *game_over,
            },
            GameScreen::GameScore => ScreenModel::GameScore,
        }
    }
}

impl Clone for GameScreen {
    fn clone(&self) -> (r: Self)
        ensures
            r@ == self@,
    {
        match self {
            GameScreen::Setup => GameScreen::Setup,
            GameScreen::CategorySelection => GameScreen::CategorySelection,
            GameScreen::CategoryReveal { category_name, category_icon } => GameScreen::CategoryReveal {
                category_name: category_name.clone(),
                category_icon: category_icon.clone(),
            },
            GameScreen::CardView { current_player_index } => GameScreen::CardView {
                current_player_index: *current_player_index,
            },
            GameScreen::Voting => GameScreen::Voting,
            GameScreen::Elimination { eliminated_index, was_imposter } => GameScreen::Elimination {
                eliminated_index: *eliminated_index,
                was_imposter: *was_imposter,
            },
            GameScreen::RoundEnd { imposter_found, game_over } => GameScreen::RoundEnd {
                imposter_found: *imposter_found,
                game_over: *game_over,
            },
            GameScreen::GameScore => GameScreen::GameScore,
        }
    }
}

/// The models of a sequence of players, position by position.
pub open spec fn players_model(players: Seq<Player>) -> Seq<PlayerModel> {
    Seq::new(players.len(), |i: int| players[i]@)
}

/// The models of a sequence of cards, position by position.
pub open spec fn cards_model(cards: Seq<GameCard>) -> Seq<CardModel> {
    Seq::new(cards.len(), |i: int| cards[i]@)
}

/// The texts of a sequence of strings, position by position.
pub open spec fn texts_model(texts: Seq<String>) -> Seq<Seq<char>> {
    Seq::new(texts.len(), |i: int| texts[i]@)
}

/// The texts of an optional pair of strings.
pub open spec fn text_pair_model(pair: Option<(String, String)>) -> Option<(Seq<char>, Seq<char>)> {
    match pair {
        Some(p) => Some((p.0@, p.1@)),
        None => None,
    }
}

/// An optional index as an optional natural number.
pub open spec fn index_model(index: Option<usize>) -> Option<nat> {
    match index {
        Some(i) => Some(i as nat),
        None => None,
    }
}

/// Mathematical model of a [`GameState`].
pub struct StateModel {
    pub session_id: Seq<char>,
    pub game_screen: ScreenModel,
    pub players: Seq<PlayerModel>,
    pub player_count_input: Seq<char>,
    pub player_names: Seq<Seq<char>>,
    pub round_number: int,
    pub cards: Seq<CardModel>,
    pub imposter_index: nat,
    pub current_category: Option<(Seq<char>, Seq<char>)>,
    pub selected_category_index: Option<nat>,
    pub starting_player_offset: nat,
    pub current_round_words: Option<(Seq<char>, Seq<char>)>,
}

/// Everything that describes a game in progress.
#[derive(Debug, PartialEq)]
pub struct GameState {
    pub session_id: String,
    pub game_screen: GameScreen,
    pub players: Vec<Player>,
    /// The player count as the user typed it.
    pub player_count_input: String,
    /// The names drafted during setup.
    pub player_names: Vec<String>,
    /// One-based; counts voting rounds as well as deals.
    pub round_number: i32,
    /// Empty until a round has been dealt.
    pub cards: Vec<GameCard>,
    pub imposter_index: usize,
    /// Name and icon of the category of the current deal.
    pub current_category: Option<(String, String)>,
    pub selected_category_index: Option<usize>,
    /// Rotation applied to the card-view cursor.
    pub starting_player_offset: usize,
    /// Civilian word and imposter word of the current deal.
    pub current_round_words: Option<(String, String)>,
}

impl View for GameState {
    type V = StateModel;

    open spec fn view(&self) -> StateModel {
        StateModel {
            session_id: self.session_id@,
            game_screen: self.game_screen@,
            players: players_model(self.players@),
            player_count_input: self.player_count_input@,
            player_names: texts_model(self.player_names@),
            round_number: self.round_number as int,
            cards: cards_model(self.cards@),
            imposter_index: self.imposter_index as nat,
            current_category: text_pair_model(self.current_category),
            selected_category_index: index_model(self.selected_category_index),
            starting_player_offset: self.starting_player_offset as nat,
            current_round_words: text_pair_model(self.current_round_words),
        }
    }
}

/// Copies a sequence of players.
pub fn clone_players(players: &Vec<Player>) -> (r: Vec<Player>)
    ensures
        players_model(r@) == players_model(players@),
{
    let mut out: Vec<Player> = Vec::new();
    let mut i: usize = 0;
    while i < players.len()
        invariant
            i <= players.len(),
            out.len() == i,
            forall|j: int| 0 <= j < i ==> out[j]@ == players[j]@,
        decreases players.len() - i,
    {
        out.push(players[i].clone());
        i += 1;
    }
    assert(players_model(out@) =~= players_model(players@));
    out
}

/// Copies a sequence of cards.
pub fn clone_cards(cards: &Vec<GameCard>) -> (r: Vec<GameCard>)
    ensures
        cards_model(r@) == cards_model(cards@),
{
    let mut out: Vec<GameCard> = Vec::new();
    let mut i: usize = 0;
    while i < cards.len()
        invariant
            i <= cards.len(),
            out.len() == i,
            forall|j: int| 0 <= j < i ==> out[j]@ == cards[j]@,
        decreases cards.len() - i,
    {
        out.push(cards[i].clone());
        i += 1;
    }
    assert(cards_model(out@) =~= cards_model(cards@));
    out
}

/// Copies a sequence of strings.
pub fn clone_texts(texts: &Vec<String>) -> (r: Vec<String>)
    ensures
        texts_model(r@) == texts_model(texts@),
{
    let mut out: Vec<String> = Vec::new();
    let mut i: usize = 0;
    while i < texts.len()
        invariant
            i <= texts.len(),
            out.len() == i,
            forall|j: int| 0 <= j < i ==> out[j]@ == texts[j]@,
        decreases texts.len() - i,
    {
        out.push(texts[i].clone());
        i += 1;
    }
    assert(texts_model(out@) =~= texts_model(texts@));
    out
}

/// Copies an optional pair of strings.
pub fn clone_text_pair(pair: &Option<(String, String)>) -> (r: Option<(String, String)>)
    ensures
        text_pair_model(r) == text_pair_model(*pair),
{
    match pair {
        Some(p) => Some((p.0.clone(), p.1.clone())),
        None => None,
    }
}

impl Clone for GameState {
    fn clone(&self) -> (r: Self)
        ensures
            r@ == self@,
    {
        GameState {
            session_id: self.session_id.clone(),
            game_screen: self.game_screen.clone(),
            players: clone_players(&self.players),
            player_count_input: self.player_count_input.clone(),
            player_names: clone_texts(&self.player_names),
            round_number: self.round_number,
            cards: clone_cards(&self.cards),
            imposter_index: self.imposter_index,
            current_category: clone_text_pair(&self.current_category),
            selected_category_index: self.selected_category_index,
            starting_player_offset: self.starting_player_offset,
            current_round_words: clone_text_pair(&self.current_round_words),
        }
    }
}

/// Mathematical model of a [`WordCategory`].
pub struct CategoryModel {
    pub name: Seq<char>,
    pub icon: Seq<char>,
    pub pairs: Seq<(Seq<char>, Seq<char>)>,
}

/// A themed list of word pairs.
#[derive(Debug, PartialEq)]
pub struct WordCategory {
    pub name: String,
    pub icon: String,
    pub pairs: Vec<(String, String)>,
}

/// The texts of a sequence of word pairs, position by position.
pub open spec fn pairs_model(pairs: Seq<(String, String)>) -> Seq<(Seq<char>, Seq<char>)> {
    Seq::new(pairs.len(), |i: int| (pairs[i].0@, pairs[i].1@))
}

impl View for WordCategory {
    type V = CategoryModel;

    open spec fn view(&self) -> CategoryModel {
        CategoryModel { name: self.name@, icon: self.icon@, pairs: pairs_model(self.pairs@) }
    }
}

/// The models of a sequence of categories, position by position.
pub open spec fn categories_model(categories: Seq<WordCategory>) -> Seq<CategoryModel> {
    Seq::new(categories.len(), |i: int| categories[i]@)
}

/// Mathematical model of a [`WordList`].
pub struct WordListModel {
    pub categories: Seq<CategoryModel>,
}

/// The word corpus: the categories in the order in which the game indexes them.
#[derive(Debug, PartialEq)]
pub struct WordList {
    pub categories: Vec<WordCategory>,
}

impl View for WordList {
    type V = WordListModel;

    open spec fn view(&self) -> WordListModel {
        WordListModel { categories: categories_model(self.categories@) }
    }
}

} // verus!
