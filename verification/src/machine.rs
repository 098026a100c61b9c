//! The phase machine: what each intent of the players does to the game state.
//! An intent that the current phase does not offer leaves the state as it is.

use crate::dealer::{
    corpus_valid, deal_key, deal_round, deal_seed, deal_spec, DealModel, RoundDeal,
};
use crate::orientation::{orientation_after, OrientationMap};
use crate::scoring::{
    after_eviction, apply_eviction, awards_fit, eviction_outcome, EvictionOutcome,
};
use crate::setup::{
    all_names_given, build_players, effective_count, effective_player_count, names_complete, names_with,
    new_players, resize_names, resized_names, set_name,
};
use crate::types::{
    cards_model, categories_model, players_model, texts_model, CategoryModel, GameScreen, GameState,
    Player, PlayerModel, ScreenModel, StateModel, WordCategory,
};
use vstd::arithmetic::div_mod::lemma_add_mod_noop_right;
use vstd::prelude::*;
use vstd::string::StringExecFns;

verus! {

/// Setup: the typed player count is stored as typed, and the drafted names
/// are cut or padded to the count in effect.
pub open spec fn with_player_count(s: StateModel, input: Seq<char>) -> StateModel {
    if s.game_screen is Setup {
        StateModel {
            player_count_input: input,
            player_names: resized_names(s.player_names, effective_count(input)),
            ..s
        }
    } else {
        s
    }
}

/// Setup: one drafted name is set.
pub open spec fn with_player_name(s: StateModel, index: nat, name: Seq<char>) -> StateModel {
    if s.game_screen is Setup {
        StateModel { player_names: names_with(s.player_names, index, name), ..s }
    } else {
        s
    }
}

/// The game begun with the drafted names: fresh players, round one, and on
/// to the choice of a category.
pub open spec fn begun(s: StateModel) -> StateModel {
    StateModel {
        players: new_players(s.player_names),
        round_number: 1,
        game_screen: ScreenModel::CategorySelection,
        ..s
    }
}

/// Setup: the game begins if every drafted name is given.
pub open spec fn game_started(s: StateModel) -> StateModel {
    if s.game_screen is Setup && names_complete(s.player_names) {
        begun(s)
    } else {
        s
    }
}

/// Category selection: the category at `index` is chosen and revealed.
pub open spec fn category_selected(s: StateModel, categories: Seq<CategoryModel>, index: nat) -> StateModel {
    if s.game_screen is CategorySelection && index < categories.len() {
        StateModel {
            selected_category_index: Some(index),
            game_screen: ScreenModel::CategoryReveal {
                category_name: categories[index as int].name,
                category_icon: categories[index as int].icon,
            },
            ..s
        }
    } else {
        s
    }
}

/// A round is dealt on the way into the card view where no cards are out, a
/// category is chosen and there are players.
pub open spec fn deal_due(s: StateModel) -> bool {
    &&& s.game_screen is CategoryReveal
    &&& s.cards.len() == 0
    &&& s.selected_category_index is Some
    &&& s.players.len() > 0
}

/// The state with a deal taken in.
pub open spec fn with_deal(s: StateModel, deal: DealModel) -> StateModel {
    StateModel {
        cards: deal.cards,
        imposter_index: deal.imposter_index,
        current_category: Some((deal.category_name, deal.category_icon)),
        current_round_words: Some((deal.civilian_word, deal.imposter_word)),
        ..s
    }
}

/// Category reveal: the round starts. The cards are dealt where a deal is
/// due, and the first player is asked to look.
pub open spec fn round_started(
    s: StateModel,
    categories: Seq<CategoryModel>,
    recorded: Map<(nat, nat), bool>,
    r_word: u64,
    r_imposter: u64,
) -> StateModel {
    if s.game_screen is CategoryReveal {
        let dealt = if deal_due(s) {
            with_deal(
                s,
                deal_spec(
                    categories,
                    recorded,
                    s.players.len(),
                    s.selected_category_index->0,
                    r_word,
                    r_imposter,
                ),
            )
        } else {
            s
        };
        StateModel { game_screen: ScreenModel::CardView { current_player_index: 0 }, ..dealt }
    } else {
        s
    }
}

/// The orientations on record after the round has started.
pub open spec fn recorded_after_start(
    s: StateModel,
    categories: Seq<CategoryModel>,
    recorded: Map<(nat, nat), bool>,
    r_word: u64,
) -> Map<(nat, nat), bool> {
    if deal_due(s) {
        orientation_after(
            recorded,
            deal_key(categories, s.selected_category_index->0, r_word),
            deal_seed(r_word),
        )
    } else {
        recorded
    }
}

/// Category reveal: back to the choice of a category.
pub open spec fn backed_out(s: StateModel) -> StateModel {
    if s.game_screen is CategoryReveal {
        StateModel { game_screen: ScreenModel::CategorySelection, ..s }
    } else {
        s
    }
}

/// Card view: the next player looks, or the vote begins after the last one.
pub open spec fn player_advanced(s: StateModel) -> StateModel {
    match s.game_screen {
        ScreenModel::CardView { current_player_index } => if current_player_index + 1 < s.players.len() {
            StateModel {
                game_screen: ScreenModel::CardView { current_player_index: current_player_index + 1 },
                ..s
            }
        } else {
            StateModel { game_screen: ScreenModel::Voting, ..s }
        },
        _ => s,
    }
}

/// Card view, before anyone has looked: back to the reveal of the category
/// that was dealt.
pub open spec fn back_at_reveal(s: StateModel) -> StateModel {
    match (s.game_screen, s.current_category) {
        (ScreenModel::CardView { current_player_index }, Some(category)) => if current_player_index == 0 {
            StateModel {
                game_screen: ScreenModel::CategoryReveal {
                    category_name: category.0,
                    category_icon: category.1,
                },
                ..s
            }
        } else {
            s
        },
        _ => s,
    }
}

/// A player who is in the game and not eliminated can be voted out.
pub open spec fn can_evict(s: StateModel, index: nat) -> bool {
    &&& s.game_screen is Voting
    &&& index < s.players.len()
    &&& !s.players[index as int].is_eliminated
}

/// Voting: the group evicts the player at `index`.
pub open spec fn evicted(s: StateModel, index: nat) -> StateModel {
    if can_evict(s, index) {
        StateModel {
            game_screen: ScreenModel::Elimination {
                eliminated_index: index,
                was_imposter: index == s.imposter_index,
            },
            ..s
        }
    } else {
        s
    }
}

/// The phase that follows an eviction.
pub open spec fn screen_after(outcome: EvictionOutcome) -> ScreenModel {
    match outcome {
        EvictionOutcome::CiviliansWin => ScreenModel::RoundEnd { imposter_found: true, game_over: true },
        EvictionOutcome::ImposterWins => ScreenModel::RoundEnd { imposter_found: false, game_over: true },
        EvictionOutcome::RoundContinues => ScreenModel::Voting,
    }
}

/// An eviction can be settled where the evicted player and the imposter are
/// players of the game.
pub open spec fn can_settle(s: StateModel) -> bool {
    &&& s.game_screen matches ScreenModel::Elimination { eliminated_index, .. }
    &&& eliminated_index < s.players.len()
    &&& s.imposter_index < s.players.len()
}

/// Elimination: the eviction is settled. The scores are awarded, and the
/// round ends or the vote goes on with the round counter advanced.
pub open spec fn eviction_settled(s: StateModel) -> StateModel {
    if can_settle(s) {
        let eliminated = s.game_screen->eliminated_index;
        let outcome = eviction_outcome(s.players, eliminated, s.imposter_index);
        StateModel {
            players: after_eviction(s.players, eliminated, s.imposter_index),
            round_number: if outcome == EvictionOutcome::RoundContinues {
                s.round_number + 1
            } else {
                s.round_number
            },
            game_screen: screen_after(outcome),
            ..s
        }
    } else {
        s
    }
}

/// The players with nobody eliminated.
pub open spec fn all_returned(players: Seq<PlayerModel>) -> Seq<PlayerModel> {
    Seq::new(
        players.len(),
        |i: int| PlayerModel { name: players[i].name, score: players[i].score, is_eliminated: false },
    )
}

/// A round has ended, or the scores are shown, and there are players.
pub open spec fn round_over(s: StateModel) -> bool {
    (s.game_screen is RoundEnd || s.game_screen is GameScore) && s.players.len() > 0
}

/// Round end or scores: the next round. The cards and the words are cleared,
/// everybody is back in, the round counter advances and the starting player
/// moves on by one.
pub open spec fn next_round_begun(s: StateModel) -> StateModel {
    if round_over(s) {
        StateModel {
            cards: Seq::empty(),
            current_round_words: None,
            players: all_returned(s.players),
            round_number: s.round_number + 1,
            starting_player_offset: ((s.starting_player_offset + 1) % s.players.len()) as nat,
            game_screen: ScreenModel::CategorySelection,
            ..s
        }
    } else {
        s
    }
}

/// Round end: on to the scores.
pub open spec fn scores_shown(s: StateModel) -> StateModel {
    if s.game_screen is RoundEnd {
        StateModel { game_screen: ScreenModel::GameScore, ..s }
    } else {
        s
    }
}

/// The starting player drawn for a new game: the random number wraps round
/// the players of the game that ends; zero where there were none.
pub open spec fn drawn_offset(player_count: nat, r_offset: u64) -> nat {
    if player_count > 0 {
        (r_offset as nat % player_count) as nat
    } else {
        0
    }
}

/// Round end or scores: a new game, confirmed. Cards and players are
/// cleared, a starting player is drawn, and setup begins again; the session
/// stays.
pub open spec fn game_reset(s: StateModel, r_offset: u64) -> StateModel {
    if s.game_screen is RoundEnd || s.game_screen is GameScore {
        StateModel {
            cards: Seq::empty(),
            imposter_index: 0,
            round_number: 1,
            players: Seq::empty(),
            starting_player_offset: drawn_offset(s.players.len(), r_offset),
            game_screen: ScreenModel::Setup,
            ..s
        }
    } else {
        s
    }
}

/// The settlement of the eviction on screen, if any, stays within what the
/// scores and the round counter can hold.
pub open spec fn settlement_fits(s: StateModel) -> bool {
    can_settle(s) ==> {
        let eliminated = s.game_screen->eliminated_index;
        &&& awards_fit(s.players, eliminated, s.imposter_index)
        &&& (eviction_outcome(s.players, eliminated, s.imposter_index) == EvictionOutcome::RoundContinues
            ==> s.round_number < i32::MAX)
    }
}

/// Brings every player back into the round.
pub fn return_all(players: &mut Vec<Player>)
    ensures
        players_model(final(players)@) == all_returned(players_model(old(players)@)),
{
    let ghost before = players_model(players@);
    let count = players.len();
    let mut i: usize = 0;
    while i < count
        invariant
            i <= count,
            count == players.len(),
            count == before.len(),
            forall|j: int| 0 <= j < i ==> (#[trigger] players[j])@ == all_returned(before)[j],
            forall|j: int| i <= j < count ==> (#[trigger] players[j])@ == before[j],
        decreases count - i,
    {
        players[i].is_eliminated = false;
        i += 1;
    }
    assert(players_model(players@) =~= all_returned(before));
}

/// The state that a session starts with: setup for three players, nothing
/// drafted and nothing dealt.
pub open spec fn fresh_state(session_id: Seq<char>) -> StateModel {
    StateModel {
        session_id,
        game_screen: ScreenModel::Setup,
        players: Seq::empty(),
        player_count_input: "3"@,
        player_names: resized_names(Seq::empty(), 3),
        round_number: 1,
        cards: Seq::empty(),
        imposter_index: 0,
        current_category: None,
        selected_category_index: None,
        starting_player_offset: 0,
        current_round_words: None,
    }
}

impl GameState {
    /// The state that a session starts with.
    pub fn new(session_id: String) -> (r: Self)
        ensures
            r@ == fresh_state(session_id@),
    {
        let none: Vec<String> = Vec::new();
        let r = GameState {
            session_id,
            game_screen: GameScreen::Setup,
            players: Vec::new(),
            player_count_input: String::from_str("3"),
            player_names: resize_names(&none, 3),
            round_number: 1,
            cards: Vec::new(),
            imposter_index: 0,
            current_category: None,
            selected_category_index: None,
            starting_player_offset: 0,
            current_round_words: None,
        };
        assert(texts_model(none@) =~= Seq::<Seq<char>>::empty());
        assert(players_model(r.players@) =~= Seq::<PlayerModel>::empty());
        assert(cards_model(r.cards@) =~= Seq::<crate::types::CardModel>::empty());
        r
    }

    /// Setup: stores the player count as typed and fits the drafted names to
    /// the count in effect.
    pub fn set_player_count(&mut self, input: String)
        ensures
            final(self)@ == with_player_count(old(self)@, input@),
    {
        match self.game_screen {
            GameScreen::Setup => {
                let count = effective_player_count(input.as_str());
                self.player_names = resize_names(&self.player_names, count);
                self.player_count_input = input;
            },
            _ => {},
        }
    }

    /// Setup: fits the drafted names to the count in effect for the player
    /// count stored.
    pub fn normalize_names(&mut self)
        ensures
            final(self)@ == with_player_count(old(self)@, old(self)@.player_count_input),
    {
        match self.game_screen {
            GameScreen::Setup => {
                let count = effective_player_count(self.player_count_input.as_str());
                self.player_names = resize_names(&self.player_names, count);
            },
            _ => {},
        }
    }

    /// Setup: sets the drafted name at `index`.
    pub fn set_player_name(&mut self, index: usize, name: String)
        ensures
            final(self)@ == with_player_name(old(self)@, index as nat, name@),
    {
        match self.game_screen {
            GameScreen::Setup => {
                set_name(&mut self.player_names, index, name);
            },
            _ => {},
        }
    }

    /// Begins the game with the drafted names, whatever they are.
    pub fn begin_game(&mut self)
        ensures
            final(self)@ == begun(old(self)@),
    {
        self.players = build_players(&self.player_names);
        self.round_number = 1;
        self.game_screen = GameScreen::CategorySelection;
    }

    /// Setup: begins the game if every drafted name is given, and says
    /// whether it did.
    pub fn start_game(&mut self) -> (started: bool)
        ensures
            final(self)@ == game_started(old(self)@),
            started == (old(self)@.game_screen is Setup && names_complete(old(self)@.player_names)),
    {
        match self.game_screen {
            GameScreen::Setup => {
                if all_names_given(&self.player_names) {
                    self.begin_game();
                    true
                } else {
                    false
                }
            },
            _ => false,
        }
    }

    /// Category selection: chooses the category at `index`; an index outside
    /// the corpus is ignored.
    pub fn select_category(&mut self, categories: &Vec<WordCategory>, index: usize)
        ensures
            final(self)@ == category_selected(old(self)@, categories_model(categories@), index as nat),
    {
        match self.game_screen {
            GameScreen::CategorySelection => {
                if index < categories.len() {
                    assert(categories_model(categories@)[index as int] == categories[index as int]@);
                    self.selected_category_index = Some(index);
                    self.game_screen = GameScreen::CategoryReveal {
                        category_name: categories[index].name.clone(),
                        category_icon: categories[index].icon.clone(),
                    };
                }
            },
            _ => {},
        }
    }

    /// Takes a deal into the state.
    pub fn take_deal(&mut self, deal: RoundDeal)
        ensures
            final(self)@ == with_deal(old(self)@, deal@),
    {
        self.cards = deal.cards;
        self.imposter_index = deal.imposter_index;
        self.current_category = Some((deal.category_name, deal.category_icon));
        self.current_round_words = Some((deal.civilian_word, deal.imposter_word));
    }

    /// Category reveal: starts the round, dealing the cards where a deal is
    /// due, from the two random numbers given.
    pub fn start_round(
        &mut self,
        categories: &Vec<WordCategory>,
        orientation: &mut OrientationMap,
        r_word: u64,
        r_imposter: u64,
    )
        requires
            corpus_valid(categories_model(categories@)),
        ensures
            final(self)@ == round_started(
                old(self)@,
                categories_model(categories@),
                old(orientation)@,
                r_word,
                r_imposter,
            ),
            final(orientation)@ == recorded_after_start(
                old(self)@,
                categories_model(categories@),
                old(orientation)@,
                r_word,
            ),
    {
        match self.game_screen {
            GameScreen::CategoryReveal { .. } => {
                if self.cards.len() == 0 && self.players.len() > 0 {
                    match self.selected_category_index {
                        Some(category_index) => {
                            let deal = deal_round(
                                categories,
                                orientation,
                                self.players.len(),
                                category_index,
                                r_word,
                                r_imposter,
                            );
                            self.take_deal(deal);
                        },
                        None => {},
                    }
                }
                self.game_screen = GameScreen::CardView { current_player_index: 0 };
            },
            _ => {},
        }
    }

    /// Category reveal: goes back to the choice of a category.
    pub fn back(&mut self)
        ensures
            final(self)@ == backed_out(old(self)@),
    {
        match self.game_screen {
            GameScreen::CategoryReveal { .. } => {
                self.game_screen = GameScreen::CategorySelection;
            },
            _ => {},
        }
    }

    /// Card view: hands the device to the next player, or opens the vote
    /// after the last one.
    pub fn next_player(&mut self)
        ensures
            final(self)@ == player_advanced(old(self)@),
    {
        match self.game_screen {
            GameScreen::CardView { current_player_index } => {
                if current_player_index < self.players.len() && current_player_index + 1
                    < self.players.len() {
                    self.game_screen = GameScreen::CardView {
                        current_player_index: current_player_index + 1,
                    };
                } else {
                    self.game_screen = GameScreen::Voting;
                }
            },
            _ => {},
        }
    }

    /// Card view, before anyone has looked: goes back to the reveal of the
    /// category that was dealt.
    pub fn back_to_category_reveal(&mut self)
        ensures
            final(self)@ == back_at_reveal(old(self)@),
    {
        match self.game_screen {
            GameScreen::CardView { current_player_index } => {
                if current_player_index == 0 {
                    match &self.current_category {
                        Some(category) => {
                            self.game_screen = GameScreen::CategoryReveal {
                                category_name: category.0.clone(),
                                category_icon: category.1.clone(),
                            };
                        },
                        None => {},
                    }
                }
            },
            _ => {},
        }
    }

    /// Voting: evicts the player at `index`; a player who is not in the game
    /// or already eliminated cannot be evicted.
    pub fn evict(&mut self, index: usize)
        ensures
            final(self)@ == evicted(old(self)@, index as nat),
    {
        match self.game_screen {
            GameScreen::Voting => {
                if index < self.players.len() && !self.players[index].is_eliminated {
                    assert(self@.players[index as int] == self.players[index as int]@);
                    self.game_screen = GameScreen::Elimination {
                        eliminated_index: index,
                        was_imposter: index == self.imposter_index,
                    };
                } else {
                    assert(index < self.players.len() ==> self@.players[index as int]
                        == self.players[index as int]@);
                }
            },
            _ => {},
        }
    }

    /// Elimination: settles the eviction on screen.
    pub fn continue_round(&mut self)
        requires
            settlement_fits(old(self)@),
        ensures
            final(self)@ == eviction_settled(old(self)@),
    {
        match self.game_screen {
            GameScreen::Elimination { eliminated_index, .. } => {
                if eliminated_index < self.players.len() && self.imposter_index < self.players.len() {
                    let outcome = apply_eviction(&mut self.players, eliminated_index, self.imposter_index);
                    match outcome {
                        EvictionOutcome::CiviliansWin => {
                            self.game_screen = GameScreen::RoundEnd { imposter_found: true, game_over: true };
                        },
                        EvictionOutcome::ImposterWins => {
                            self.game_screen = GameScreen::RoundEnd {
                                imposter_found: false,
                                game_over: true,
                            };
                        },
                        EvictionOutcome::RoundContinues => {
                            self.round_number = self.round_number + 1;
                            self.game_screen = GameScreen::Voting;
                        },
                    }
                }
            },
            _ => {},
        }
    }

    /// Round end or scores: begins the next round.
    pub fn next_round(&mut self)
        requires
            round_over(old(self)@) ==> old(self)@.round_number < i32::MAX,
        ensures
            final(self)@ == next_round_begun(old(self)@),
    {
        let over = match self.game_screen {
            GameScreen::RoundEnd { .. } => true,
            GameScreen::GameScore => true,
            _ => false,
        };
        if over && self.players.len() > 0 {
            let count = self.players.len();
            return_all(&mut self.players);
            proof {
                lemma_add_mod_noop_right(1, self.starting_player_offset as int, count as int);
            }
            self.cards = Vec::new();
            assert(cards_model(self.cards@) =~= Seq::<crate::types::CardModel>::empty());
            self.current_round_words = None;
            self.round_number = self.round_number + 1;
            self.starting_player_offset = (self.starting_player_offset % count + 1) % count;
            self.game_screen = GameScreen::CategorySelection;
        }
    }

    /// Round end: shows the scores.
    pub fn view_scores(&mut self)
        ensures
            final(self)@ == scores_shown(old(self)@),
    {
        match self.game_screen {
            GameScreen::RoundEnd { .. } => {
                self.game_screen = GameScreen::GameScore;
            },
            _ => {},
        }
    }

    /// Round end or scores: starts over with a new game, the starting player
    /// drawn from the random number given.
    pub fn confirm_new_game(&mut self, r_offset: u64)
        ensures
            final(self)@ == game_reset(old(self)@, r_offset),
    {
        let over = match self.game_screen {
            GameScreen::RoundEnd { .. } => true,
            GameScreen::GameScore => true,
            _ => false,
        };
        if over {
            let count = self.players.len();
            self.starting_player_offset = if count > 0 {
                (r_offset % (count as u64)) as usize
            } else {
                0
            };
            self.cards = Vec::new();
            self.imposter_index = 0;
            self.round_number = 1;
            self.players = Vec::new();
            self.game_screen = GameScreen::Setup;
            assert(cards_model(self.cards@) =~= Seq::<crate::types::CardModel>::empty());
            assert(players_model(self.players@) =~= Seq::<PlayerModel>::empty());
        }
    }
}

} // verus!
