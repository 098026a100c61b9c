//! The intents of the players, and the phase machine as one function from a
//! state and an intent to the next state.

use crate::dealer::corpus_valid;
use crate::machine::{
    back_at_reveal, backed_out, category_selected, evicted, eviction_settled, game_reset, game_started,
    next_round_begun, player_advanced, recorded_after_start, round_over, round_started, scores_shown,
    settlement_fits, with_player_count, with_player_name,
};
use crate::orientation::OrientationMap;
use crate::random::random_u64;
use crate::scoring::{eviction_fits, foresee_eviction, EvictionOutcome};
use crate::types::{categories_model, CategoryModel, GameScreen, GameState, StateModel, WordCategory};
use crate::validity::{
    lemma_back_at_reveal_valid, lemma_backed_out_valid, lemma_category_selected_valid,
    lemma_evicted_valid, lemma_eviction_settled_valid, lemma_game_reset_valid,
    lemma_game_started_valid, lemma_next_round_valid, lemma_player_advanced_valid,
    lemma_player_count_valid, lemma_player_name_valid, lemma_round_started_valid,
    lemma_scores_shown_valid, scores_kept, start_miscounts, state_valid,
};
use vstd::prelude::*;

verus! {

/// Mathematical model of an [`Intent`].
pub enum IntentModel {
    SetPlayerCount(Seq<char>),
    SetPlayerName(nat, Seq<char>),
    StartGame,
    SelectCategory(nat),
    StartRound,
    Back,
    RevealCard,
    NextPlayer,
    BackToCategoryReveal,
    Evict(nat),
    Continue,
    NextRound,
    ViewScores,
    RequestNewGame,
    ConfirmNewGame,
    CancelNewGame,
}

/// What the players can ask of the game.
#[derive(Debug, PartialEq)]
pub enum Intent {
    /// Setup: the player count, as typed.
    SetPlayerCount(String),
    /// Setup: the name of the player at a position.
    SetPlayerName(usize, String),
    /// Setup: begin the game.
    StartGame,
    /// Category selection: choose the category at a position of the corpus.
    SelectCategory(usize),
    /// Category reveal: start the round.
    StartRound,
    /// Category reveal: back to the choice of a category.
    Back,
    /// Card view: turn the card over. The machine does not record it.
    RevealCard,
    /// Card view: hand the device to the next player.
    NextPlayer,
    /// Card view, first player: back to the reveal of the category.
    BackToCategoryReveal,
    /// Voting: evict the player at a position.
    Evict(usize),
    /// Elimination: settle the eviction.
    Continue,
    /// Round end or scores: the next round.
    NextRound,
    /// Round end: show the scores.
    ViewScores,
    /// Round end or scores: ask for a new game. The machine does not record it.
    RequestNewGame,
    /// Round end or scores: a new game, confirmed.
    ConfirmNewGame,
    /// Round end or scores: no new game after all. The machine does not record it.
    CancelNewGame,
}

impl View for Intent {
    type V = IntentModel;

    open spec fn view(&self) -> IntentModel {
        match self {
            Intent::SetPlayerCount(input) => IntentModel::SetPlayerCount(input@),
            Intent::SetPlayerName(index, name) => IntentModel::SetPlayerName(*index as nat, name@),
            Intent::StartGame => IntentModel::StartGame,
            Intent::SelectCategory(index) => IntentModel::SelectCategory(*index as nat),
            Intent::StartRound => IntentModel::StartRound,
            Intent::Back => IntentModel::Back,
            Intent::RevealCard => IntentModel::RevealCard,
            Intent::NextPlayer => IntentModel::NextPlayer,
            Intent::BackToCategoryReveal => IntentModel::BackToCategoryReveal,
            Intent::Evict(index) => IntentModel::Evict(*index as nat),
            Intent::Continue => IntentModel::Continue,
            Intent::NextRound => IntentModel::NextRound,
            Intent::ViewScores => IntentModel::ViewScores,
            Intent::RequestNewGame => IntentModel::RequestNewGame,
            Intent::ConfirmNewGame => IntentModel::ConfirmNewGame,
            Intent::CancelNewGame => IntentModel::CancelNewGame,
        }
    }
}

/// The random numbers that one step may use: two for a deal, one for the
/// starting player of a new game.
#[derive(Clone, Copy, Debug, PartialEq, Eq, Structural)]
pub struct Draws {
    pub r_word: u64,
    pub r_imposter: u64,
    pub r_offset: u64,
}

/// The state after an intent.
pub open spec fn step(
    s: StateModel,
    intent: IntentModel,
    categories: Seq<CategoryModel>,
    recorded: Map<(nat, nat), bool>,
    draws: Draws,
) -> StateModel {
    match intent {
        IntentModel::SetPlayerCount(input) => with_player_count(s, input),
        IntentModel::SetPlayerName(index, name) => with_player_name(s, index, name),
        IntentModel::StartGame => game_started(s),
        IntentModel::SelectCategory(index) => category_selected(s, categories, index),
        IntentModel::StartRound => round_started(s, categories, recorded, draws.r_word, draws.r_imposter),
        IntentModel::Back => backed_out(s),
        IntentModel::RevealCard => s,
        IntentModel::NextPlayer => player_advanced(s),
        IntentModel::BackToCategoryReveal => back_at_reveal(s),
        IntentModel::Evict(index) => evicted(s, index),
        IntentModel::Continue => eviction_settled(s),
        IntentModel::NextRound => next_round_begun(s),
        IntentModel::ViewScores => scores_shown(s),
        IntentModel::RequestNewGame => s,
        IntentModel::ConfirmNewGame => game_reset(s, draws.r_offset),
        IntentModel::CancelNewGame => s,
    }
}

/// The orientations on record after an intent: only the start of a round
/// touches them.
pub open spec fn recorded_after_step(
    s: StateModel,
    intent: IntentModel,
    categories: Seq<CategoryModel>,
    recorded: Map<(nat, nat), bool>,
    draws: Draws,
) -> Map<(nat, nat), bool> {
    match intent {
        IntentModel::StartRound => recorded_after_start(s, categories, recorded, draws.r_word),
        _ => recorded,
    }
}

/// The intent stays within what the scores and the round counter can hold.
pub open spec fn step_fits(s: StateModel, intent: IntentModel) -> bool {
    match intent {
        IntentModel::Continue => settlement_fits(s),
        IntentModel::NextRound => round_over(s) ==> s.round_number < i32::MAX,
        _ => true,
    }
}

impl GameState {
    /// Whether the intent stays within what the scores and the round counter
    /// can hold.
    pub fn fits(&self, intent: &Intent) -> (r: bool)
        ensures
            r == step_fits(self@, intent@),
    {
        match intent {
            Intent::Continue => match self.game_screen {
                GameScreen::Elimination { eliminated_index, .. } => {
                    if eliminated_index < self.players.len() && self.imposter_index < self.players.len() {
                        let awards = eviction_fits(&self.players, eliminated_index, self.imposter_index);
                        let outcome = foresee_eviction(&self.players, eliminated_index, self.imposter_index);
                        awards && (outcome != EvictionOutcome::RoundContinues || self.round_number < i32::MAX)
                    } else {
                        true
                    }
                },
                _ => true,
            },
            Intent::NextRound => {
                let over = match self.game_screen {
                    GameScreen::RoundEnd { .. } => true,
                    GameScreen::GameScore => true,
                    _ => false,
                };
                !(over && self.players.len() > 0) || self.round_number < i32::MAX
            },
            _ => true,
        }
    }

    /// Applies an intent, with the random numbers given for what it draws.
    pub fn apply(
        &mut self,
        intent: Intent,
        categories: &Vec<WordCategory>,
        orientation: &mut OrientationMap,
        draws: Draws,
    )
        requires
            corpus_valid(categories_model(categories@)),
            step_fits(old(self)@, intent@),
        ensures
            final(self)@ == step(
                old(self)@,
                intent@,
                categories_model(categories@),
                old(orientation)@,
                draws,
            ),
            final(orientation)@ == recorded_after_step(
                old(self)@,
                intent@,
                categories_model(categories@),
                old(orientation)@,
                draws,
            ),
            state_valid(old(self)@) && !step_miscounts(old(self)@, intent@) ==> state_valid(final(self)@),
            state_valid(old(self)@) ==> scores_kept(old(self)@.players, final(self)@.players),
    {
        proof {
            if state_valid(self@) {
                if !step_miscounts(self@, intent@) {
                    lemma_step_keeps_valid(self@, intent@, categories_model(categories@), orientation@, draws);
                }
                lemma_step_keeps_scores(self@, intent@, categories_model(categories@), orientation@, draws);
            }
        }
        match intent {
            Intent::SetPlayerCount(input) => self.set_player_count(input),
            Intent::SetPlayerName(index, name) => self.set_player_name(index, name),
            Intent::StartGame => {
                self.start_game();
            },
            Intent::SelectCategory(index) => self.select_category(categories, index),
            Intent::StartRound => self.start_round(categories, orientation, draws.r_word, draws.r_imposter),
            Intent::Back => self.back(),
            Intent::RevealCard => {},
            Intent::NextPlayer => self.next_player(),
            Intent::BackToCategoryReveal => self.back_to_category_reveal(),
            Intent::Evict(index) => self.evict(index),
            Intent::Continue => self.continue_round(),
            Intent::NextRound => self.next_round(),
            Intent::ViewScores => self.view_scores(),
            Intent::RequestNewGame => {},
            Intent::ConfirmNewGame => self.confirm_new_game(draws.r_offset),
            Intent::CancelNewGame => {},
        }
    }

    /// Applies an intent, drawing from the operating system what the intent
    /// needs: two independent numbers for the start of a round, one for a new
    /// game. Whatever was drawn, the result is what [`GameState::apply`]
    /// makes of some three numbers.
    pub fn dispatch(&mut self, intent: Intent, categories: &Vec<WordCategory>, orientation: &mut OrientationMap)
        requires
            corpus_valid(categories_model(categories@)),
            step_fits(old(self)@, intent@),
        ensures
            exists|draws: Draws|
                {
                    &&& final(self)@ == #[trigger] step(
                        old(self)@,
                        intent@,
                        categories_model(categories@),
                        old(orientation)@,
                        draws,
                    )
                    &&& final(orientation)@ == recorded_after_step(
                        old(self)@,
                        intent@,
                        categories_model(categories@),
                        old(orientation)@,
                        draws,
                    )
                },
            state_valid(old(self)@) && !step_miscounts(old(self)@, intent@) ==> state_valid(final(self)@),
            state_valid(old(self)@) ==> scores_kept(old(self)@.players, final(self)@.players),
    {
        let draws = match intent {
            Intent::StartRound => {
                let r_word = random_u64();
                let r_imposter = random_u64();
                Draws { r_word, r_imposter, r_offset: 0 }
            },
            Intent::ConfirmNewGame => Draws { r_word: 0, r_imposter: 0, r_offset: random_u64() },
            _ => Draws { r_word: 0, r_imposter: 0, r_offset: 0 },
        };
        self.apply(intent, categories, orientation, draws);
    }
}

/// The one intent that can leave the valid states: beginning a game when
/// fewer than three or more than ten names are drafted.
pub open spec fn step_miscounts(s: StateModel, intent: IntentModel) -> bool {
    intent is StartGame && start_miscounts(s)
}

/// Every intent takes a valid state to a valid state, but for the beginning
/// of a game with fewer than three or more than ten drafted names. So every
/// state that a game reaches from the start of a session is valid.
pub proof fn lemma_step_keeps_valid(
    s: StateModel,
    intent: IntentModel,
    categories: Seq<CategoryModel>,
    recorded: Map<(nat, nat), bool>,
    draws: Draws,
)
    requires
        state_valid(s),
        corpus_valid(categories),
        !step_miscounts(s, intent),
    ensures
        state_valid(step(s, intent, categories, recorded, draws)),
{
    match intent {
        IntentModel::SetPlayerCount(input) => lemma_player_count_valid(s, input),
        IntentModel::SetPlayerName(index, name) => lemma_player_name_valid(s, index, name),
        IntentModel::StartGame => lemma_game_started_valid(s),
        IntentModel::SelectCategory(index) => lemma_category_selected_valid(s, categories, index),
        IntentModel::StartRound => lemma_round_started_valid(
            s,
            categories,
            recorded,
            draws.r_word,
            draws.r_imposter,
        ),
        IntentModel::Back => lemma_backed_out_valid(s),
        IntentModel::RevealCard => {},
        IntentModel::NextPlayer => lemma_player_advanced_valid(s),
        IntentModel::BackToCategoryReveal => lemma_back_at_reveal_valid(s),
        IntentModel::Evict(index) => lemma_evicted_valid(s, index),
        IntentModel::Continue => lemma_eviction_settled_valid(s),
        IntentModel::NextRound => lemma_next_round_valid(s),
        IntentModel::ViewScores => lemma_scores_shown_valid(s),
        IntentModel::RequestNewGame => {},
        IntentModel::ConfirmNewGame => lemma_game_reset_valid(s, draws.r_offset),
        IntentModel::CancelNewGame => {},
    }
}

/// No intent lowers the score of a player.
pub proof fn lemma_step_keeps_scores(
    s: StateModel,
    intent: IntentModel,
    categories: Seq<CategoryModel>,
    recorded: Map<(nat, nat), bool>,
    draws: Draws,
)
    requires
        state_valid(s),
    ensures
        scores_kept(s.players, step(s, intent, categories, recorded, draws).players),
{
    match intent {
        IntentModel::Continue => lemma_eviction_settled_valid(s),
        IntentModel::NextRound => lemma_next_round_valid(s),
        _ => {},
    }
}

/// No intent changes the session that the state belongs to.
pub proof fn lemma_step_keeps_session(
    s: StateModel,
    intent: IntentModel,
    categories: Seq<CategoryModel>,
    recorded: Map<(nat, nat), bool>,
    draws: Draws,
)
    ensures
        step(s, intent, categories, recorded, draws).session_id == s.session_id,
{
}

/// One move of a game: an intent with the random numbers drawn for it.
pub struct Move {
    pub intent: IntentModel,
    pub draws: Draws,
}

/// The state and the recorded orientations after a sequence of moves.
pub open spec fn run(
    s: StateModel,
    recorded: Map<(nat, nat), bool>,
    categories: Seq<CategoryModel>,
    moves: Seq<Move>,
) -> (StateModel, Map<(nat, nat), bool>)
    decreases moves.len(),
{
    if moves.len() == 0 {
        (s, recorded)
    } else {
        let before = run(s, recorded, categories, moves.drop_last());
        let last = moves.last();
        (
            step(before.0, last.intent, categories, before.1, last.draws),
            recorded_after_step(before.0, last.intent, categories, before.1, last.draws),
        )
    }
}

/// No move of the sequence begins a game with fewer than three or more than
/// ten drafted names.
pub open spec fn run_counts(
    s: StateModel,
    recorded: Map<(nat, nat), bool>,
    categories: Seq<CategoryModel>,
    moves: Seq<Move>,
) -> bool {
    forall|k: int|
        0 <= k < moves.len() ==> !step_miscounts(
            run(s, recorded, categories, #[trigger] moves.take(k)).0,
            moves[k].intent,
        )
}

/// Every state that a game reaches from a valid state is valid, whatever
/// the players ask and whatever is drawn, as long as no game is begun with
/// fewer than three or more than ten drafted names.
pub proof fn lemma_run_keeps_valid(
    s: StateModel,
    recorded: Map<(nat, nat), bool>,
    categories: Seq<CategoryModel>,
    moves: Seq<Move>,
)
    requires
        state_valid(s),
        corpus_valid(categories),
        run_counts(s, recorded, categories, moves),
    ensures
        state_valid(run(s, recorded, categories, moves).0),
    decreases moves.len(),
{
    if moves.len() > 0 {
        let earlier = moves.drop_last();
        assert forall|k: int| 0 <= k < earlier.len() implies !step_miscounts(
            run(s, recorded, categories, #[trigger] earlier.take(k)).0,
            earlier[k].intent,
        ) by {
            assert(earlier.take(k) =~= moves.take(k));
        }
        lemma_run_keeps_valid(s, recorded, categories, earlier);
        let before = run(s, recorded, categories, earlier);
        assert(moves.take(moves.len() - 1) =~= earlier);
        lemma_step_keeps_valid(before.0, moves.last().intent, categories, before.1, moves.last().draws);
    }
}

} // verus!
