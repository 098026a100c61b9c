//! What holds of every state that a game can reach, and the proofs that each
//! transition of the phase machine keeps it.

use crate::dealer::{corpus_valid, lemma_deal_sound};
use crate::machine::{
    back_at_reveal, backed_out, category_selected, deal_due, evicted, eviction_settled, fresh_state,
    game_reset, game_started, next_round_begun, player_advanced, round_started,
    scores_shown, with_player_count, with_player_name,
};
use crate::scoring::{
    active_civilians, eviction_outcome, lemma_correct_eviction_total, lemma_eviction_monotonic,
    lemma_imposter_win_awards, score_total, EvictionOutcome,
};
use crate::setup::{names_complete, MAX_PLAYERS, MIN_PLAYERS};
use crate::types::{
    cards_model, CardModel, CardType, CategoryModel, GameCard, GameScreen, GameState, PlayerModel,
    ScreenModel, StateModel,
};
use vstd::prelude::*;

verus! {

/// The number of players is one that a game can have.
pub open spec fn player_count_valid(count: nat) -> bool {
    MIN_PLAYERS <= count <= MAX_PLAYERS
}

/// The cards are one per player, and exactly one of them is the imposter's,
/// at the position on record.
pub open spec fn cards_valid(cards: Seq<CardModel>, imposter_index: nat, player_count: nat) -> bool {
    &&& cards.len() == player_count
    &&& imposter_index < cards.len()
    &&& forall|i: int|
        0 <= i < cards.len() ==> ((#[trigger] cards[i]).card_type == CardType::Imposter <==> i
            == imposter_index)
}

/// The cards bear the words of the round: the imposter's card the imposter
/// word, every other card the civilian word, and the two words differ.
pub open spec fn words_dealt(cards: Seq<CardModel>, imposter_index: nat, words: (Seq<char>, Seq<char>)) -> bool {
    &&& words.0 != words.1
    &&& forall|i: int|
        0 <= i < cards.len() ==> (#[trigger] cards[i]).word == if i == imposter_index {
            words.1
        } else {
            words.0
        }
}

/// A round has been dealt and a category is on record as chosen.
pub open spec fn in_round(s: StateModel) -> bool {
    s.cards.len() > 0 && s.selected_category_index is Some
}

/// What the current phase asks of the rest of the state.
pub open spec fn screen_valid(s: StateModel) -> bool {
    match s.game_screen {
        ScreenModel::Setup => s.players.len() == 0,
        ScreenModel::CategorySelection => true,
        ScreenModel::CategoryReveal { .. } => s.selected_category_index is Some,
        ScreenModel::CardView { current_player_index } => in_round(s) && current_player_index
            <= s.players.len(),
        ScreenModel::Voting => in_round(s),
        ScreenModel::Elimination { eliminated_index, was_imposter } => {
            &&& in_round(s)
            &&& eliminated_index < s.players.len()
            &&& !s.players[eliminated_index as int].is_eliminated
            &&& was_imposter == (eliminated_index == s.imposter_index)
        },
        ScreenModel::RoundEnd { .. } => in_round(s),
        ScreenModel::GameScore => true,
    }
}

/// The state is one that a game can be in: there are no players during
/// setup and three to ten afterwards; cards, once dealt, are one per player
/// with exactly one imposter, bear the words of the round and come with its
/// category; and the phase fits the rest of the state.
pub open spec fn state_valid(s: StateModel) -> bool {
    &&& s.players.len() == 0 || player_count_valid(s.players.len())
    &&& s.players.len() == 0 ==> s.game_screen is Setup
    &&& s.cards.len() > 0 ==> cards_valid(s.cards, s.imposter_index, s.players.len())
    &&& s.cards.len() > 0 ==> s.current_round_words is Some && words_dealt(
        s.cards,
        s.imposter_index,
        s.current_round_words->0,
    )
    &&& s.cards.len() > 0 ==> s.current_category is Some
    &&& screen_valid(s)
}

/// No player who is in both sequences has a lower score in the second.
pub open spec fn scores_kept(before: Seq<PlayerModel>, after: Seq<PlayerModel>) -> bool {
    forall|i: int| 0 <= i < before.len() && i < after.len() ==> (#[trigger] after[i]).score >= before[i].score
}

/// Beginning a game with fewer than three or more than ten drafted names
/// gives a player count that no game can have.
pub open spec fn start_miscounts(s: StateModel) -> bool {
    &&& s.game_screen is Setup
    &&& names_complete(s.player_names)
    &&& !player_count_valid(s.player_names.len())
}

/// What a valid state gives: the players are none during setup and three to
/// ten otherwise; cards, once dealt, are one per player with exactly one
/// imposter, at the position on record, all civilians hold one word and the
/// imposter another; the cursor of the card view stays within the players; the player
/// on the elimination screen is not yet marked and is the imposter exactly
/// when the screen says so; and from the reveal of the category to the end
/// of the round a category is on record as chosen.
pub proof fn lemma_valid_state(s: StateModel)
    requires
        state_valid(s),
    ensures
        s.players.len() == 0 || 3 <= s.players.len() <= 10,
        s.players.len() == 0 ==> s.game_screen is Setup,
        s.cards.len() > 0 ==> s.cards.len() == s.players.len() && s.imposter_index < s.cards.len(),
        s.cards.len() > 0 ==> forall|i: int|
            0 <= i < s.cards.len() ==> ((#[trigger] s.cards[i]).card_type == CardType::Imposter <==> i
                == s.imposter_index),
        s.cards.len() > 0 ==> s.current_round_words is Some,
        s.cards.len() > 0 ==> forall|i: int, j: int|
            0 <= i < s.cards.len() && 0 <= j < s.cards.len() && i != s.imposter_index ==> {
                &&& j != s.imposter_index ==> (#[trigger] s.cards[i]).word == (#[trigger] s.cards[j]).word
                &&& j == s.imposter_index ==> s.cards[i].word != s.cards[j].word
            },
        s.game_screen matches ScreenModel::CardView { current_player_index } ==> current_player_index
            <= s.players.len(),
        s.game_screen matches ScreenModel::Elimination { eliminated_index, was_imposter } ==> {
            &&& eliminated_index < s.players.len()
            &&& !s.players[eliminated_index as int].is_eliminated
            &&& was_imposter == (eliminated_index == s.imposter_index)
        },
        s.game_screen is CategoryReveal || s.game_screen is CardView || s.game_screen is Voting
            || s.game_screen is Elimination || s.game_screen is RoundEnd
            ==> s.selected_category_index is Some,
{
}

/// A session starts in a valid state.
pub proof fn lemma_fresh_valid(session_id: Seq<char>)
    ensures
        state_valid(fresh_state(session_id)),
{
}

/// Typing a player count keeps the state valid and the players untouched.
pub proof fn lemma_player_count_valid(s: StateModel, input: Seq<char>)
    requires
        state_valid(s),
    ensures
        state_valid(with_player_count(s, input)),
        with_player_count(s, input).players == s.players,
{
}

/// Drafting a name keeps the state valid and the players untouched.
pub proof fn lemma_player_name_valid(s: StateModel, index: nat, name: Seq<char>)
    requires
        state_valid(s),
    ensures
        state_valid(with_player_name(s, index, name)),
        with_player_name(s, index, name).players == s.players,
{
}

/// Starting the game keeps the state valid, provided the drafted names are
/// three to ten.
pub proof fn lemma_game_started_valid(s: StateModel)
    requires
        state_valid(s),
        !start_miscounts(s),
    ensures
        state_valid(game_started(s)),
        scores_kept(s.players, game_started(s).players),
{
}

/// Choosing a category keeps the state valid and the players untouched.
pub proof fn lemma_category_selected_valid(s: StateModel, categories: Seq<CategoryModel>, index: nat)
    requires
        state_valid(s),
    ensures
        state_valid(category_selected(s, categories, index)),
        category_selected(s, categories, index).players == s.players,
{
}

/// Starting a round keeps the state valid and the players untouched.
pub proof fn lemma_round_started_valid(
    s: StateModel,
    categories: Seq<CategoryModel>,
    recorded: Map<(nat, nat), bool>,
    r_word: u64,
    r_imposter: u64,
)
    requires
        state_valid(s),
        corpus_valid(categories),
    ensures
        state_valid(round_started(s, categories, recorded, r_word, r_imposter)),
        round_started(s, categories, recorded, r_word, r_imposter).players == s.players,
{
    if deal_due(s) {
        lemma_deal_sound(
            categories,
            recorded,
            s.players.len(),
            s.selected_category_index->0,
            r_word,
            r_imposter,
        );
    }
}

/// Going back from the reveal keeps the state valid and the players untouched.
pub proof fn lemma_backed_out_valid(s: StateModel)
    requires
        state_valid(s),
    ensures
        state_valid(backed_out(s)),
        backed_out(s).players == s.players,
{
}

/// Handing the device on keeps the state valid and the players untouched.
pub proof fn lemma_player_advanced_valid(s: StateModel)
    requires
        state_valid(s),
    ensures
        state_valid(player_advanced(s)),
        player_advanced(s).players == s.players,
{
}

/// Going back from the first card keeps the state valid and the players
/// untouched.
pub proof fn lemma_back_at_reveal_valid(s: StateModel)
    requires
        state_valid(s),
    ensures
        state_valid(back_at_reveal(s)),
        back_at_reveal(s).players == s.players,
{
}

/// An eviction keeps the state valid and the players untouched; the player
/// named on the elimination screen is not yet marked, and is the imposter
/// exactly when the screen says so.
pub proof fn lemma_evicted_valid(s: StateModel, index: nat)
    requires
        state_valid(s),
    ensures
        state_valid(evicted(s, index)),
        evicted(s, index).players == s.players,
{
}

/// Settling an eviction keeps the state valid, lowers no score, and leaves
/// the evicted player marked as eliminated.
pub proof fn lemma_eviction_settled_valid(s: StateModel)
    requires
        state_valid(s),
    ensures
        state_valid(eviction_settled(s)),
        scores_kept(s.players, eviction_settled(s).players),
        s.game_screen matches ScreenModel::Elimination { eliminated_index, .. } ==> eviction_settled(
            s,
        ).players[eliminated_index as int].is_eliminated,
{
    if s.game_screen is Elimination {
        lemma_eviction_monotonic(s.players, s.game_screen->eliminated_index, s.imposter_index);
    }
}

/// What settling an eviction awards. Where the imposter was evicted, the
/// scores grow by ten points for each civilian who was in the round when the
/// vote was taken, and the imposter gets nothing. Where a civilian was
/// evicted and the round ends, the imposter gets twenty points and nobody
/// else anything. Where the vote goes on, no score changes.
pub proof fn lemma_settlement_awards(s: StateModel)
    requires
        state_valid(s),
        s.game_screen is Elimination,
    ensures
        ({
            let evicted = s.game_screen->eliminated_index;
            let after = eviction_settled(s);
            match eviction_outcome(s.players, evicted, s.imposter_index) {
                EvictionOutcome::CiviliansWin => {
                    &&& s.game_screen->was_imposter
                    &&& after.game_screen == ScreenModel::RoundEnd { imposter_found: true, game_over: true }
                    &&& score_total(after.players) == score_total(s.players) + 10 * active_civilians(
                        s.players,
                        s.imposter_index,
                    )
                    &&& after.players[s.imposter_index as int].score == s.players[s.imposter_index as int].score
                },
                EvictionOutcome::ImposterWins => {
                    &&& !s.game_screen->was_imposter
                    &&& after.game_screen == ScreenModel::RoundEnd { imposter_found: false, game_over: true }
                    &&& after.players[s.imposter_index as int].score == s.players[s.imposter_index as int].score
                        + 20
                    &&& forall|i: int|
                        0 <= i < s.players.len() && i != s.imposter_index ==> (#[trigger] after.players[i]).score
                            == s.players[i].score
                },
                EvictionOutcome::RoundContinues => {
                    &&& !s.game_screen->was_imposter
                    &&& after.game_screen == ScreenModel::Voting
                    &&& after.round_number == s.round_number + 1
                    &&& forall|i: int|
                        0 <= i < s.players.len() ==> (#[trigger] after.players[i]).score == s.players[i].score
                },
            }
        }),
{
    let evicted = s.game_screen->eliminated_index;
    match eviction_outcome(s.players, evicted, s.imposter_index) {
        EvictionOutcome::CiviliansWin => {
            lemma_correct_eviction_total(s.players, s.imposter_index);
        },
        EvictionOutcome::ImposterWins => {
            lemma_imposter_win_awards(s.players, evicted, s.imposter_index);
        },
        EvictionOutcome::RoundContinues => {},
    }
}

/// Beginning the next round keeps the state valid and every score as it is.
pub proof fn lemma_next_round_valid(s: StateModel)
    requires
        state_valid(s),
    ensures
        state_valid(next_round_begun(s)),
        scores_kept(s.players, next_round_begun(s).players),
{
}

/// Showing the scores keeps the state valid and the players untouched.
pub proof fn lemma_scores_shown_valid(s: StateModel)
    requires
        state_valid(s),
    ensures
        state_valid(scores_shown(s)),
        scores_shown(s).players == s.players,
{
}

/// A new game keeps the state valid and the session.
pub proof fn lemma_game_reset_valid(s: StateModel, r_offset: u64)
    requires
        state_valid(s),
    ensures
        state_valid(game_reset(s, r_offset)),
        game_reset(s, r_offset).session_id == s.session_id,
        scores_kept(s.players, game_reset(s, r_offset).players),
{
}

/// Whether the cards are one per player with exactly one imposter, at the
/// position on record.
pub fn cards_are_valid(cards: &Vec<GameCard>, imposter_index: usize, player_count: usize) -> (r: bool)
    ensures
        r == cards_valid(cards_model(cards@), imposter_index as nat, player_count as nat),
{
    if cards.len() != player_count || imposter_index >= cards.len() {
        return false;
    }
    let mut i: usize = 0;
    while i < cards.len()
        invariant
            i <= cards.len(),
            forall|j: int|
                0 <= j < i ==> ((#[trigger] cards_model(cards@)[j]).card_type == CardType::Imposter <==> j
                    == imposter_index),
        decreases cards.len() - i,
    {
        assert(cards_model(cards@)[i as int] == cards[i as int]@);
        if (cards[i].card_type == CardType::Imposter) != (i == imposter_index) {
            return false;
        }
        i += 1;
    }
    true
}

/// Whether the cards bear the words of the round.
pub fn words_are_dealt(cards: &Vec<GameCard>, imposter_index: usize, words: &(String, String)) -> (r: bool)
    ensures
        r == words_dealt(cards_model(cards@), imposter_index as nat, (words.0@, words.1@)),
{
    if words.0 == words.1 {
        return false;
    }
    let mut i: usize = 0;
    while i < cards.len()
        invariant
            i <= cards.len(),
            forall|j: int|
                0 <= j < i ==> (#[trigger] cards_model(cards@)[j]).word == if j == imposter_index {
                    words.1@
                } else {
                    words.0@
                },
        decreases cards.len() - i,
    {
        assert(cards_model(cards@)[i as int] == cards[i as int]@);
        let expected = if i == imposter_index { &words.1 } else { &words.0 };
        if !(cards[i].word == *expected) {
            return false;
        }
        i += 1;
    }
    true
}

impl GameState {
    /// Whether the state is one that a game can be in.
    pub fn is_valid(&self) -> (r: bool)
        ensures
            r == state_valid(self@),
    {
        let count = self.players.len();
        if count != 0 && (count < MIN_PLAYERS || count > MAX_PLAYERS) {
            return false;
        }
        let dealt = self.cards.len() > 0;
        if dealt {
            if !cards_are_valid(&self.cards, self.imposter_index, count) {
                return false;
            }
            match &self.current_round_words {
                Some(words) => {
                    if !words_are_dealt(&self.cards, self.imposter_index, words) {
                        return false;
                    }
                },
                None => {
                    return false;
                },
            }
            if self.current_category.is_none() {
                return false;
            }
        }
        let in_round = dealt && self.selected_category_index.is_some();
        match self.game_screen {
            GameScreen::Setup => count == 0,
            GameScreen::CategorySelection => count != 0,
            GameScreen::CategoryReveal { .. } => count != 0 && self.selected_category_index.is_some(),
            GameScreen::CardView { current_player_index } => count != 0 && in_round && current_player_index
                <= count,
            GameScreen::Voting => count != 0 && in_round,
            GameScreen::Elimination { eliminated_index, was_imposter } => {
                if count != 0 && in_round && eliminated_index < count {
                    assert(self@.players[eliminated_index as int] == self.players[eliminated_index as int]@);
                    !self.players[eliminated_index].is_eliminated && was_imposter == (eliminated_index
                        == self.imposter_index)
                } else {
                    false
                }
            },
            GameScreen::RoundEnd { .. } => count != 0 && in_round,
            GameScreen::GameScore => count != 0,
        }
    }
}

} // verus!
