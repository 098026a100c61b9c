//! What the screens show of a state: whose turn it is to look, who can be
//! voted out, how many stay in, who the imposter was, and the ranking.

use crate::scoring::{active_count, count_active};
use crate::types::{players_model, GameCard, GameScreen, GameState, Player, PlayerModel, StateModel, ScreenModel};
use vstd::prelude::*;

verus! {

/// The player whose turn it is to look at a card: the cursor of the card
/// view, rotated by the starting player.
pub open spec fn display_index(s: StateModel) -> Option<nat> {
    match s.game_screen {
        ScreenModel::CardView { current_player_index } => if current_player_index < s.players.len() {
            Some(((s.starting_player_offset + current_player_index) % s.players.len()) as nat)
        } else {
            None
        },
        _ => None,
    }
}

/// The positions of the players not eliminated, in order.
pub open spec fn active_indices(players: Seq<PlayerModel>) -> Seq<nat>
    decreases players.len(),
{
    if players.len() == 0 {
        Seq::empty()
    } else if players.last().is_eliminated {
        active_indices(players.drop_last())
    } else {
        active_indices(players.drop_last()).push((players.len() - 1) as nat)
    }
}

/// Player `a` ranks before player `b`: by the higher score, and among equal
/// scores by the earlier position.
pub open spec fn ranks_before(players: Seq<PlayerModel>, a: int, b: int) -> bool {
    players[a].score > players[b].score || (players[a].score == players[b].score && a < b)
}

/// `order` is the ranking of the players: every position once, each before
/// all that it ranks before.
pub open spec fn is_ranking(players: Seq<PlayerModel>, order: Seq<usize>) -> bool {
    &&& order.len() == players.len()
    &&& forall|k: int| 0 <= k < order.len() ==> (#[trigger] order[k]) < players.len()
    &&& forall|i: usize| i < players.len() ==> #[trigger] order.contains(i)
    &&& forall|j: int, k: int|
        0 <= j < k < order.len() ==> ranks_before(players, #[trigger] order[j] as int, #[trigger] order[k] as int)
}

impl GameState {
    /// Card view: the position of the player whose turn it is to look.
    pub fn display_player(&self) -> (r: Option<usize>)
        ensures
            match r {
                Some(index) => display_index(self@) == Some(index as nat) && index < self.players.len(),
                None => display_index(self@) is None,
            },
    {
        match self.game_screen {
            GameScreen::CardView { current_player_index } => {
                let count = self.players.len();
                if current_player_index < count {
                    proof {
                        vstd::arithmetic::div_mod::lemma_add_mod_noop_right(
                            current_player_index as int,
                            self.starting_player_offset as int,
                            count as int,
                        );
                    }
                    let offset = self.starting_player_offset % count;
                    let sum = offset as u128 + current_player_index as u128;
                    Some((sum % (count as u128)) as usize)
                } else {
                    None
                }
            },
            _ => None,
        }
    }

    /// Card view: the card of the player whose turn it is to look, once the
    /// cards are dealt.
    pub fn display_card(&self) -> (r: Option<&GameCard>)
        ensures
            match r {
                Some(card) => {
                    &&& display_index(self@) is Some
                    &&& display_index(self@)->0 < self.cards.len()
                    &&& *card == self.cards[display_index(self@)->0 as int]
                },
                None => display_index(self@) is None || display_index(self@)->0 >= self.cards.len(),
            },
    {
        match self.display_player() {
            Some(index) => {
                if index < self.cards.len() {
                    Some(&self.cards[index])
                } else {
                    None
                }
            },
            None => None,
        }
    }

    /// The name of the imposter of the round, where the imposter is a player.
    pub fn imposter_name(&self) -> (r: Option<String>)
        ensures
            match r {
                Some(name) => self.imposter_index < self.players.len() && name@
                    == self@.players[self.imposter_index as int].name,
                None => self.imposter_index >= self.players.len(),
            },
    {
        if self.imposter_index < self.players.len() {
            Some(self.players[self.imposter_index].name.clone())
        } else {
            None
        }
    }
}

proof fn lemma_active_prefix(players: Seq<Player>, i: int)
    requires
        0 <= i < players.len(),
    ensures
        players_model(players).take(i + 1).drop_last() == players_model(players).take(i),
        players_model(players).take(i + 1).last() == players[i]@,
        players_model(players).take(i + 1).len() == i + 1,
{
    assert(players_model(players).take(i + 1).drop_last() =~= players_model(players).take(i));
}

/// Positions and names are those of the players not eliminated, in order.
pub open spec fn are_candidates(players: Seq<PlayerModel>, listed: Seq<(usize, String)>) -> bool {
    &&& listed.len() == active_indices(players).len()
    &&& forall|k: int|
        0 <= k < listed.len() ==> {
            &&& (#[trigger] listed[k]).0 == active_indices(players)[k]
            &&& listed[k].0 < players.len()
            &&& listed[k].1@ == players[listed[k].0 as int].name
        }
}

/// Voting: the players who can be voted out, each with position and name.
pub fn voting_candidates(players: &Vec<Player>) -> (r: Vec<(usize, String)>)
    ensures
        are_candidates(players_model(players@), r@),
{
    let ghost model = players_model(players@);
    let mut out: Vec<(usize, String)> = Vec::new();
    let mut i: usize = 0;
    while i < players.len()
        invariant
            i <= players.len(),
            model == players_model(players@),
            out.len() == active_indices(model.take(i as int)).len(),
            forall|k: int|
                0 <= k < out.len() ==> {
                    &&& (#[trigger] out[k]).0 == active_indices(model.take(i as int))[k]
                    &&& out[k].0 < i
                    &&& out[k].1@ == model[out[k].0 as int].name
                },
        decreases players.len() - i,
    {
        proof {
            lemma_active_prefix(players@, i as int);
        }
        if !players[i].is_eliminated {
            out.push((i, players[i].name.clone()));
        }
        i += 1;
    }
    assert(model.take(players.len() as int) =~= model);
    out
}

/// Elimination: how many players stay in once the eviction on screen is
/// settled.
pub fn players_remaining(players: &Vec<Player>) -> (r: usize)
    requires
        active_count(players_model(players@)) > 0,
    ensures
        r == active_count(players_model(players@)) - 1,
{
    count_active(players) - 1
}

/// The ranking of the players: positions by descending score, players with
/// equal scores in their order of play.
pub fn ranking(players: &Vec<Player>) -> (order: Vec<usize>)
    ensures
        is_ranking(players_model(players@), order@),
{
    let ghost model = players_model(players@);
    let mut order: Vec<usize> = Vec::new();
    let mut i: usize = 0;
    while i < players.len()
        invariant
            i <= players.len(),
            model == players_model(players@),
            order.len() == i,
            forall|k: int| 0 <= k < order@.len() ==> (#[trigger] order@[k]) < i,
            forall|j: usize| j < i ==> #[trigger] order@.contains(j),
            forall|j: int, k: int|
                0 <= j < k < order@.len() ==> ranks_before(
                    model,
                    #[trigger] order@[j] as int,
                    #[trigger] order@[k] as int,
                ),
        decreases players.len() - i,
    {
        let score = players[i].score;
        let mut at: usize = 0;
        while at < order.len() && players[order[at]].score >= score
            invariant
                at <= order.len(),
                order.len() == i,
                i < players.len(),
                model == players_model(players@),
                score == players[i as int].score,
                forall|k: int| 0 <= k < order@.len() ==> (#[trigger] order@[k]) < i,
                forall|k: int| 0 <= k < at ==> model[(#[trigger] order@[k]) as int].score >= score,
            decreases order.len() - at,
        {
            assert(model[order[at as int] as int] == players[order[at as int] as int]@);
            at += 1;
        }
        let ghost before = order@;
        proof {
            if at < order.len() {
                assert(model[order[at as int] as int] == players[order[at as int] as int]@);
            }
            assert(model[i as int] == players[i as int]@);
        }
        order.insert(at, i);
        proof {
            let after = order@;
            assert forall|k: int| 0 <= k < after.len() implies (#[trigger] after[k]) < i + 1 by {
                if k < at {
                    assert(after[k] == before[k]);
                } else if k > at {
                    assert(after[k] == before[k - 1]);
                }
            }
            assert forall|j: usize| j < i + 1 implies #[trigger] after.contains(j) by {
                if j == i {
                    assert(after[at as int] == i);
                } else {
                    assert(before.contains(j));
                    let k = choose|k: int| 0 <= k < before.len() && before[k] == j;
                    if k < at {
                        assert(after[k] == before[k]);
                    } else {
                        assert(after[k + 1] == before[k]);
                    }
                }
            }
            assert forall|j: int, k: int| 0 <= j < k < after.len() implies ranks_before(
                model,
                #[trigger] after[j] as int,
                #[trigger] after[k] as int,
            ) by {
                let a = if j < at { before[j] } else if j == at { i } else { before[j - 1] };
                let b = if k < at { before[k] } else if k == at { i } else { before[k - 1] };
                assert(after[j] == a);
                assert(after[k] == b);
                if k == at {
                    assert(model[before[j] as int].score >= score);
                    assert(before[j] < i);
                } else if j == at {
                    assert(ranks_before(model, before[at as int] as int, before[k - 1] as int) || k - 1 == at);
                } else if k < at {
                    assert(ranks_before(model, before[j] as int, before[k] as int));
                } else if j < at {
                    assert(ranks_before(model, before[j] as int, before[k - 1] as int));
                } else {
                    assert(ranks_before(model, before[j - 1] as int, before[k - 1] as int));
                }
            }
        }
        i += 1;
    }
    order
}

/// The players by `order`, copied.
pub fn players_in_order(players: &Vec<Player>, order: &Vec<usize>) -> (r: Vec<Player>)
    requires
        forall|k: int| 0 <= k < order.len() ==> (#[trigger] order[k]) < players.len(),
    ensures
        r.len() == order.len(),
        forall|k: int| 0 <= k < r.len() ==> (#[trigger] r[k])@ == players[order[k] as int]@,
{
    let mut out: Vec<Player> = Vec::new();
    let mut k: usize = 0;
    while k < order.len()
        invariant
            k <= order.len(),
            out.len() == k,
            forall|j: int| 0 <= j < order.len() ==> (#[trigger] order[j]) < players.len(),
            forall|j: int| 0 <= j < k ==> (#[trigger] out[j])@ == players[order[j] as int]@,
        decreases order.len() - k,
    {
        out.push(players[order[k]].clone());
        k += 1;
    }
    out
}

/// Scores: a copy of the players by descending score, players with equal
/// scores in their order of play. The players themselves keep their order.
pub fn scoreboard(players: &Vec<Player>) -> (r: Vec<Player>)
    ensures
        exists|order: Seq<usize>|
            {
                &&& #[trigger] is_ranking(players_model(players@), order)
                &&& r.len() == order.len()
                &&& forall|k: int| 0 <= k < r.len() ==> (#[trigger] r[k])@ == players[order[k] as int]@
            },
{
    let order = ranking(players);
    let r = players_in_order(players, &order);
    assert(is_ranking(players_model(players@), order@));
    r
}

} // verus!
