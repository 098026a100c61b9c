//! The scoring rules: what an eviction awards, and whether it ends the round.

use crate::types::{players_model, Player, PlayerModel};
use vstd::prelude::*;

verus! {

/// Points for each civilian still in the round when the imposter is evicted.
pub const CIVILIAN_AWARD: i32 = 10;

/// Points for the imposter when too few players are left to go on voting.
pub const IMPOSTER_AWARD: i32 = 20;

/// With this many players left, or fewer, the imposter has won.
pub const LAST_STAND: usize = 2;

/// How an eviction ends.
#[derive(Clone, Copy, Debug, PartialEq, Eq, Structural)]
pub enum EvictionOutcome {
    /// The imposter was evicted.
    CiviliansWin,
    /// A civilian was evicted and too few players are left.
    ImposterWins,
    /// A civilian was evicted and the vote goes on.
    RoundContinues,
}

/// Number of players not eliminated.
pub open spec fn active_count(players: Seq<PlayerModel>) -> nat
    decreases players.len(),
{
    if players.len() == 0 {
        0
    } else {
        active_count(players.drop_last()) + if players.last().is_eliminated {
            0nat
        } else {
            1nat
        }
    }
}

/// Number of players not eliminated, the imposter not counted.
pub open spec fn active_civilians(players: Seq<PlayerModel>, imposter_index: nat) -> nat
    decreases players.len(),
{
    if players.len() == 0 {
        0
    } else {
        active_civilians(players.drop_last(), imposter_index) + if players.last().is_eliminated
            || players.len() - 1 == imposter_index {
            0nat
        } else {
            1nat
        }
    }
}

/// Sum of all scores.
pub open spec fn score_total(players: Seq<PlayerModel>) -> int
    decreases players.len(),
{
    if players.len() == 0 {
        0
    } else {
        score_total(players.drop_last()) + players.last().score
    }
}

/// The players with the one at `index` marked as eliminated.
pub open spec fn mark_eliminated(players: Seq<PlayerModel>, index: nat) -> Seq<PlayerModel> {
    Seq::new(
        players.len(),
        |i: int|
            PlayerModel {
                name: players[i].name,
                score: players[i].score,
                is_eliminated: players[i].is_eliminated || i == index,
            },
    )
}

/// How the eviction of the player at `eliminated` ends.
pub open spec fn eviction_outcome(
    players: Seq<PlayerModel>,
    eliminated: nat,
    imposter_index: nat,
) -> EvictionOutcome {
    if eliminated == imposter_index {
        EvictionOutcome::CiviliansWin
    } else if active_count(mark_eliminated(players, eliminated)) <= LAST_STAND {
        EvictionOutcome::ImposterWins
    } else {
        EvictionOutcome::RoundContinues
    }
}

/// What the eviction of the player at `eliminated` awards to the player at `index`.
pub open spec fn eviction_award(
    players: Seq<PlayerModel>,
    eliminated: nat,
    imposter_index: nat,
    index: int,
) -> int {
    match eviction_outcome(players, eliminated, imposter_index) {
        EvictionOutcome::CiviliansWin => if index != imposter_index && !players[index].is_eliminated {
            CIVILIAN_AWARD as int
        } else {
            0
        },
        EvictionOutcome::ImposterWins => if index == imposter_index {
            IMPOSTER_AWARD as int
        } else {
            0
        },
        EvictionOutcome::RoundContinues => 0,
    }
}

/// The players after the eviction of the one at `eliminated`: that player is
/// marked, and the awards are added to the scores.
pub open spec fn after_eviction(
    players: Seq<PlayerModel>,
    eliminated: nat,
    imposter_index: nat,
) -> Seq<PlayerModel> {
    Seq::new(
        players.len(),
        |i: int|
            PlayerModel {
                name: players[i].name,
                score: players[i].score + eviction_award(players, eliminated, imposter_index, i),
                is_eliminated: players[i].is_eliminated || i == eliminated,
            },
    )
}

/// Every score has room for what the eviction awards.
pub open spec fn awards_fit(players: Seq<PlayerModel>, eliminated: nat, imposter_index: nat) -> bool {
    forall|i: int|
        0 <= i < players.len() ==> (#[trigger] players[i]).score + eviction_award(
            players,
            eliminated,
            imposter_index,
            i,
        ) <= i32::MAX
}

proof fn lemma_model_prefix(players: Seq<Player>, i: int)
    requires
        0 <= i < players.len(),
    ensures
        players_model(players).take(i + 1).drop_last() == players_model(players).take(i),
        players_model(players).take(i + 1).last() == players[i]@,
        players_model(players).take(players.len() as int) == players_model(players),
{
    assert(players_model(players).take(i + 1).drop_last() =~= players_model(players).take(i));
    assert(players_model(players).take(players.len() as int) =~= players_model(players));
}

/// Counts the players not eliminated.
pub fn count_active(players: &Vec<Player>) -> (r: usize)
    ensures
        r == active_count(players_model(players@)),
{
    let mut count: usize = 0;
    let mut i: usize = 0;
    while i < players.len()
        invariant
            i <= players.len(),
            count <= i,
            count == active_count(players_model(players@).take(i as int)),
        decreases players.len() - i,
    {
        proof {
            lemma_model_prefix(players@, i as int);
        }
        if !players[i].is_eliminated {
            count += 1;
        }
        i += 1;
    }
    proof {
        if players.len() > 0 {
            lemma_model_prefix(players@, players.len() - 1);
        } else {
            assert(players_model(players@).take(0) =~= players_model(players@));
        }
    }
    count
}

/// Counts the civilians not eliminated.
pub fn count_active_civilians(players: &Vec<Player>, imposter_index: usize) -> (r: usize)
    ensures
        r == active_civilians(players_model(players@), imposter_index as nat),
{
    let mut count: usize = 0;
    let mut i: usize = 0;
    while i < players.len()
        invariant
            i <= players.len(),
            count <= i,
            count == active_civilians(players_model(players@).take(i as int), imposter_index as nat),
        decreases players.len() - i,
    {
        proof {
            lemma_model_prefix(players@, i as int);
        }
        if !players[i].is_eliminated && i != imposter_index {
            count += 1;
        }
        i += 1;
    }
    proof {
        if players.len() > 0 {
            lemma_model_prefix(players@, players.len() - 1);
        } else {
            assert(players_model(players@).take(0) =~= players_model(players@));
        }
    }
    count
}

/// Applies the eviction of the player at `eliminated`: marks that player,
/// adds the awards, and says how the eviction ends.
pub fn apply_eviction(players: &mut Vec<Player>, eliminated: usize, imposter_index: usize) -> (outcome:
    EvictionOutcome)
    requires
        eliminated < old(players).len(),
        imposter_index < old(players).len(),
        awards_fit(players_model(old(players)@), eliminated as nat, imposter_index as nat),
    ensures
        outcome == eviction_outcome(players_model(old(players)@), eliminated as nat, imposter_index as nat),
        players_model(final(players)@) == after_eviction(
            players_model(old(players)@),
            eliminated as nat,
            imposter_index as nat,
        ),
{
    let ghost before = players_model(players@);
    let ghost e = eliminated as nat;
    let ghost m = imposter_index as nat;
    if eliminated == imposter_index {
        let mut i: usize = 0;
        while i < players.len()
            invariant
                i <= players.len(),
                players.len() == before.len(),
                eliminated == imposter_index,
                imposter_index < players.len(),
                e == eliminated,
                m == imposter_index,
                awards_fit(before, e, m),
                forall|j: int| 0 <= j < i ==> (#[trigger] players[j])@ == after_eviction(before, e, m)[j],
                forall|j: int| i <= j < players.len() ==> (#[trigger] players[j])@ == before[j],
            decreases players.len() - i,
        {
            assert(before[i as int].score + eviction_award(before, e, m, i as int) <= i32::MAX);
            if i != imposter_index && !players[i].is_eliminated {
                players[i].score = players[i].score + CIVILIAN_AWARD;
            }
            if i == eliminated {
                players[i].is_eliminated = true;
            }
            i += 1;
        }
        assert(players_model(players@) =~= after_eviction(before, e, m));
        EvictionOutcome::CiviliansWin
    } else {
        players[eliminated].is_eliminated = true;
        assert(players_model(players@) =~= mark_eliminated(before, e));
        let remaining = count_active(players);
        if remaining <= LAST_STAND {
            assert(before[imposter_index as int].score + eviction_award(before, e, m, imposter_index as int)
                <= i32::MAX);
            players[imposter_index].score = players[imposter_index].score + IMPOSTER_AWARD;
            assert(players_model(players@) =~= after_eviction(before, e, m));
            EvictionOutcome::ImposterWins
        } else {
            assert(players_model(players@) =~= after_eviction(before, e, m));
            EvictionOutcome::RoundContinues
        }
    }
}

/// No eviction lowers a score, changes a name or brings a player back.
pub proof fn lemma_eviction_monotonic(players: Seq<PlayerModel>, eliminated: nat, imposter_index: nat)
    ensures
        after_eviction(players, eliminated, imposter_index).len() == players.len(),
        forall|i: int|
            0 <= i < players.len() ==> {
                let after = #[trigger] after_eviction(players, eliminated, imposter_index)[i];
                &&& after.score >= players[i].score
                &&& after.name == players[i].name
                &&& players[i].is_eliminated ==> after.is_eliminated
            },
{
}

proof fn lemma_total_prefix(players: Seq<PlayerModel>, eliminated: nat, imposter_index: nat, n: int)
    requires
        eliminated == imposter_index,
        0 <= n <= players.len(),
    ensures
        score_total(after_eviction(players, eliminated, imposter_index).take(n)) == score_total(players.take(n))
            + CIVILIAN_AWARD * active_civilians(players.take(n), imposter_index),
    decreases n,
{
    let after = after_eviction(players, eliminated, imposter_index);
    if n > 0 {
        lemma_total_prefix(players, eliminated, imposter_index, n - 1);
        assert(after.take(n).drop_last() =~= after.take(n - 1));
        assert(players.take(n).drop_last() =~= players.take(n - 1));
        assert(after.take(n).last() == after[n - 1]);
        assert(players.take(n).last() == players[n - 1]);
        assert(players.take(n).len() - 1 == n - 1);
    }
}

/// Evicting the imposter awards ten points for each civilian who was still in
/// the round when the vote was taken, and nothing else.
pub proof fn lemma_correct_eviction_total(players: Seq<PlayerModel>, imposter_index: nat)
    requires
        imposter_index < players.len(),
    ensures
        eviction_outcome(players, imposter_index, imposter_index) == EvictionOutcome::CiviliansWin,
        score_total(after_eviction(players, imposter_index, imposter_index)) == score_total(players) + 10
            * active_civilians(players, imposter_index),
        after_eviction(players, imposter_index, imposter_index)[imposter_index as int].score
            == players[imposter_index as int].score,
{
    lemma_total_prefix(players, imposter_index, imposter_index, players.len() as int);
    let after = after_eviction(players, imposter_index, imposter_index);
    assert(after.take(players.len() as int) =~= after);
    assert(players.take(players.len() as int) =~= players);
}

/// An eviction that lets the imposter win awards twenty points to the
/// imposter and nothing to anyone else.
pub proof fn lemma_imposter_win_awards(players: Seq<PlayerModel>, eliminated: nat, imposter_index: nat)
    requires
        eliminated < players.len(),
        imposter_index < players.len(),
        eviction_outcome(players, eliminated, imposter_index) == EvictionOutcome::ImposterWins,
    ensures
        after_eviction(players, eliminated, imposter_index)[imposter_index as int].score
            == players[imposter_index as int].score + 20,
        forall|i: int|
            0 <= i < players.len() && i != imposter_index ==> (#[trigger] after_eviction(
                players,
                eliminated,
                imposter_index,
            )[i]).score == players[i].score,
{
}

/// Marking a player who is still in lowers the number of active players by
/// one; marking one who is out already changes nothing.
pub proof fn lemma_mark_lowers_count(players: Seq<PlayerModel>, index: nat)
    requires
        index < players.len(),
    ensures
        active_count(mark_eliminated(players, index)) + (if players[index as int].is_eliminated {
            0nat
        } else {
            1nat
        }) == active_count(players),
    decreases players.len(),
{
    let marked = mark_eliminated(players, index);
    if index == players.len() - 1 {
        assert(marked.drop_last() =~= players.drop_last());
    } else {
        assert(marked.drop_last() =~= mark_eliminated(players.drop_last(), index));
        lemma_mark_lowers_count(players.drop_last(), index);
    }
}

/// Says how the eviction of the player at `eliminated` would end, without
/// applying it.
pub fn foresee_eviction(players: &Vec<Player>, eliminated: usize, imposter_index: usize) -> (outcome:
    EvictionOutcome)
    requires
        eliminated < players.len(),
    ensures
        outcome == eviction_outcome(players_model(players@), eliminated as nat, imposter_index as nat),
{
    if eliminated == imposter_index {
        EvictionOutcome::CiviliansWin
    } else {
        proof {
            lemma_mark_lowers_count(players_model(players@), eliminated as nat);
        }
        let active = count_active(players);
        let remaining = if players[eliminated].is_eliminated {
            active
        } else {
            active - 1
        };
        if remaining <= LAST_STAND {
            EvictionOutcome::ImposterWins
        } else {
            EvictionOutcome::RoundContinues
        }
    }
}

/// Whether every score has room for what the eviction awards.
pub fn eviction_fits(players: &Vec<Player>, eliminated: usize, imposter_index: usize) -> (r: bool)
    requires
        eliminated < players.len(),
        imposter_index < players.len(),
    ensures
        r == awards_fit(players_model(players@), eliminated as nat, imposter_index as nat),
{
    let ghost model = players_model(players@);
    let ghost e = eliminated as nat;
    let ghost m = imposter_index as nat;
    match foresee_eviction(players, eliminated, imposter_index) {
        EvictionOutcome::CiviliansWin => {
            let mut i: usize = 0;
            while i < players.len()
                invariant
                    i <= players.len(),
                    model == players_model(players@),
                    e == eliminated,
                    m == imposter_index,
                    eviction_outcome(model, e, m) == EvictionOutcome::CiviliansWin,
                    forall|j: int| 0 <= j < i ==> (#[trigger] model[j]).score + eviction_award(model, e, m, j)
                        <= i32::MAX,
                decreases players.len() - i,
            {
                assert(model[i as int] == players[i as int]@);
                if i != imposter_index && !players[i].is_eliminated && players[i].score > i32::MAX
                    - CIVILIAN_AWARD {
                    return false;
                }
                i += 1;
            }
            true
        },
        EvictionOutcome::ImposterWins => {
            assert(model[imposter_index as int] == players[imposter_index as int]@);
            players[imposter_index].score <= i32::MAX - IMPOSTER_AWARD
        },
        EvictionOutcome::RoundContinues => true,
    }
}

} // verus!
