//! The round generator: picks a word pair and an imposter for a round and
//! builds one card per player.

use crate::orientation::{orientation_after, orientation_flip, OrientationMap};
use crate::random::random_u64;
use crate::types::{
    cards_model, categories_model, CardModel, CardType, CategoryModel, GameCard, WordCategory, WordList,
};
use vstd::prelude::*;

verus! {

/// A category can be dealt from: it has a pair, and the two words of each
/// pair differ.
pub open spec fn category_valid(category: CategoryModel) -> bool {
    &&& category.pairs.len() > 0
    &&& forall|i: int| 0 <= i < category.pairs.len() ==> (#[trigger] category.pairs[i]).0 != category.pairs[i].1
}

/// A corpus can be dealt from: it has a category, and each category is valid.
pub open spec fn corpus_valid(categories: Seq<CategoryModel>) -> bool {
    &&& categories.len() > 0
    &&& forall|i: int| 0 <= i < categories.len() ==> category_valid(#[trigger] categories[i])
}

/// Mathematical model of a [`RoundDeal`].
pub struct DealModel {
    pub cards: Seq<CardModel>,
    pub imposter_index: nat,
    pub category_name: Seq<char>,
    pub category_icon: Seq<char>,
    pub civilian_word: Seq<char>,
    pub imposter_word: Seq<char>,
}

/// What one deal produces: a card per player, the imposter's position, the
/// category dealt from and the two words of the round.
#[derive(Debug, PartialEq)]
pub struct RoundDeal {
    pub cards: Vec<GameCard>,
    pub imposter_index: usize,
    pub category_name: String,
    pub category_icon: String,
    pub civilian_word: String,
    pub imposter_word: String,
}

impl View for RoundDeal {
    type V = DealModel;

    open spec fn view(&self) -> DealModel {
        DealModel {
            cards: cards_model(self.cards@),
            imposter_index: self.imposter_index as nat,
            category_name: self.category_name@,
            category_icon: self.category_icon@,
            civilian_word: self.civilian_word@,
            imposter_word: self.imposter_word@,
        }
    }
}

/// The category that a deal uses: the index wraps round the corpus.
pub open spec fn dealt_category(categories: Seq<CategoryModel>, category_index: nat) -> nat {
    (category_index % categories.len()) as nat
}

/// The pair that a deal uses: the random number wraps round the category's pairs.
pub open spec fn dealt_pair(categories: Seq<CategoryModel>, category_index: nat, r_word: u64) -> nat {
    (r_word as nat % categories[dealt_category(categories, category_index) as int].pairs.len()) as nat
}

/// The key under which the orientation of the dealt pair is recorded.
pub open spec fn deal_key(categories: Seq<CategoryModel>, category_index: nat, r_word: u64) -> (nat, nat) {
    (dealt_category(categories, category_index), dealt_pair(categories, category_index, r_word))
}

/// The orientation used for a pair that was never dealt: the lowest bit of
/// the random number.
pub open spec fn deal_seed(r_word: u64) -> bool {
    r_word % 2 == 1
}

/// The position of the imposter's card.
pub open spec fn dealt_imposter(player_count: nat, r_imposter: u64) -> nat {
    (r_imposter as nat % player_count) as nat
}

/// One card per player: the imposter's word at the imposter's position, the
/// civilian word everywhere else.
pub open spec fn dealt_cards(
    player_count: nat,
    imposter_index: nat,
    civilian_word: Seq<char>,
    imposter_word: Seq<char>,
) -> Seq<CardModel> {
    Seq::new(
        player_count,
        |i: int|
            if i == imposter_index {
                CardModel { card_type: CardType::Imposter, word: imposter_word }
            } else {
                CardModel { card_type: CardType::Normal, word: civilian_word }
            },
    )
}

/// The deal for `player_count` players from the category at `category_index`,
/// given the two random numbers and the orientations recorded so far.
pub open spec fn deal_spec(
    categories: Seq<CategoryModel>,
    recorded: Map<(nat, nat), bool>,
    player_count: nat,
    category_index: nat,
    r_word: u64,
    r_imposter: u64,
) -> DealModel {
    let category = categories[dealt_category(categories, category_index) as int];
    let pair = category.pairs[dealt_pair(categories, category_index, r_word) as int];
    let flip = orientation_flip(recorded, deal_key(categories, category_index, r_word), deal_seed(r_word));
    let civilian_word = if flip { pair.0 } else { pair.1 };
    let imposter_word = if flip { pair.1 } else { pair.0 };
    let imposter_index = dealt_imposter(player_count, r_imposter);
    DealModel {
        cards: dealt_cards(player_count, imposter_index, civilian_word, imposter_word),
        imposter_index,
        category_name: category.name,
        category_icon: category.icon,
        civilian_word,
        imposter_word,
    }
}

/// A deal is sound for `player_count` players: one card each, exactly one of
/// them the imposter's, at the stated position; all civilians hold the
/// civilian word, and the imposter's word is another one.
pub open spec fn deal_sound(deal: DealModel, player_count: nat) -> bool {
    &&& deal.cards.len() == player_count
    &&& deal.imposter_index < player_count
    &&& deal.civilian_word != deal.imposter_word
    &&& forall|i: int|
        0 <= i < deal.cards.len() ==> ((#[trigger] deal.cards[i]).card_type == CardType::Imposter <==> i
            == deal.imposter_index)
    &&& forall|i: int|
        0 <= i < deal.cards.len() ==> (#[trigger] deal.cards[i]).word == if i == deal.imposter_index {
            deal.imposter_word
        } else {
            deal.civilian_word
        }
}

/// Every deal from a valid corpus is sound: exactly one card is the
/// imposter's, its word differs from every civilian's word, and all civilians
/// share one word.
pub proof fn lemma_deal_sound(
    categories: Seq<CategoryModel>,
    recorded: Map<(nat, nat), bool>,
    player_count: nat,
    category_index: nat,
    r_word: u64,
    r_imposter: u64,
)
    requires
        corpus_valid(categories),
        player_count > 0,
    ensures
        deal_sound(deal_spec(categories, recorded, player_count, category_index, r_word, r_imposter), player_count),
{
    let c = dealt_category(categories, category_index) as int;
    assert(0 <= c < categories.len());
    assert(category_valid(categories[c]));
    let p = dealt_pair(categories, category_index, r_word) as int;
    assert(0 <= p < categories[c].pairs.len());
    assert(categories[c].pairs[p].0 != categories[c].pairs[p].1);
}

/// A deal of one pair leaves what is on record for every other pair.
pub proof fn lemma_deal_keeps_other_records(
    recorded: Map<(nat, nat), bool>,
    dealt: (nat, nat),
    other: (nat, nat),
    seed: bool,
)
    requires
        dealt != other,
    ensures
        orientation_after(recorded, dealt, seed).contains_key(other) == recorded.contains_key(other),
        recorded.contains_key(other) ==> orientation_after(recorded, dealt, seed)[other] == recorded[other],
{
}

/// Two consecutive deals of the same pair swap the civilian word and the
/// imposter word: the second deal is made on any record that still holds
/// for the pair what the first deal left there.
pub proof fn lemma_consecutive_deals_swap(
    categories: Seq<CategoryModel>,
    recorded: Map<(nat, nat), bool>,
    later: Map<(nat, nat), bool>,
    first_players: nat,
    second_players: nat,
    first_category: nat,
    second_category: nat,
    first_r_word: u64,
    second_r_word: u64,
    first_r_imposter: u64,
    second_r_imposter: u64,
)
    requires
        deal_key(categories, first_category, first_r_word) == deal_key(
            categories,
            second_category,
            second_r_word,
        ),
        ({
            let key = deal_key(categories, first_category, first_r_word);
            &&& later.contains_key(key)
            &&& later[key] == orientation_after(recorded, key, deal_seed(first_r_word))[key]
        }),
    ensures
        ({
            let first = deal_spec(
                categories,
                recorded,
                first_players,
                first_category,
                first_r_word,
                first_r_imposter,
            );
            let second = deal_spec(
                categories,
                later,
                second_players,
                second_category,
                second_r_word,
                second_r_imposter,
            );
            &&& second.civilian_word == first.imposter_word
            &&& second.imposter_word == first.civilian_word
        }),
{
}

/// The categories of a word list, in the order in which the game indexes them.
pub fn get_all_categories(word_list: WordList) -> (r: Vec<WordCategory>)
    ensures
        categories_model(r@) == word_list@.categories,
{
    word_list.categories
}

/// Whether a category can be dealt from.
pub fn is_valid_category(category: &WordCategory) -> (r: bool)
    ensures
        r == category_valid(category@),
{
    if category.pairs.len() == 0 {
        return false;
    }
    let mut i: usize = 0;
    while i < category.pairs.len()
        invariant
            i <= category.pairs.len(),
            forall|j: int| 0 <= j < i ==> (#[trigger] category@.pairs[j]).0 != category@.pairs[j].1,
        decreases category.pairs.len() - i,
    {
        if category.pairs[i].0 == category.pairs[i].1 {
            assert(category@.pairs[i as int].0 == category@.pairs[i as int].1);
            return false;
        }
        assert(category@.pairs[i as int].0 != category@.pairs[i as int].1);
        i += 1;
    }
    true
}

/// Whether a corpus can be dealt from.
pub fn is_valid_corpus(categories: &Vec<WordCategory>) -> (r: bool)
    ensures
        r == corpus_valid(categories_model(categories@)),
{
    if categories.len() == 0 {
        return false;
    }
    let mut i: usize = 0;
    while i < categories.len()
        invariant
            i <= categories.len(),
            forall|j: int| 0 <= j < i ==> category_valid(#[trigger] categories_model(categories@)[j]),
        decreases categories.len() - i,
    {
        if !is_valid_category(&categories[i]) {
            assert(!category_valid(categories_model(categories@)[i as int]));
            return false;
        }
        assert(category_valid(categories_model(categories@)[i as int]));
        i += 1;
    }
    true
}

/// Deals a round from the two random numbers given: `r_word` picks the pair
/// and seeds its orientation, `r_imposter` picks the imposter.
pub fn deal_round(
    categories: &Vec<WordCategory>,
    orientation: &mut OrientationMap,
    player_count: usize,
    category_index: usize,
    r_word: u64,
    r_imposter: u64,
) -> (deal: RoundDeal)
    requires
        player_count > 0,
        corpus_valid(categories_model(categories@)),
    ensures
        deal@ == deal_spec(
            categories_model(categories@),
            old(orientation)@,
            player_count as nat,
            category_index as nat,
            r_word,
            r_imposter,
        ),
        deal_sound(deal@, player_count as nat),
        final(orientation)@ == orientation_after(
            old(orientation)@,
            deal_key(categories_model(categories@), category_index as nat, r_word),
            deal_seed(r_word),
        ),
{
    let ghost corpus = categories_model(categories@);
    let ghost recorded = orientation@;
    proof {
        lemma_deal_sound(corpus, recorded, player_count as nat, category_index as nat, r_word, r_imposter);
    }
    let category_at = category_index % categories.len();
    let category = &categories[category_at];
    assert(category@ == corpus[category_at as int]);
    assert(category_valid(corpus[category_at as int]));
    let pair_at = (r_word % (category.pairs.len() as u64)) as usize;
    let seed = r_word & 1 == 1;
    assert(seed == deal_seed(r_word)) by (bit_vector)
        requires
            seed == (r_word & 1 == 1),
    ;
    let flip = orientation.next_flip(category_at, pair_at, seed);
    let pair = &category.pairs[pair_at];
    assert(category@.pairs[pair_at as int] == (pair.0@, pair.1@));
    let civilian_word = if flip { pair.0.clone() } else { pair.1.clone() };
    let imposter_word = if flip { pair.1.clone() } else { pair.0.clone() };
    let imposter_index = (r_imposter % (player_count as u64)) as usize;
    let mut cards: Vec<GameCard> = Vec::new();
    let mut i: usize = 0;
    while i < player_count
        invariant
            i <= player_count,
            cards.len() == i,
            forall|j: int|
                0 <= j < i ==> (#[trigger] cards[j])@ == dealt_cards(
                    player_count as nat,
                    imposter_index as nat,
                    civilian_word@,
                    imposter_word@,
                )[j],
        decreases player_count - i,
    {
        if i == imposter_index {
            cards.push(GameCard { card_type: CardType::Imposter, word: imposter_word.clone() });
        } else {
            cards.push(GameCard { card_type: CardType::Normal, word: civilian_word.clone() });
        }
        i += 1;
    }
    assert(cards_model(cards@) =~= dealt_cards(
        player_count as nat,
        imposter_index as nat,
        civilian_word@,
        imposter_word@,
    ));
    RoundDeal {
        cards,
        imposter_index,
        category_name: category.name.clone(),
        category_icon: category.icon.clone(),
        civilian_word,
        imposter_word,
    }
}

/// Deals a round with two independent random draws, one for the pair and one
/// for the imposter. Whatever was drawn, the result is the deal that
/// [`deal_round`] makes from some two numbers.
pub fn generate_cards_for_category(
    categories: &Vec<WordCategory>,
    orientation: &mut OrientationMap,
    player_count: usize,
    category_index: usize,
) -> (deal: RoundDeal)
    requires
        player_count > 0,
        corpus_valid(categories_model(categories@)),
    ensures
        deal_sound(deal@, player_count as nat),
        exists|r_word: u64, r_imposter: u64|
            {
                &&& deal@ == #[trigger] deal_spec(
                    categories_model(categories@),
                    old(orientation)@,
                    player_count as nat,
                    category_index as nat,
                    r_word,
                    r_imposter,
                )
                &&& final(orientation)@ == orientation_after(
                    old(orientation)@,
                    deal_key(categories_model(categories@), category_index as nat, r_word),
                    deal_seed(r_word),
                )
            },
{
    let r_word = random_u64();
    let r_imposter = random_u64();
    deal_round(categories, orientation, player_count, category_index, r_word, r_imposter)
}

} // verus!
