//! Engine of a pass-and-play social-deduction party game for three to ten
//! players on one device. Each round every player gets one of two similar
//! words; one player, the imposter, gets the other one, and the group votes
//! to find out who.
//!
//! * [`types`]: players, cards, phases, the game state and the word corpus.
//! * [`setup`]: the player count as typed and the drafted names.
//! * [`dealer`], [`orientation`], [`random`]: the round generator.
//! * [`scoring`]: what an eviction awards and whether it ends the round.
//! * [`machine`], [`intent`]: the phase machine, intent by intent and as one
//!   step function.
//! * [`validity`]: what holds of every state that a game can reach.
//! * [`views`]: what the screens show of a state.
//! * [`persistence`], [`saves`]: the session, its keys and its files.
//! * [`document`], [`codec`], [`snapshot`], [`corpus`]: the stored form of a
//!   state and of the corpus.

pub mod codec;
pub mod corpus;
pub mod dealer;
pub mod document;
pub mod intent;
pub mod machine;
pub mod orientation;
pub mod persistence;
pub mod random;
pub mod saves;
pub mod scoring;
pub mod setup;
pub mod snapshot;
pub mod types;
pub mod validity;
pub mod views;

pub use crate::dealer::{generate_cards_for_category, get_all_categories, RoundDeal};
pub use crate::document::Node;
pub use crate::intent::{Draws, Intent};
pub use crate::orientation::OrientationMap;
pub use crate::persistence::{generate_session_id, SaveCache};
pub use crate::types::{CardType, GameCard, GameScreen, GameState, Player, WordCategory, WordList};
