//! The session: its identifier, the keys under which it is stored, what is
//! adopted when a session resumes, and which saves are worth writing.

use crate::machine::fresh_state;
use crate::random::random_bytes;
use crate::types::{GameState, StateModel};
use crate::validity::state_valid;
use vstd::prelude::*;
use vstd::string::StringExecFns;

verus! {

/// Number of random bytes that a session identifier is made from.
pub const SESSION_ID_BYTES: usize = 16;

/// The hyphenated lower-case text of the version-4 UUID that the `uuid` crate
/// builds from sixteen random bytes.
pub uninterp spec fn uuid_text(bytes: Seq<u8>) -> Seq<char>;

/// `c` is a decimal digit or one of `a` to `f`.
pub open spec fn is_lower_hex(c: char) -> bool {
    ('0' <= c <= '9') || ('a' <= c <= 'f')
}

/// The text has the shape of a version-4 UUID: 36 characters in five groups
/// of lower-case hexadecimal digits with hyphens between them, the version
/// digit `4`, and a variant digit of `8`, `9`, `a` or `b`.
pub open spec fn session_id_shaped(text: Seq<char>) -> bool {
    &&& text.len() == 36
    &&& forall|i: int|
        0 <= i < 36 ==> if i == 8 || i == 13 || i == 18 || i == 23 {
            #[trigger] text[i] == '-'
        } else {
            is_lower_hex(text[i])
        }
    &&& text[14] == '4'
    &&& (text[19] == '8' || text[19] == '9' || text[19] == 'a' || text[19] == 'b')
}

/// Calls `uuid::Builder::from_random_bytes` on the sixteen bytes and writes
/// the UUID out with its `Display`. The crate sets the version and variant
/// bits over the bytes given and prints 32 lower-case hexadecimal digits in
/// groups of 8, 4, 4, 4 and 12 with hyphens between them.
#[verifier::external_body]
fn uuid_from_random_bytes(bytes: &Vec<u8>) -> (r: String)
    requires
        bytes.len() == SESSION_ID_BYTES,
    ensures
        r@ == uuid_text(bytes@),
        session_id_shaped(r@),
{
    let mut raw = [0u8; 16];
    raw.copy_from_slice(bytes);
    uuid::Builder::from_random_bytes(raw).into_uuid().to_string()
}

/// The session identifier made from sixteen random bytes.
pub fn session_id_from_bytes(bytes: &Vec<u8>) -> (r: String)
    requires
        bytes.len() == SESSION_ID_BYTES,
    ensures
        r@ == uuid_text(bytes@),
        session_id_shaped(r@),
{
    uuid_from_random_bytes(bytes)
}

/// A new session identifier: a version-4 UUID from sixteen bytes drawn from
/// the operating system.
pub fn generate_session_id() -> (r: String)
    ensures
        session_id_shaped(r@),
        exists|bytes: Seq<u8>| bytes.len() == SESSION_ID_BYTES && r@ == #[trigger] uuid_text(bytes),
{
    let bytes = random_bytes(SESSION_ID_BYTES);
    session_id_from_bytes(&bytes)
}

/// The key under which the session identifier is stored.
pub fn session_id_key() -> (r: String)
    ensures
        r@ == "agent_x_session_id"@,
{
    String::from_str("agent_x_session_id")
}

/// The key under which the game state of a session is stored.
pub open spec fn state_key(session_id: Seq<char>) -> Seq<char> {
    "agent_x_game_"@ + session_id
}

/// The key under which the game state of a session is stored.
pub fn game_state_key(session_id: &str) -> (r: String)
    ensures
        r@ == state_key(session_id@),
{
    String::from_str("agent_x_game_").concat(session_id)
}

/// The identifier that a launch goes on with: the stored one unchanged, or a
/// new one where none is stored. The flag says that the identifier is new and
/// has to be stored.
pub fn resolve_session_id(stored: Option<String>) -> (r: (String, bool))
    ensures
        match stored {
            Some(id) => r.0@ == id@ && !r.1,
            None => session_id_shaped(r.0@) && r.1,
        },
{
    match stored {
        Some(id) => (id, false),
        None => (generate_session_id(), true),
    }
}

/// The state that a launch goes on with: what was saved, adopted as a whole
/// under the session's identifier, or a fresh state where nothing could be
/// read back.
pub open spec fn restored(session_id: Seq<char>, saved: Option<StateModel>) -> StateModel {
    match saved {
        Some(state) => StateModel { session_id, ..state },
        None => fresh_state(session_id),
    }
}

/// A valid state that is adopted is valid under any session, and so is the
/// fresh state.
pub proof fn lemma_restored_valid(session_id: Seq<char>, saved: Option<StateModel>)
    requires
        saved is Some ==> state_valid(saved->0),
    ensures
        state_valid(restored(session_id, saved)),
{
}

/// The model of a saved state, where there is one.
pub open spec fn saved_model(saved: Option<GameState>) -> Option<StateModel> {
    match saved {
        Some(state) => Some(state@),
        None => None,
    }
}

/// Adopts the saved state of a session, or starts afresh where there is none.
pub fn restore_state(session_id: String, saved: Option<GameState>) -> (r: GameState)
    ensures
        r@ == restored(session_id@, saved_model(saved)),
{
    match saved {
        Some(state) => {
            let mut state = state;
            state.session_id = session_id;
            state
        },
        None => GameState::new(session_id),
    }
}

/// Remembers the payload written last, so that a save that would write the
/// same payload again can be skipped.
pub struct SaveCache {
    last_saved: Option<String>,
}

impl View for SaveCache {
    type V = Option<Seq<char>>;

    closed spec fn view(&self) -> Option<Seq<char>> {
        match self.last_saved {
            Some(payload) => Some(payload@),
            None => None,
        }
    }
}

/// A save is attempted once the state has been initialised and the session
/// has an identifier.
pub open spec fn save_due(initialized: bool, session_id: Seq<char>) -> bool {
    initialized && session_id.len() > 0
}

/// A save is written where it is due and the payload differs from the one
/// written last.
pub open spec fn write_due(
    last_saved: Option<Seq<char>>,
    initialized: bool,
    session_id: Seq<char>,
    payload: Seq<char>,
) -> bool {
    save_due(initialized, session_id) && last_saved != Some(payload)
}

impl SaveCache {
    /// A cache that has seen no write.
    pub fn new() -> (r: Self)
        ensures
            r@ is None,
    {
        SaveCache { last_saved: None }
    }

    /// Whether the payload differs from the one written last.
    pub fn differs(&self, payload: &String) -> (r: bool)
        ensures
            r == (self@ != Some(payload@)),
    {
        match &self.last_saved {
            Some(last) => !(*last == *payload),
            None => true,
        }
    }

    /// Decides on a save attempt. Where a write is due, the key and the
    /// payload to write come back and the payload is remembered; otherwise
    /// nothing comes back and the cache stays as it is.
    pub fn plan_save(&mut self, initialized: bool, session_id: &String, payload: String) -> (r: Option<
        (String, String),
    >)
        ensures
            match r {
                Some(write) => {
                    &&& write_due(old(self)@, initialized, session_id@, payload@)
                    &&& write.0@ == state_key(session_id@)
                    &&& write.1@ == payload@
                    &&& final(self)@ == Some(payload@)
                },
                None => {
                    &&& !write_due(old(self)@, initialized, session_id@, payload@)
                    &&& final(self)@ == old(self)@
                },
            },
    {
        if initialized && !session_id.as_str().is_empty() && self.differs(&payload) {
            let key = game_state_key(session_id.as_str());
            self.last_saved = Some(payload.clone());
            Some((key, payload))
        } else {
            None
        }
    }
}

} // verus!
