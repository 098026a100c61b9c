//! The names of the files that mirror saved games on disk: one file per
//! session, named after the session.

use crate::types::texts_model;
use vstd::prelude::*;
use vstd::string::{StrSliceExecFns, StringExecFns};

verus! {

/// `text` ends with `suffix`.
pub open spec fn ends_with(text: Seq<char>, suffix: Seq<char>) -> bool {
    text.len() >= suffix.len() && text.subrange(text.len() - suffix.len(), text.len() as int) == suffix
}

/// `text` with every repetition of `suffix` at its end cut off.
pub open spec fn without_trailing(text: Seq<char>, suffix: Seq<char>) -> Seq<char>
    decreases text.len(),
{
    if suffix.len() > 0 && ends_with(text, suffix) {
        without_trailing(text.take(text.len() - suffix.len()), suffix)
    } else {
        text
    }
}

/// The name of the file that holds the saved game of a session.
pub open spec fn save_file_of(session_id: Seq<char>) -> Seq<char> {
    session_id + ".json"@
}

/// The session that a file of the saves directory belongs to: the name
/// without the extension, however often it is repeated. A file of another
/// kind belongs to no session.
pub open spec fn session_of(file_name: Seq<char>) -> Option<Seq<char>> {
    if ends_with(file_name, ".json"@) {
        Some(without_trailing(file_name, ".json"@))
    } else {
        None
    }
}

/// The sessions that the files of the saves directory belong to, in the
/// order of the files.
pub open spec fn sessions_of(file_names: Seq<Seq<char>>) -> Seq<Seq<char>>
    decreases file_names.len(),
{
    if file_names.len() == 0 {
        Seq::empty()
    } else {
        match session_of(file_names.last()) {
            Some(session) => sessions_of(file_names.drop_last()).push(session),
            None => sessions_of(file_names.drop_last()),
        }
    }
}

/// The name of the file that holds the saved game of a session.
pub fn save_file_name(session_id: &str) -> (r: String)
    ensures
        r@ == save_file_of(session_id@),
{
    String::from_str(session_id).concat(".json")
}

/// Whether a file name has the extension of a saved game.
pub fn is_save_file(file_name: &str) -> (r: bool)
    ensures
        r == ends_with(file_name@, ".json"@),
{
    proof {
        reveal_strlit(".json");
    }
    let len = file_name.unicode_len();
    if len < 5 {
        false
    } else {
        String::from_str(file_name.substring_char(len - 5, len)) == String::from_str(".json")
    }
}

/// The session that a file of the saves directory belongs to.
pub fn session_of_file(file_name: &str) -> (r: Option<String>)
    ensures
        match r {
            Some(session) => session_of(file_name@) == Some(session@),
            None => session_of(file_name@) is None,
        },
{
    if !is_save_file(file_name) {
        return None;
    }
    proof {
        reveal_strlit(".json");
    }
    let mut rest = file_name;
    while is_save_file(rest)
        invariant
            ".json"@.len() == 5,
            without_trailing(rest@, ".json"@) == without_trailing(file_name@, ".json"@),
        decreases rest@.len(),
    {
        let len = rest.unicode_len();
        let ghost before = rest@;
        rest = rest.substring_char(0, len - 5);
        assert(rest@ =~= before.take(before.len() - 5));
    }
    Some(String::from_str(rest))
}

/// The sessions that the files of the saves directory belong to, in the
/// order of the files.
pub fn saved_sessions(file_names: &Vec<String>) -> (r: Vec<String>)
    ensures
        texts_model(r@) == sessions_of(texts_model(file_names@)),
{
    let ghost names = texts_model(file_names@);
    let mut sessions: Vec<String> = Vec::new();
    let mut i: usize = 0;
    while i < file_names.len()
        invariant
            i <= file_names.len(),
            names == texts_model(file_names@),
            texts_model(sessions@) == sessions_of(names.take(i as int)),
        decreases file_names.len() - i,
    {
        proof {
            assert(names.take(i + 1).drop_last() =~= names.take(i as int));
            assert(names.take(i + 1).last() == file_names[i as int]@);
        }
        let ghost listed = texts_model(sessions@);
        match session_of_file(file_names[i].as_str()) {
            Some(session) => {
                sessions.push(session);
                assert(texts_model(sessions@) =~= listed.push(session@));
            },
            None => {},
        }
        i += 1;
    }
    assert(names.take(file_names.len() as int) =~= names);
    sessions
}

} // verus!
