//! Setup of a game: the player count as typed, and the drafted names.

use crate::types::{players_model, texts_model, Player, PlayerModel};
use vstd::prelude::*;
use vstd::string::StrSliceExecFns;

verus! {

/// Fewest players a game can have.
pub const MIN_PLAYERS: usize = 3;

/// Most players a game can have.
pub const MAX_PLAYERS: usize = 10;

/// `c` is one of the ten decimal digits.
pub open spec fn is_digit(c: char) -> bool {
    '0' <= c <= '9'
}

/// The number that a decimal digit stands for.
pub open spec fn digit_of(c: char) -> nat {
    (c as int - '0' as int) as nat
}

/// Every character is a decimal digit.
pub open spec fn all_digits(text: Seq<char>) -> bool {
    forall|i: int| 0 <= i < text.len() ==> is_digit(#[trigger] text[i])
}

/// The number that a string of decimal digits stands for.
pub open spec fn digits_value(text: Seq<char>) -> nat
    decreases text.len(),
{
    if text.len() == 0 {
        0
    } else {
        digits_value(text.drop_last()) * 10 + digit_of(text.last())
    }
}

/// The number written in `text`: an optional `+`, then one or more decimal
/// digits and nothing else.
pub open spec fn decimal_value(text: Seq<char>) -> Option<nat> {
    let digits = if text.len() > 0 && text[0] == '+' {
        text.skip(1)
    } else {
        text
    };
    if digits.len() > 0 && all_digits(digits) {
        Some(digits_value(digits))
    } else {
        None
    }
}

/// The count written in `text`, where it is a number that a `usize` can hold.
pub open spec fn parsed_count(text: Seq<char>) -> Option<usize> {
    match decimal_value(text) {
        Some(value) if value <= usize::MAX => Some(value as usize),
        _ => None,
    }
}

/// The player count in effect for what the user typed: the number typed, or
/// three where none was, held between three and ten.
pub open spec fn effective_count(text: Seq<char>) -> nat {
    match parsed_count(text) {
        Some(value) => if value < MIN_PLAYERS {
            MIN_PLAYERS as nat
        } else if value > MAX_PLAYERS {
            MAX_PLAYERS as nat
        } else {
            value as nat
        },
        None => MIN_PLAYERS as nat,
    }
}

proof fn lemma_digits_prefix(text: Seq<char>, n: int)
    requires
        0 <= n <= text.len(),
    ensures
        digits_value(text.take(n)) <= digits_value(text),
    decreases text.len() - n,
{
    if n < text.len() {
        lemma_digits_prefix(text, n + 1);
        assert(text.take(n + 1).drop_last() =~= text.take(n));
    } else {
        assert(text.take(n) =~= text);
    }
}

/// Reads a count as `usize::from_str` of the standard library does: an
/// optional `+`, then decimal digits only; no count where the text is empty,
/// holds another character or names a number too large.
pub fn parse_count(text: &str) -> (r: Option<usize>)
    ensures
        r == parsed_count(text@),
{
    let len = text.unicode_len();
    if len == 0 {
        return None;
    }
    let start: usize = if text.get_char(0) == '+' { 1 } else { 0 };
    let ghost digits = if start == 1 { text@.skip(1) } else { text@ };
    if start == len {
        return None;
    }
    let mut value: usize = 0;
    let mut i: usize = start;
    while i < len
        invariant
            start <= i <= len,
            len == text@.len(),
            len > 0,
            start == 1 <==> text@[0] == '+',
            digits == if start == 1 {
                text@.skip(1)
            } else {
                text@
            },
            digits.len() == len - start,
            forall|j: int| 0 <= j < digits.len() ==> digits[j] == text@[j + start],
            all_digits(digits.take(i - start)),
            value == digits_value(digits.take(i - start)),
        decreases len - i,
    {
        let c = text.get_char(i);
        assert(digits[i - start] == c);
        if !('0' <= c && c <= '9') {
            assert(!is_digit(digits[i - start]));
            return None;
        }
        let digit = (c as u32 - '0' as u32) as usize;
        assert(digit == digit_of(c));
        proof {
            assert(digits.take(i - start + 1).drop_last() =~= digits.take(i - start));
            assert(digits.take(i - start + 1).last() == c);
            lemma_digits_prefix(digits, i - start + 1);
        }
        let scaled = match value.checked_mul(10) {
            Some(v) => v,
            None => {
                return None;
            },
        };
        value = match scaled.checked_add(digit) {
            Some(v) => v,
            None => {
                return None;
            },
        };
        i += 1;
    }
    assert(digits.take(len - start) =~= digits);
    Some(value)
}

/// The player count in effect for what the user typed.
pub fn effective_player_count(input: &str) -> (r: usize)
    ensures
        r == effective_count(input@),
        MIN_PLAYERS <= r <= MAX_PLAYERS,
{
    match parse_count(input) {
        Some(value) => {
            if value < MIN_PLAYERS {
                MIN_PLAYERS
            } else if value > MAX_PLAYERS {
                MAX_PLAYERS
            } else {
                value
            }
        },
        None => MIN_PLAYERS,
    }
}

/// The drafted names cut or padded to `count` entries: the names already
/// there stay, and empty names fill the rest.
pub open spec fn resized_names(names: Seq<Seq<char>>, count: nat) -> Seq<Seq<char>> {
    Seq::new(
        count,
        |i: int|
            if i < names.len() {
                names[i]
            } else {
                Seq::<char>::empty()
            },
    )
}

/// The drafted names with the name at `index` set to `name`; where the
/// sequence is too short, empty names fill the gap.
pub open spec fn names_with(names: Seq<Seq<char>>, index: nat, name: Seq<char>) -> Seq<Seq<char>> {
    Seq::new(
        if index < names.len() {
            names.len()
        } else {
            (index + 1) as nat
        },
        |i: int|
            if i == index {
                name
            } else if i < names.len() {
                names[i]
            } else {
                Seq::<char>::empty()
            },
    )
}

/// Cuts or pads the drafted names to `count` entries.
pub fn resize_names(names: &Vec<String>, count: usize) -> (r: Vec<String>)
    ensures
        texts_model(r@) == resized_names(texts_model(names@), count as nat),
{
    let mut out: Vec<String> = Vec::new();
    let mut i: usize = 0;
    while i < count
        invariant
            i <= count,
            out.len() == i,
            forall|j: int|
                0 <= j < i ==> (#[trigger] out[j])@ == resized_names(texts_model(names@), count as nat)[j],
        decreases count - i,
    {
        if i < names.len() {
            out.push(names[i].clone());
        } else {
            out.push(String::new());
        }
        i += 1;
    }
    assert(texts_model(out@) =~= resized_names(texts_model(names@), count as nat));
    out
}

/// Sets the drafted name at `index`, padding with empty names up to it.
pub fn set_name(names: &mut Vec<String>, index: usize, name: String)
    ensures
        texts_model(final(names)@) == names_with(texts_model(old(names)@), index as nat, name@),
{
    let ghost before = texts_model(names@);
    while names.len() <= index
        invariant
            names.len() >= before.len(),
            before.len() <= index ==> names.len() <= index + 1,
            forall|j: int| 0 <= j < before.len() ==> (#[trigger] names[j])@ == before[j],
            forall|j: int| before.len() <= j < names.len() ==> (#[trigger] names[j])@ == Seq::<char>::empty(),
            before.len() > index ==> names.len() == before.len(),
        decreases index + 1 - names.len(),
    {
        names.push(String::new());
    }
    names[index] = name;
    assert(texts_model(names@) =~= names_with(before, index as nat, name@));
}

/// The text that `str::trim` of the standard library returns for `text`:
/// `text` without its leading and trailing white space.
pub uninterp spec fn trimmed(text: Seq<char>) -> Seq<char>;

/// Calls `str::trim`, which cuts the white space at both ends of a text.
#[verifier::external_body]
fn trim_text<'a>(text: &'a str) -> (r: &'a str)
    ensures
        r@ == trimmed(text@),
{
    text.trim()
}

/// Every drafted name holds more than white space.
pub open spec fn names_complete(names: Seq<Seq<char>>) -> bool {
    forall|i: int| 0 <= i < names.len() ==> trimmed(#[trigger] names[i]).len() > 0
}

/// Whether every drafted name holds more than white space.
pub fn all_names_given(names: &Vec<String>) -> (r: bool)
    ensures
        r == names_complete(texts_model(names@)),
{
    let mut i: usize = 0;
    while i < names.len()
        invariant
            i <= names.len(),
            forall|j: int| 0 <= j < i ==> trimmed(#[trigger] texts_model(names@)[j]).len() > 0,
        decreases names.len() - i,
    {
        assert(texts_model(names@)[i as int] == names[i as int]@);
        if trim_text(names[i].as_str()).is_empty() {
            return false;
        }
        i += 1;
    }
    true
}

/// The players that a game starts with: one for each name, with no points
/// and not eliminated.
pub open spec fn new_players(names: Seq<Seq<char>>) -> Seq<PlayerModel> {
    Seq::new(names.len(), |i: int| PlayerModel { name: names[i], score: 0, is_eliminated: false })
}

/// Builds the players that a game starts with.
pub fn build_players(names: &Vec<String>) -> (r: Vec<Player>)
    ensures
        players_model(r@) == new_players(texts_model(names@)),
{
    let mut out: Vec<Player> = Vec::new();
    let mut i: usize = 0;
    while i < names.len()
        invariant
            i <= names.len(),
            out.len() == i,
            forall|j: int| 0 <= j < i ==> (#[trigger] out[j])@ == new_players(texts_model(names@))[j],
        decreases names.len() - i,
    {
        out.push(Player { name: names[i].clone(), score: 0, is_eliminated: false });
        i += 1;
    }
    assert(players_model(out@) =~= new_players(texts_model(names@)));
    out
}

} // verus!
