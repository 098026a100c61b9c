//! Random bytes from the operating system. A failed draw counts as zeros, so
//! that the game stays playable.

use vstd::bytes::{spec_u64_from_le_bytes, u64_from_le_bytes};
use vstd::prelude::*;

verus! {

/// Calls `getrandom::getrandom` on a fresh buffer of `count` bytes and hands
/// the buffer out where the call reported success. Only the length of the
/// buffer is claimed: the bytes are whatever the system gave.
#[verifier::external_body]
fn os_random_bytes(count: usize) -> (r: Option<Vec<u8>>)
    ensures
        r matches Some(bytes) ==> bytes.len() == count,
{
    let mut buffer = vec![0u8; count];
    match getrandom::getrandom(&mut buffer) {
        Ok(()) => Some(buffer),
        Err(_) => None,
    }
}

/// The bytes that a draw of `count` bytes stands for: the bytes drawn, or
/// zeros where the draw failed.
pub open spec fn bytes_of_draw(draw: Option<Vec<u8>>, count: nat) -> Seq<u8> {
    match draw {
        Some(bytes) if bytes@.len() == count => bytes@,
        _ => Seq::new(count, |i: int| 0u8),
    }
}

/// Turns the outcome of a draw into `count` bytes, zeros where the draw
/// failed or came back with another length.
pub fn bytes_from_draw(draw: Option<Vec<u8>>, count: usize) -> (r: Vec<u8>)
    ensures
        r@ == bytes_of_draw(draw, count as nat),
{
    match draw {
        Some(bytes) => {
            if bytes.len() == count {
                return bytes;
            }
        },
        None => {},
    }
    let mut zeros: Vec<u8> = Vec::new();
    let mut i: usize = 0;
    while i < count
        invariant
            i <= count,
            zeros@ == Seq::new(i as nat, |j: int| 0u8),
        decreases count - i,
    {
        zeros.push(0u8);
        assert(zeros@ =~= Seq::new((i + 1) as nat, |j: int| 0u8));
        i += 1;
    }
    zeros
}

/// Draws `count` bytes from the operating system; zeros if the draw fails.
/// Whatever the draw gave, the result is the bytes that it stands for.
pub fn random_bytes(count: usize) -> (r: Vec<u8>)
    ensures
        r.len() == count,
        exists|draw: Option<Vec<u8>>| r@ == #[trigger] bytes_of_draw(draw, count as nat),
{
    let draw = os_random_bytes(count);
    let r = bytes_from_draw(draw, count);
    assert(r@ == bytes_of_draw(draw, count as nat));
    r
}

/// The number that a draw of eight bytes stands for: the bytes drawn, or
/// zeros where the draw failed, read least significant byte first.
pub open spec fn number_of_draw(draw: Option<Vec<u8>>) -> u64 {
    spec_u64_from_le_bytes(bytes_of_draw(draw, 8))
}

/// The number that eight bytes stand for, least significant byte first.
pub fn number_from_bytes(bytes: &Vec<u8>) -> (r: u64)
    requires
        bytes.len() == 8,
    ensures
        r == spec_u64_from_le_bytes(bytes@),
{
    u64_from_le_bytes(bytes.as_slice())
}

/// Draws a 64-bit number from the operating system. Whatever the draw gave,
/// the result is the number that it stands for: eight bytes read least
/// significant byte first, zeros in place of a draw that failed.
pub fn random_u64() -> (r: u64)
    ensures
        exists|draw: Option<Vec<u8>>| r == #[trigger] number_of_draw(draw),
{
    let bytes = random_bytes(8);
    let r = number_from_bytes(&bytes);
    proof {
        let draw = choose|draw: Option<Vec<u8>>| bytes@ == #[trigger] bytes_of_draw(draw, 8);
        assert(r == number_of_draw(draw));
    }
    r
}

} // verus!
