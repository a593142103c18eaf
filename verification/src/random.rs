//! What the library takes from its source of randomness, and how it names
//! a creature from random bytes.
//!
//! The generator is handed to every constructor that draws, so that a run
//! from a seeded generator can be repeated.

use vstd::prelude::*;
use rand::Rng;

verus! {

/// The generator of the `rand` crate that the library draws from. Nothing
/// is known of its state.
#[verifier::external_type_specification]
#[verifier::external_body]
pub struct ExStdRng(rand::rngs::StdRng);

/// `rand::Rng::gen_range` on the range `0..bound`: a number below `bound`.
/// The call panics on an empty range, which `bound > 0` rules out. Nothing
/// else is claimed of the number drawn.
#[verifier::external_body]
pub(crate) fn draw_below(rng: &mut rand::rngs::StdRng, bound: usize) -> (drawn: usize)
    requires
        bound > 0,
    ensures
        drawn < bound,
{
    rng.gen_range(0..bound)
}

/// `rand::Rng::gen` for an array of 16 bytes. Nothing is claimed of the
/// bytes drawn.
#[verifier::external_body]
pub(crate) fn draw_bytes(rng: &mut rand::rngs::StdRng) -> (bytes: [u8; 16]) {
    rng.gen()
}

/// The text of the version 4 UUID that `uuid::Builder::from_random_bytes`
/// makes of 16 bytes.
pub uninterp spec fn uuid_v4_text(bytes: Seq<u8>) -> Seq<char>;

/// `uuid::Builder::from_random_bytes`, with the UUID it builds written out
/// as text. The crate sets the version and variant bits in the bytes and
/// formats them in lower-case hexadecimal with hyphens, so the text depends
/// on the bytes alone; the contract only gives that text its name.
#[verifier::external_body]
pub(crate) fn uuid_text(bytes: [u8; 16]) -> (text: String)
    ensures
        text@ == uuid_v4_text(bytes@),
{
    uuid::Builder::from_random_bytes(bytes).into_uuid().to_string()
}

} // verus!
