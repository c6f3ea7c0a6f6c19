//! The random source. Nothing here is proved: each item states what is
//! taken on trust from the `rand` crate.

use rand::Rng;
use vstd::prelude::*;

verus! {

/// `rand::rngs::ThreadRng`, the handle to the generator of the running thread.
/// It is carried through verified code unopened.
#[verifier::external_type_specification]
#[verifier::external_body]
pub struct ExThreadRng(rand::rngs::ThreadRng);

/// Calls `rand::rng` for the handle to the thread's generator. Nothing is
/// claimed of the handle. `rand` seeds the generator from the operating system
/// on the thread's first use and gives up with a panic if that source fails.
#[verifier::external_body]
pub(crate) fn thread_generator() -> (generator: rand::rngs::ThreadRng) {
    rand::rng()
}

/// Calls `Rng::random::<u32>` on the handle for the generator's next 32-bit
/// word. Nothing is claimed of the word: any value may come back.
#[verifier::external_body]
pub(crate) fn next_word(generator: &mut rand::rngs::ThreadRng) -> (word: u32) {
    generator.random::<u32>()
}

/// Calls `rand::random::<u8>` for one byte from the thread's generator.
/// Nothing is claimed of the byte: any value may come back.
#[verifier::external_body]
pub(crate) fn random_byte() -> (byte: u8) {
    rand::random::<u8>()
}

} // verus!
