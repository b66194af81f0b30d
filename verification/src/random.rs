//! Random seed numbers.

use rand::{RngCore, SeedableRng};
use vstd::prelude::*;

verus! {

/// A 64-bit word of fresh randomness: `rand::rngs::StdRng::from_entropy` seeds a generator from
/// the operating system, and `next_u64` draws its first word. The word is a matter of chance, so
/// nothing is claimed of it. The call panics where the machine has no source of randomness, which
/// no input decides.
#[verifier::external_body]
fn entropy_word() -> (word: u64) {
    rand::rngs::StdRng::from_entropy().next_u64()
}

/// A word that drawing fresh randomness can give.
pub closed spec fn is_drawn(word: u64) -> bool {
    call_ensures(entropy_word, (), word)
}

/// Draws a word from a source of words.
fn draw<S: Fn() -> u64>(source: S) -> (word: u64)
    requires
        call_requires(source, ()),
    ensures
        call_ensures(source, (), word),
{
    source()
}

/// The seed number that a random word stands for: its low 32 bits.
pub fn seed_from_word(word: u64) -> (seed: usize)
    ensures
        seed == word as nat % 0x1_0000_0000,
{
    assert(word & 0xFFFF_FFFF == word % 0x1_0000_0000) by (bit_vector);
    (word & 0xFFFF_FFFF) as usize
}

/// Picks the seed number of a new seed at random: the one of a freshly drawn word.
pub fn get_random_seed() -> (seed: usize)
    ensures
        exists|word: u64| #[trigger] is_drawn(word) && seed == word as nat % 0x1_0000_0000,
        seed < 0x1_0000_0000,
{
    let word: u64 = draw(entropy_word);
    assert(is_drawn(word));
    seed_from_word(word)
}

} // verus!
