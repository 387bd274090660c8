//! The seeded random stream of a run.
//!
//! A run owns one `XorShiftRng`. It is made once from the run's seed and
//! handed by `&mut` to whatever draws from it, so that everything drawn is a
//! function of the seed and of the order of the draws.

use rand::{RngCore, SeedableRng};
use rand_xorshift::XorShiftRng;
use vstd::prelude::*;

verus! {

/// The generator of `rand_xorshift`. Nothing of its inside is visible here:
/// contracts speak of it through `rng_words`.
#[verifier::external_type_specification]
#[verifier::external_body]
pub struct ExXorShiftRng(XorShiftRng);

/// The state of the random stream: the four words of its generator.
pub type Words = (u32, u32, u32, u32);

/// The state of a generator: its four words `x`, `y`, `z`, `w`, in that order.
pub uninterp spec fn rng_words(rng: XorShiftRng) -> (u32, u32, u32, u32);

/// The four words of the generator that `SeedableRng::seed_from_u64` builds
/// from `seed`.
pub uninterp spec fn seeded_words(seed: u64) -> (u32, u32, u32, u32);

/// The words of a generator after one draw from a generator with `words`.
/// The word drawn is the last of them.
pub open spec fn words_after_draw(words: Words) -> Words {
    let t = words.0 ^ (words.0 << 11u32);
    (words.1, words.2, words.3, words.3 ^ (words.3 >> 19u32) ^ (t ^ (t >> 8u32)))
}

/// The words of a generator after `draws` draws.
pub open spec fn words_after(words: Words, draws: nat) -> Words
    decreases draws,
{
    if draws == 0 {
        words
    } else {
        words_after_draw(words_after(words, (draws - 1) as nat))
    }
}

/// Calls `XorShiftRng::seed_from_u64`, the provided method of `rand_core`'s
/// `SeedableRng`. It expands the seed to sixteen bytes and hands them to
/// `from_seed`; the result depends on the seed alone, which is all that is
/// claimed here: the words are those named `seeded_words(seed)`.
#[verifier::external_body]
pub(crate) fn seed_from_u64(seed: u64) -> (rng: XorShiftRng)
    ensures
        rng_words(rng) == seeded_words(seed),
{
    XorShiftRng::seed_from_u64(seed)
}

/// Calls `next_u32` of `XorShiftRng`'s `RngCore`. The claim is the method's
/// body: with `t = x ^ (x << 11)` the words become
/// `(y, z, w, w ^ (w >> 19) ^ (t ^ (t >> 8)))`, and the new last word is
/// returned.
#[verifier::external_body]
pub(crate) fn next_u32(rng: &mut XorShiftRng) -> (word: u32)
    ensures
        rng_words(*final(rng)) == words_after_draw(rng_words(*old(rng))),
        word == rng_words(*final(rng)).3,
{
    rng.next_u32()
}

} // verus!
