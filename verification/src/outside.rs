//! Items whose contracts are taken on trust from the crates they call.

use rand::rngs::StdRng;
use vstd::prelude::*;

verus! {

/// The generator of `rand` that a game draws from. Nothing inside it is
/// visible to the proofs.
#[verifier::external_type_specification]
#[verifier::external_body]
pub struct ExStdRng(StdRng);

/// Calls `SeedableRng::seed_from_u64` of `rand`: a generator whose stream is
/// fixed by `seed`. Nothing is claimed of the generator.
#[verifier::external_body]
pub(crate) fn seeded_rng(seed: u64) -> (rng: StdRng) {
    rand::SeedableRng::seed_from_u64(seed)
}

/// Calls `RngCore::next_u64` of `rand` on the generator. Nothing is claimed
/// of the number that comes back.
#[verifier::external_body]
pub(crate) fn draw(rng: &mut StdRng) -> (r: u64) {
    rand::RngCore::next_u64(rng)
}

/// The rate limiter of `ratelimit_meter` with its cell rate algorithm, as one
/// session holds it. Nothing inside it is visible to the proofs.
#[verifier::external_body]
pub struct CommandMeter {
    limiter: ratelimit_meter::DirectRateLimiter<ratelimit_meter::GCRA>,
}

/// Calls `DirectRateLimiter::<GCRA>::per_second` of `ratelimit_meter` with
/// `capacity` as its non-zero argument. Nothing is claimed of the limiter.
#[verifier::external_body]
pub(crate) fn meter_per_second(capacity: u32) -> (meter: CommandMeter)
    requires
        capacity > 0,
{
    CommandMeter {
        limiter: ratelimit_meter::DirectRateLimiter::<ratelimit_meter::GCRA>::per_second(
            std::num::NonZeroU32::new(capacity).unwrap(),
        ),
    }
}

/// Calls `DirectRateLimiter::check` of `ratelimit_meter`, which reads the
/// clock, and tells whether the cell conforms. Nothing is claimed of the
/// answer.
#[verifier::external_body]
pub(crate) fn meter_check(meter: &mut CommandMeter) -> (conforms: bool) {
    meter.limiter.check().is_ok()
}

/// The letters and digits of ASCII.
pub open spec fn is_alphanumeric(c: char) -> bool {
    ('a' <= c && c <= 'z') || ('A' <= c && c <= 'Z') || ('0' <= c && c <= '9')
}

/// Calls `DistString::sample_string` of `rand` on its `Alphanumeric`
/// distribution, which appends `length` samples to an empty text. The
/// distribution yields letters and digits of ASCII only, so the text has
/// `length` characters, each a letter or a digit. Which ones is left open.
#[verifier::external_body]
pub(crate) fn random_text(rng: &mut StdRng, length: usize) -> (text: String)
    ensures
        text@.len() == length,
        forall|i: int| 0 <= i < text@.len() ==> is_alphanumeric(#[trigger] text@[i]),
{
    rand::distributions::DistString::sample_string(&rand::distributions::Alphanumeric, rng, length)
}

} // verus!
