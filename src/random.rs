//! An explicitly passed, seedable source of randomness, and the wall clock.

use vstd::prelude::*;
use rand::Rng;
use rand::SeedableRng;
use rand::seq::SliceRandom;
use rand::distributions::DistString;

verus! {

#[verifier::external_type_specification]
#[verifier::external_body]
pub struct ExStdRng(rand::rngs::StdRng);

/// Relies on `SeedableRng::seed_from_u64` for `StdRng`: a generator whose
/// stream depends on the seed alone.
#[verifier::external_body]
fn rng_from_seed(seed: u64) -> rand::rngs::StdRng {
    rand::rngs::StdRng::seed_from_u64(seed)
}

/// Relies on `SeedableRng::from_rng` for `StdRng` with `OsRng`: a generator
/// seeded from the operating system, or `None` when it cannot give entropy.
#[verifier::external_body]
fn rng_from_os() -> Option<rand::rngs::StdRng> {
    rand::rngs::StdRng::from_rng(rand::rngs::OsRng).ok()
}

/// Relies on `Rng::gen_range` on `0..n`: a value below `n` (it panics on an
/// empty range, which `n > 0` rules out).
#[verifier::external_body]
fn gen_below(rng: &mut rand::rngs::StdRng, n: u64) -> (r: u64)
    requires
        n > 0,
    ensures
        r < n,
{
    rng.gen_range(0..n)
}

/// Relies on `SliceRandom::choose`: `None` for an empty slice, else one of
/// its elements.
#[verifier::external_body]
fn choose_among(rng: &mut rand::rngs::StdRng, items: &Vec<String>) -> (r: Option<String>)
    ensures
        r is None <==> items@.len() == 0,
        r is Some ==> exists|i: int| 0 <= i < items@.len() && (#[trigger] items@[i])@ == r->0@,
{
    items.as_slice().choose(rng).cloned()
}

pub open spec fn is_alphanumeric(c: char) -> bool {
    ('A' <= c && c <= 'Z') || ('a' <= c && c <= 'z') || ('0' <= c && c <= '9')
}

/// Relies on `DistString::sample_string` for `Alphanumeric`: `len` characters,
/// each an ASCII letter or digit.
#[verifier::external_body]
fn alphanumeric_string(rng: &mut rand::rngs::StdRng, len: usize) -> (r: String)
    ensures
        r@.len() == len,
        forall|i: int| 0 <= i < len ==> is_alphanumeric(#[trigger] r@[i]),
{
    rand::distributions::Alphanumeric.sample_string(rng, len)
}

/// Relies on `Rng::sample_iter` with the `Standard` distribution of `char`:
/// `len` Unicode scalar values.
#[verifier::external_body]
fn any_char_string(rng: &mut rand::rngs::StdRng, len: usize) -> (r: String)
    ensures
        r@.len() == len,
{
    rng.sample_iter::<char, _>(rand::distributions::Standard).take(len).collect()
}

/// Relies on `time::OffsetDateTime::now_utc` and `unix_timestamp_nanos`: the
/// current wall-clock time, in nanoseconds since the Unix epoch.
#[verifier::external_body]
pub(crate) fn now_unix_nanos() -> i128 {
    time::OffsetDateTime::now_utc().unix_timestamp_nanos()
}

/// A handle on a pseudo-random generator, passed explicitly to everything
/// that draws.
pub struct RandomSource {
    rng: rand::rngs::StdRng,
}

impl RandomSource {
    /// A source whose draws are fixed by `seed`.
    pub fn seeded(seed: u64) -> RandomSource {
        RandomSource { rng: rng_from_seed(seed) }
    }

    /// A source seeded from the operating system, or `None` when the
    /// operating system cannot provide entropy.
    pub fn from_entropy() -> Option<RandomSource> {
        match rng_from_os() {
            Some(rng) => Some(RandomSource { rng }),
            None => None,
        }
    }

    /// A value drawn from `0..n`.
    pub fn below(&mut self, n: u64) -> (r: u64)
        requires
            n > 0,
        ensures
            r < n,
    {
        gen_below(&mut self.rng, n)
    }

    /// One of `items`, or `None` when there is none.
    pub fn pick(&mut self, items: &Vec<String>) -> (r: Option<String>)
        ensures
            r is None <==> items@.len() == 0,
            r is Some ==> exists|i: int| 0 <= i < items@.len() && (#[trigger] items@[i])@ == r->0@,
    {
        choose_among(&mut self.rng, items)
    }

    /// `len` ASCII letters and digits.
    pub fn alphanumeric(&mut self, len: usize) -> (r: String)
        ensures
            r@.len() == len,
            forall|i: int| 0 <= i < len ==> is_alphanumeric(#[trigger] r@[i]),
    {
        alphanumeric_string(&mut self.rng, len)
    }

    /// `len` characters from the whole Unicode scalar range.
    pub fn any_chars(&mut self, len: usize) -> (r: String)
        ensures
            r@.len() == len,
    {
        any_char_string(&mut self.rng, len)
    }
}

} // verus!
