//! The random source: a seedable generator that is handed to whatever draws.

use vstd::prelude::*;
use rand::rngs::StdRng;
use rand::seq::SliceRandom;
use rand::Rng;
use crate::world_data::MonsterTemplate;

verus! {

/// The generator `rand::rngs::StdRng`. Nothing is known of its state.
#[verifier::external_type_specification]
#[verifier::external_body]
pub struct ExStdRng(StdRng);

/// `Rng::gen_range` for `u8`: some value from `low` up to but not including
/// `high`. The call panics unless `low < high`.
#[verifier::external_body]
pub(crate) fn range_u8(rng: &mut StdRng, low: u8, high: u8) -> (r: u8)
    requires
        low < high,
    ensures
        low <= r < high,
{
    rng.gen_range(low, high)
}

/// `Rng::gen_range` for `usize`: some value from `low` up to but not
/// including `high`. The call panics unless `low < high`.
#[verifier::external_body]
pub(crate) fn range_usize(rng: &mut StdRng, low: usize, high: usize) -> (r: usize)
    requires
        low < high,
    ensures
        low <= r < high,
{
    rng.gen_range(low, high)
}

/// `Rng::gen_ratio`: true with probability `numerator / denominator`. The
/// call panics if the denominator is zero or smaller than the numerator.
/// Nothing is claimed of the outcome.
#[verifier::external_body]
pub(crate) fn ratio(rng: &mut StdRng, numerator: u32, denominator: u32) -> (r: bool)
    requires
        0 < denominator,
        numerator <= denominator,
{
    rng.gen_ratio(numerator, denominator)
}

/// `SliceRandom::choose`: one of the templates, or `None` if there is none.
#[verifier::external_body]
pub(crate) fn choose_template(rng: &mut StdRng, templates: &Vec<MonsterTemplate>) -> (r: Option<
    MonsterTemplate,
>)
    ensures
        templates@.len() == 0 ==> r is None,
        templates@.len() > 0 ==> r is Some && templates@.contains(r->Some_0),
{
    templates.as_slice().choose(rng).copied()
}

} // verus!
