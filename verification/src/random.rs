use vstd::prelude::*;
use rand::seq::IndexedRandom;
use rand::Rng;

verus! {

/// A rate of this value, or above it, stands for certainty; a rate of zero for
/// never. A rate `r` below it stands for the probability `r / PROBABILITY_SCALE`.
pub const PROBABILITY_SCALE: u32 = 0x100_0000;

/// Calls `rand::Rng::random::<u32>` on the thread's generator. Nothing is
/// claimed of the number that comes back.
#[verifier::external_body]
fn random_bits() -> (bits: u32) {
    rand::rng().random::<u32>()
}

/// Calls `rand::Rng::random_range` on the thread's generator with the range
/// `0..bound`. The range must not be empty; the number lies in it.
#[verifier::external_body]
pub(crate) fn random_coordinate(bound: i32) -> (c: i32)
    requires
        bound > 0,
    ensures
        0 <= c < bound,
{
    rand::rng().random_range(0..bound)
}

/// Calls `rand::seq::IndexedRandom::choose` on `sites` with the thread's
/// generator: one of the sites, or nothing when there are none.
#[verifier::external_body]
pub(crate) fn choose_site(sites: &Vec<usize>) -> (chosen: Option<usize>)
    ensures
        chosen is None <==> sites@.len() == 0,
        chosen matches Some(site) ==> sites@.contains(site),
{
    sites.choose(&mut rand::rng()).copied()
}

/// A number below `PROBABILITY_SCALE`, each as likely as any other: the top
/// 24 bits of 32 random ones. An event of rate `r` happens when the draw is
/// below `r`.
pub(crate) fn unit_draw() -> (draw: u32)
    ensures
        draw < PROBABILITY_SCALE,
        exists|bits: u32| draw == #[trigger] top_bits(bits),
{
    let bits: u32 = random_bits();
    draw_from(bits)
}

/// The top 24 bits of `bits`.
pub open spec fn top_bits(bits: u32) -> u32 {
    bits >> 8u32
}

/// The draw that 32 random bits stand for: their top 24 bits, a number below
/// `PROBABILITY_SCALE`. Bits that differ only in the low eight give one draw,
/// so that each draw is as likely as any other.
pub fn draw_from(bits: u32) -> (draw: u32)
    ensures
        draw == top_bits(bits),
        draw == bits / 256,
        draw < PROBABILITY_SCALE,
{
    let draw: u32 = bits >> 8;
    assert(draw < 0x100_0000u32 && draw == bits / 256u32) by (bit_vector)
        requires
            draw == bits >> 8u32,
    ;
    draw
}

} // verus!
