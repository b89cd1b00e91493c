use vstd::prelude::*;

verus! {

/// Relies on `rand::seq::IteratorRandom::choose` over `0..count` with the
/// thread-local generator: it returns `None` exactly when the range is empty,
/// and otherwise one of its items.
#[verifier::external_body]
pub(crate) fn choose_index(count: usize) -> (r: Option<usize>)
    ensures
        r is Some <==> count > 0,
        r matches Some(i) ==> i < count,
{
    rand::seq::IteratorRandom::choose(0..count, &mut rand::thread_rng())
}

/// Relies on `rand::Rng::gen_ratio` with the thread-local generator: `true`
/// with probability `numerator / denominator`; always `false` for a zero
/// numerator and always `true` when numerator and denominator are equal. It
/// panics on a zero denominator or a numerator above the denominator.
#[verifier::external_body]
pub(crate) fn chance(numerator: u32, denominator: u32) -> (r: bool)
    requires
        0 < denominator,
        numerator <= denominator,
    ensures
        numerator == 0 ==> !r,
        numerator == denominator ==> r,
{
    rand::Rng::gen_ratio(&mut rand::thread_rng(), numerator, denominator)
}

} // verus!
