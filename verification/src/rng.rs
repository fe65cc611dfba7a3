use vstd::prelude::*;
use rand::Rng;

verus! {

#[verifier::external_type_specification]
#[verifier::external_body]
pub struct ExThreadRng(rand::rngs::ThreadRng);

/// An ASCII letter or digit: `A`-`Z`, `a`-`z` or `0`-`9`.
pub open spec fn is_alphanumeric(c: char) -> bool {
    ||| ('A' as int) <= (c as int) <= ('Z' as int)
    ||| ('a' as int) <= (c as int) <= ('z' as int)
    ||| ('0' as int) <= (c as int) <= ('9' as int)
}

/// Calls `rand::thread_rng`, the generator local to the calling thread.
/// Nothing is claimed of it: it is handed on to `sample_alphanumeric`.
#[verifier::external_body]
pub(crate) fn thread_rng() -> rand::rngs::ThreadRng {
    rand::thread_rng()
}

/// Calls `Rng::sample` with `rand::distributions::Alphanumeric`, which draws a
/// `char` uniformly from `A`-`Z`, `a`-`z` and `0`-`9`. Claimed: the result is
/// one of those; which one is chance.
#[verifier::external_body]
pub(crate) fn sample_alphanumeric(rng: &mut rand::rngs::ThreadRng) -> (c: char)
    ensures
        is_alphanumeric(c),
{
    rng.sample(rand::distributions::Alphanumeric)
}

} // verus!
