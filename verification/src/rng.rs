use vstd::prelude::*;
use tinyrand::Rand;

verus! {

/// The generator type of `tinyrand` that the machine draws random bytes from
/// (`tinyrand::StdRand` names this type).
#[verifier::external_type_specification]
#[verifier::external_body]
pub struct ExWyrand(tinyrand::Wyrand);

/// Calls `tinyrand::Wyrand::default()`, a generator seeded with zero. Nothing is
/// claimed of the generator: its state is opaque here.
#[verifier::external_body]
pub(crate) fn new_generator() -> tinyrand::Wyrand {
    tinyrand::Wyrand::default()
}

/// Calls `tinyrand::Rand::next_u64` on the generator. Its state is opaque here, so no
/// clause constrains the result: every `u64` is possible. The call always changes the
/// state, which it advances by a non-zero constant modulo 2^64.
#[verifier::external_body]
pub(crate) fn next_random_u64(generator: &mut tinyrand::Wyrand) -> (draw: u64)
    ensures
        *final(generator) != *old(generator),
{
    generator.next_u64()
}

} // verus!
