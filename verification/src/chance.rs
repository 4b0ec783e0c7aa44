//! Numbers drawn by chance.

use vstd::prelude::*;
use rand::Rng;
use rand::rngs::ThreadRng;

verus! {

/// `rand::rngs::ThreadRng`, the generator that each thread keeps for itself. Nothing is
/// said of what is inside it.
#[verifier::external_type_specification]
#[verifier::external_body]
pub struct ExThreadRng(ThreadRng);

/// `rand::thread_rng` hands out the calling thread's generator, which the system seeds when
/// the thread first asks for it. Nothing is claimed of the generator.
pub assume_specification[ rand::thread_rng ]() -> (rng: ThreadRng);

/// `Rng::gen_range` on a half-open range of `i32`: the range must not be empty, and the
/// number drawn lies in it. Which number it is, is left open.
#[verifier::external_body]
fn gen_range(rng: &mut ThreadRng, low: i32, high: i32) -> (drawn: i32)
    requires
        low < high,
    ensures
        low <= drawn < high,
{
    rng.gen_range(low..high)
}

/// A number from 1 to 100, drawn afresh at each call.
pub fn random_num() -> (drawn: i32)
    ensures
        1 <= drawn <= 100,
{
    let mut rng = rand::thread_rng();
    gen_range(&mut rng, 1, 101)
}

} // verus!
