//! The one place where randomness enters.

use rand::Rng;
use vstd::prelude::*;

verus! {

/// The thread-local generator of the `rand` crate. Nothing is known of
/// its contents.
#[verifier::external_type_specification]
#[verifier::external_body]
pub struct ExThreadRng(rand::rngs::ThreadRng);

/// `rand::thread_rng` hands out the generator of the current thread.
/// Nothing is claimed of it. It fails only where the operating system
/// cannot seed a generator.
pub assume_specification[ rand::thread_rng ]() -> (rng: rand::rngs::ThreadRng);

/// `Rng::gen_range` on the half-open range from `low` to `high`. The
/// range must not be empty, as `gen_range` refuses an empty one; the value
/// that comes back lies in the range. Which value it is depends on the
/// generator, so nothing more is claimed.
#[verifier::external_body]
fn gen_range(rng: &mut rand::rngs::ThreadRng, low: u32, high: u32) -> (value: u32)
    requires
        low < high,
    ensures
        low <= value < high,
{
    rng.gen_range(low..high)
}

/// Draws `count` values, each from the half-open range from `low` to
/// `high`.
pub fn draw_uniform(count: usize, low: u32, high: u32) -> (values: Vec<u32>)
    requires
        low < high,
    ensures
        values@.len() == count,
        forall|i: int| 0 <= i < count ==> low <= #[trigger] values@[i] < high,
{
    let mut rng = rand::thread_rng();
    let mut values: Vec<u32> = Vec::new();
    let mut drawn: usize = 0;
    while drawn < count
        invariant
            low < high,
            drawn <= count,
            values@.len() == drawn,
            forall|i: int| 0 <= i < drawn ==> low <= #[trigger] values@[i] < high,
        decreases count - drawn,
    {
        let value = gen_range(&mut rng, low, high);
        values.push(value);
        drawn += 1;
    }
    values
}

} // verus!
