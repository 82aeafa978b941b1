use crate::particle::{size_of_index, speed_of, Drop, DropSize};
use rand::rngs::ThreadRng;
use rand::Rng;
use vstd::prelude::*;

verus! {

#[verifier::external_type_specification]
#[verifier::external_body]
pub struct ExThreadRng(ThreadRng);

/// Relies on rand's `Rng::gen_range` over `min..max`: a value in `[min, max)`.
/// It panics on an empty range, which `requires` leaves out.
#[verifier::external_body]
pub(crate) fn generate_random_number(min: u16, max: u16, rng: &mut ThreadRng) -> (r: u16)
    requires
        min < max,
    ensures
        min <= r < max,
{
    rng.gen_range(min..max)
}

/// A size class drawn with equal weight from the three.
pub fn generate_drop_size(rng: &mut ThreadRng) -> (r: DropSize)
    ensures
        exists|v: u16| v < 3 && size_of_index(v) == Some(r),
{
    let value = generate_random_number(0, 3, rng);
    match DropSize::from_index(value) {
        Some(size) => {
            assert(value < 3 && size_of_index(value) == Some(size));
            size
        },
        None => {
            // Every value below 3 names a size class: this arm is never taken.
            proof {
                assert(size_of_index(value) is Some);
            }
            DropSize::Small
        },
    }
}

/// A coin flip for one missing slot: an integer drawn from `[1, 10]`.
pub fn generate_gate(rng: &mut ThreadRng) -> (r: u16)
    ensures
        1 <= r <= 10,
{
    generate_random_number(1, 11, rng)
}

impl Drop {
    /// A new drop of random size at a random column in `[0, cols)`, at the top.
    pub fn new(cols: u16, rng: &mut ThreadRng) -> (r: Drop)
        requires
            cols >= 1,
        ensures
            r@.row == 0,
            r@.column < cols,
            r@.speed == speed_of(r@.size),
    {
        let size = generate_drop_size(rng);
        let column = generate_random_number(0, cols, rng);
        Drop::spawn(size, column)
    }
}

} // verus!
