//! A small deterministic pseudo-random number generator.
//!
//! The dungeon generator and the spawning helpers draw uniform ranges and
//! dice rolls from this xorshift generator. Seeding is the caller's
//! business (a fixed seed gives reproducible dungeons; the surrounding
//! program may seed from the clock).

use vstd::prelude::*;

verus! {

/// One step of the 64-bit xorshift recurrence.
pub open spec fn xorshift_step(s: u64) -> u64 {
    let a = s ^ (s << 13);
    let b = a ^ (a >> 7);
    b ^ (b << 17)
}

/// A 64-bit xorshift pseudo-random number generator.
pub struct Rng {
    pub state: u64,
}

impl Rng {
    /// Create a generator from a seed. A zero seed is replaced by a fixed
    /// non-zero constant so the xorshift state never collapses.
    pub fn new(seed: u64) -> (r: Rng)
        ensures
            r.state == if seed == 0 {
                0x9e3779b97f4a7c15u64
            } else {
                seed
            },
    {
        if seed == 0 {
            Rng { state: 0x9e3779b97f4a7c15 }
        } else {
            Rng { state: seed }
        }
    }

    /// Advance the generator and return the next raw 64-bit value.
    pub fn next_u64(&mut self) -> (r: u64)
        ensures
            r == xorshift_step(old(self).state),
            final(self).state == r,
    {
        let mut s = self.state;
        s = s ^ (s << 13);
        s = s ^ (s >> 7);
        s = s ^ (s << 17);
        self.state = s;
        s
    }

    /// A value in `min..max`: inclusive of `min`, exclusive of `max`.
    pub fn range(&mut self, min: i32, max: i32) -> (r: i32)
        requires
            min < max,
        ensures
            min <= r < max,
            r == min + xorshift_step(old(self).state) as int % (max - min),
            final(self).state == xorshift_step(old(self).state),
    {
        let span = (max as i64) - (min as i64);
        let v = self.next_u64() % (span as u64);
        ((min as i64) + (v as i64)) as i32
    }

    /// Roll `n` dice with `die_type` sides each and sum them, as in the
    /// classic `3d6` notation: the result lies in `n..=n*die_type`.
    pub fn roll_dice(&mut self, n: i32, die_type: i32) -> (r: i32)
        requires
            1 <= n,
            1 <= die_type < i32::MAX,
            n * die_type <= i32::MAX,
        ensures
            n <= r <= n * die_type,
    {
        let mut sum: i32 = 0;
        let mut i: i32 = 0;
        while i < n
            invariant
                0 <= i <= n,
                i <= sum <= i * die_type,
                1 <= die_type < i32::MAX,
                n * die_type <= i32::MAX,
            decreases n - i,
        {
            proof {
                assert((i + 1) * die_type == i * die_type + die_type) by (nonlinear_arith);
                assert((i + 1) * die_type <= n * die_type) by (nonlinear_arith)
                    requires
                        i < n,
                        1 <= die_type,
                ;
            }
            let roll = self.range(1, die_type + 1);
            sum = sum + roll;
            i = i + 1;
        }
        sum
    }
}

} // verus!
