//! Pink (1/f) noise octave schedule.
//!
//! Neural systems show 1/f spectra. The Voss-McCartney generator keeps one
//! random value per octave and, at each step, redraws the octaves whose
//! period has come round: octave `i` every `2^i` steps. Which octaves are
//! redrawn is told by the bits that change when the step counter advances.
use vstd::prelude::*;

verus! {

/// The bits that differ between step `c` and the step before it (with the
/// counter wrapping from `u32::MAX` to 0).
pub open spec fn refresh_mask(c: u32) -> u32 {
    if c == 0 {
        0xffff_ffffu32
    } else {
        c ^ ((c - 1) as u32)
    }
}

/// The step counter of a pink noise generator
#[derive(Debug, Clone, Copy, PartialEq, Eq, Structural)]
pub struct OctaveSchedule {
    /// Steps taken so far (wrapping)
    pub counter: u32,
}

impl OctaveSchedule {
    /// No step taken yet
    pub fn new() -> (s: Self)
        ensures
            s.counter == 0,
    {
        OctaveSchedule { counter: 0 }
    }

    /// Take one step; the result has bit `i` set when octave `i` is to be
    /// redrawn at this step
    pub fn advance(&mut self) -> (mask: u32)
        ensures
            final(self).counter == (if old(self).counter == u32::MAX {
                0
            } else {
                old(self).counter + 1
            }),
            mask == refresh_mask(final(self).counter),
    {
        self.counter = self.counter.wrapping_add(1);
        let c = self.counter;
        let mask = c ^ c.wrapping_sub(1);
        proof {
            if c == 0 {
                assert(0u32 ^ 0xffff_ffffu32 == 0xffff_ffffu32) by (bit_vector);
            }
        }
        mask
    }
}

/// Octave `i` is redrawn exactly at the steps whose count is a multiple of
/// `2^i` (the lowest `i` bits of the counter are zero).
pub proof fn lemma_octave_period(c: u32, i: u32)
    requires
        i < 32,
    ensures
        (refresh_mask(c) & (1u32 << i) != 0) <==> (c & (((1u32 << i) - 1) as u32) == 0),
{
    if c == 0 {
        assert((0xffff_ffffu32 & (1u32 << i) != 0) && (0u32 & (((1u32 << i) - 1) as u32) == 0))
            by (bit_vector)
            requires
                i < 32,
        ;
    } else {
        let p = (c - 1) as u32;
        assert((c ^ p) & (1u32 << i) != 0 <==> (c & (((1u32 << i) - 1) as u32) == 0)) by (bit_vector)
            requires
                i < 32,
                c != 0,
                p == c - 1,
        ;
    }
}

} // verus!
