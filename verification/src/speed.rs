//! # Speed
//!
//! Simulation speed runtime controls.
//!
//! The simulation speed is controlled by adjusting the number of frames that are skipped
//! between draw calls. [`Speed`] tracks that number and keeps it within bounds.
//! Skipping more frames leads to fewer draw calls, so more of the simulation is processed
//! in the same time.
use vstd::prelude::*;

verus! {

/// Maximum number of frames to skip before forcing a draw.
pub const MAX: u8 = 10;
/// Minimum number of frames to skip before forcing a draw.
pub const MIN: u8 = 0;
/// Default: the average of [`MAX`] and [`MIN`].
pub const DEFAULT: u8 = 5;

/// The frame count after an increment request, and whether it changed.
pub open spec fn spec_inc(f: u8) -> (u8, bool) {
    if f < MAX {
        ((f + 1) as u8, true)
    } else {
        (f, false)
    }
}

/// The frame count after a decrement request, and whether it changed.
pub open spec fn spec_dec(f: u8) -> (u8, bool) {
    if f > MIN {
        ((f - 1) as u8, true)
    } else {
        (f, false)
    }
}

/// Tracks the number of frames to skip between draw calls,
/// giving the effect of simulation speed manipulation.
#[derive(Debug, Clone, Copy)]
pub struct Speed(u8);

impl Speed {
    #[verifier::type_invariant]
    spec fn inv(&self) -> bool {
        MIN <= self.0 <= MAX
    }

    /// The number of frames to skip.
    pub closed spec fn frames(&self) -> u8 {
        self.0
    }

    /// Returns the number of frames to skip between two render calls.
    pub fn frames_to_skip(&self) -> (r: u8)
        ensures
            r == self.frames(),
            MIN <= r <= MAX,
    {
        proof {
            use_type_invariant(self);
        }
        self.0
    }

    /// Tries to increment the internal counter, respecting the predefined limits.
    ///
    /// Returns `false` if the counter was not incremented.
    pub fn inc(&mut self) -> (r: bool)
        ensures
            (final(self).frames(), r) == spec_inc(old(self).frames()),
    {
        proof {
            use_type_invariant(&*self);
        }
        if self.0 < MAX {
            self.0 = self.0 + 1;
            true
        } else {
            false
        }
    }

    /// Tries to decrement the internal counter, respecting the predefined limits.
    ///
    /// Returns `false` if the counter was not decremented.
    pub fn dec(&mut self) -> (r: bool)
        ensures
            (final(self).frames(), r) == spec_dec(old(self).frames()),
    {
        proof {
            use_type_invariant(&*self);
        }
        if self.0 > MIN {
            self.0 = self.0 - 1;
            true
        } else {
            false
        }
    }

    /// Text shown for the speed: `Max`, `Min`, `Default`, or the signed difference from
    /// the default.
    pub fn label(&self) -> (r: &'static str)
        ensures
            self.frames() == MAX ==> r@ == "Max"@,
            self.frames() == MIN ==> r@ == "Min"@,
            self.frames() == DEFAULT ==> r@ == "Default"@,
            self.frames() == 1 ==> r@ == "-4"@,
            self.frames() == 2 ==> r@ == "-3"@,
            self.frames() == 3 ==> r@ == "-2"@,
            self.frames() == 4 ==> r@ == "-1"@,
            self.frames() == 6 ==> r@ == "+1"@,
            self.frames() == 7 ==> r@ == "+2"@,
            self.frames() == 8 ==> r@ == "+3"@,
            self.frames() == 9 ==> r@ == "+4"@,
    {
        proof {
            use_type_invariant(self);
        }
        match self.0 {
            10 => "Max",
            0 => "Min",
            5 => "Default",
            1 => "-4",
            2 => "-3",
            3 => "-2",
            4 => "-1",
            6 => "+1",
            7 => "+2",
            8 => "+3",
            _ => "+4",
        }
    }
}

impl Default for Speed {
    fn default() -> (r: Self)
        ensures
            r.frames() == DEFAULT,
    {
        Speed(DEFAULT)
    }
}

/// A successful increment is undone by a decrement, and a successful decrement by an
/// increment.
pub proof fn lemma_inc_dec_inverse(f: u8)
    requires
        MIN <= f <= MAX,
    ensures
        spec_inc(f).1 ==> spec_dec(spec_inc(f).0) == (f, true),
        spec_dec(f).1 ==> spec_inc(spec_dec(f).0) == (f, true),
{
}

/// Increments and decrements never leave the bounds.
pub proof fn lemma_steps_stay_in_bounds(f: u8)
    requires
        MIN <= f <= MAX,
    ensures
        MIN <= spec_inc(f).0 <= MAX,
        MIN <= spec_dec(f).0 <= MAX,
{
}

/// The speed that skips `f` frames.
pub closed spec fn speed_of(f: u8) -> Speed {
    Speed(f)
}

/// [`speed_of`] builds the speed with the given frame count, and a speed is determined by
/// its frame count.
pub proof fn lemma_speed_of(f: u8, a: Speed, b: Speed)
    ensures
        speed_of(f).frames() == f,
        a.frames() == b.frames() ==> a == b,
{
}

} // verus!
