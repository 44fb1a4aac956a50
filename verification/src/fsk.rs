//! Bell 103 / V.21 FSK mode tables: mark and space tone frequencies
//! and the derived rates, all in integer hertz.

use vstd::prelude::*;

verus! {

/// FSK operating mode; each fixes a (space, mark) tone pair.
#[derive(Debug, Clone, Copy)]
pub enum FSKMode {
    Bell103Originate,
    Bell103Answer,
    V21Originate,
    V21Answer,
}

/// The (space, mark) tone pair of a mode, in hertz.
pub open spec fn spec_frequencies(m: FSKMode) -> (u32, u32) {
    match m {
        FSKMode::Bell103Originate => (1070u32, 1270u32),
        FSKMode::Bell103Answer => (2025u32, 2225u32),
        FSKMode::V21Originate => (1180u32, 980u32),
        FSKMode::V21Answer => (1850u32, 1650u32),
    }
}

impl FSKMode {
    /// (space, mark) tone pair in hertz.
    pub fn frequencies(&self) -> (r: (u32, u32))
        ensures
            r == spec_frequencies(*self),
    {
        match self {
            FSKMode::Bell103Originate => (1070, 1270),
            FSKMode::Bell103Answer => (2025, 2225),
            FSKMode::V21Originate => (1180, 980),
            FSKMode::V21Answer => (1850, 1650),
        }
    }

    /// Tone for a 0 bit, in hertz.
    pub fn space_freq(&self) -> (r: u32)
        ensures
            r == spec_frequencies(*self).0,
    {
        self.frequencies().0
    }

    /// Tone for a 1 bit, in hertz.
    pub fn mark_freq(&self) -> (r: u32)
        ensures
            r == spec_frequencies(*self).1,
    {
        self.frequencies().1
    }

    /// Midpoint of the two tones, in hertz (exact: every pair has an
    /// even sum).
    pub fn center_freq(&self) -> (r: u32)
        ensures
            r == (spec_frequencies(*self).0 + spec_frequencies(*self).1) / 2,
    {
        let (space, mark) = self.frequencies();
        (space + mark) / 2
    }

    /// Width of the band both tones fall in: twice the tone separation,
    /// in hertz.
    pub fn bandwidth(&self) -> (r: u32)
        ensures
            r == 2 * (if spec_frequencies(*self).1 >= spec_frequencies(*self).0 {
                spec_frequencies(*self).1 - spec_frequencies(*self).0
            } else {
                spec_frequencies(*self).0 - spec_frequencies(*self).1
            }),
    {
        let (space, mark) = self.frequencies();
        if mark >= space {
            2 * (mark - space)
        } else {
            2 * (space - mark)
        }
    }
}

/// Samples per bit period at the given rates (integer part, as the
/// modulator and the detector block size use it).
pub fn samples_per_bit(sample_rate_hz: u32, baud: u32) -> (r: u32)
    requires
        baud >= 1,
    ensures
        r == sample_rate_hz / baud,
{
    sample_rate_hz / baud
}

} // verus!
