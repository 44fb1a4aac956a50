//! Core logic of a Hayes-style software modem: the V.22bis scrambler,
//! the AT command parser, the modem supervisor state machine, the
//! sample ring buffer, and the integer-valued parts of the DSP chain
//! (constellation maps, bit packing, rate tables).

use vstd::prelude::*;

pub mod at_commands;
pub mod audio;
pub mod bits;
pub mod dtmf;
pub mod fsk;
pub mod modem;
pub mod qam;
pub mod ringbuffer;
pub mod scrambler;
pub mod text;

verus! {

/// Standard telephone-line sample rate, in hertz.
pub const SAMPLE_RATE_HZ: u32 = 8000;

} // verus!
