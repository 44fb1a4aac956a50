//! Audio engine configuration and the buffer-size arithmetic of the
//! playback path. The device worker itself (threads, channels, sample
//! I/O) lives outside the verified core and consumes these values.

use vstd::prelude::*;

verus! {

/// Stream format of the modem's audio path.
#[derive(Debug, Clone, Copy)]
pub struct ModemAudioConfig {
    pub sample_rate: u32,
    pub bits_per_sample: u16,
    pub channels: u16,
    pub buffer_duration_ms: u32,
}

impl Default for ModemAudioConfig {
    /// 8 kHz, 16-bit, mono, 20 ms buffers.
    fn default() -> (c: Self)
        ensures
            c.sample_rate == 8000,
            c.bits_per_sample == 16,
            c.channels == 1,
            c.buffer_duration_ms == 20,
    {
        ModemAudioConfig { sample_rate: 8000, bits_per_sample: 16, channels: 1, buffer_duration_ms: 20 }
    }
}

/// Frames in one nominal buffer: sample rate times buffer duration.
pub open spec fn spec_frames_per_buffer(c: ModemAudioConfig) -> int {
    (c.sample_rate * c.buffer_duration_ms) as int / 1000
}

/// Bounds under which the buffer arithmetic cannot overflow: at most
/// 1 MHz sample rate, hour-long buffers and 64 channels.
pub open spec fn config_in_range(c: ModemAudioConfig) -> bool {
    c.sample_rate <= 1000000 && c.buffer_duration_ms <= 3600000 && c.channels <= 64
}

impl ModemAudioConfig {
    /// Frames in one nominal buffer period.
    pub fn frames_per_buffer(&self) -> (r: u64)
        requires
            config_in_range(*self),
        ensures
            r == spec_frames_per_buffer(*self),
            r <= 3_600_000_000_000,
    {
        proof {
            assert((self.sample_rate * self.buffer_duration_ms) as int <= 3_600_000_000_000int)
                by (nonlinear_arith)
                requires
                    self.sample_rate <= 1000000,
                    self.buffer_duration_ms <= 3600000,
            ;
        }
        (self.sample_rate as u64) * (self.buffer_duration_ms as u64) / 1000
    }

    /// Samples in one capture block: one buffer of frames on every
    /// channel, at least one.
    pub fn capture_samples(&self) -> (r: u64)
        requires
            config_in_range(*self),
        ensures
            r == if spec_frames_per_buffer(*self) * c_channels(*self) >= 1 {
                spec_frames_per_buffer(*self) * c_channels(*self)
            } else {
                1
            },
    {
        let frames = self.frames_per_buffer();
        proof {
            assert(frames * (self.channels as u64) <= 230_400_000_000_000) by (nonlinear_arith)
                requires
                    0 <= frames <= 3_600_000_000_000,
                    0 <= self.channels <= 64,
            ;
        }
        let n = frames * (self.channels as u64);
        if n >= 1 {
            n
        } else {
            1
        }
    }

    /// Capacity of the playback sample ring: four buffers of frames on
    /// every channel, at least one slot.
    pub fn playback_ring_capacity(&self) -> (r: u64)
        requires
            config_in_range(*self),
        ensures
            r == if spec_frames_per_buffer(*self) * c_channels(*self) * 4 >= 1 {
                spec_frames_per_buffer(*self) * c_channels(*self) * 4
            } else {
                1
            },
    {
        let frames = self.frames_per_buffer();
        proof {
            assert(frames * (self.channels as u64) <= 230_400_000_000_000) by (nonlinear_arith)
                requires
                    0 <= frames <= 3_600_000_000_000,
                    0 <= self.channels <= 64,
            ;
        }
        let n = frames * (self.channels as u64) * 4;
        if n >= 1 {
            n
        } else {
            1
        }
    }
}

/// Channel count as a plain integer.
pub open spec fn c_channels(c: ModemAudioConfig) -> int {
    c.channels as int
}

} // verus!
