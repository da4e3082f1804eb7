//! Startup configuration of the recorder, with the documented defaults:
//! split every 60 minutes, unaligned, quality 2, 128 kbps, stereo.

use vstd::prelude::*;

verus! {

/// The numeric startup surface of the recorder. Candidate device paths and
/// sample rates are handled by the program around the pipeline; this holds
/// what the pipeline itself consumes.
pub struct RecorderConfig {
    /// Minutes between file splits.
    pub split_minutes: u64,
    /// Pin splits to the epoch grid instead of the start time.
    pub aligned: bool,
    /// Encoder quality, 0 (best, slowest) to 9.
    pub quality: u8,
    /// Encoder bitrate in kbps.
    pub bitrate_kbps: u32,
    /// Channel count; this recorder captures stereo.
    pub channels: u8,
}

impl RecorderConfig {
    pub open spec fn valid(self) -> bool {
        &&& self.split_minutes > 0
        &&& self.quality <= 9
        &&& self.bitrate_kbps > 0
        &&& 1 <= self.channels <= 2
    }

    pub fn is_valid(&self) -> (ok: bool)
        ensures
            ok == self.valid(),
    {
        self.split_minutes > 0 && self.quality <= 9 && self.bitrate_kbps > 0 && 1 <= self.channels
            && self.channels <= 2
    }

    /// The split interval in seconds.
    pub fn split_seconds(&self) -> (seconds: u64)
        requires
            self.split_minutes <= u64::MAX / 60,
        ensures
            seconds == self.split_minutes * 60,
    {
        self.split_minutes * 60
    }
}

impl Default for RecorderConfig {
    /// The documented defaults: hourly splits, unaligned, quality 2,
    /// 128 kbps, stereo.
    fn default() -> (config: Self)
        ensures
            config == (RecorderConfig {
                split_minutes: 60,
                aligned: false,
                quality: 2,
                bitrate_kbps: 128,
                channels: 2,
            }),
            config.valid(),
    {
        RecorderConfig {
            split_minutes: 60,
            aligned: false,
            quality: 2,
            bitrate_kbps: 128,
            channels: 2,
        }
    }
}

} // verus!
