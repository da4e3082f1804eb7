//! State machine of the MP3 encoder adapter.
//!
//! The compressor itself is an opaque external collaborator; this module
//! verifies everything the pipeline decides around it: the configuration
//! lifecycle (configure, then initialize exactly once, then encode/flush),
//! and the rejection of malformed PCM blocks before they could reach the
//! compressor. The program that owns the real compressor drives it in step
//! with this model: a block is handed to the compressor only when
//! `encode_buffer_interleaved` accepts it here.

use vstd::prelude::*;

verus! {

/// A PCM block is well-formed when its length is a whole number of frames,
/// one frame being one 16-bit sample per channel.
pub open spec fn block_aligned(block: Seq<u8>, channels: u8) -> bool {
    channels > 0 && block.len() % (channels as nat * 2) == 0
}

/// Abstract state of one encoder instance: its configuration, whether it
/// has been initialized, and the blocks accepted since the last flush.
#[verifier::ext_equal]
pub struct LameView {
    pub in_samplerate: u32,
    pub out_samplerate: u32,
    pub num_channels: u8,
    pub quality: u8,
    pub bitrate: u32,
    pub reservoir_disabled: bool,
    pub initialized: bool,
    pub fed: Seq<Seq<u8>>,
}

/// Configuration and feed state of one encoder instance.
///
/// `fed` records, in order, the blocks accepted since the last flush: it is
/// the audio the compressor is still allowed to hold buffered. A flush
/// drains it, so the fragments of one output file never depend on audio fed
/// before that file was opened.
pub struct LameContext {
    in_samplerate: u32,
    out_samplerate: u32,
    num_channels: u8,
    quality: u8,
    bitrate: u32,
    reservoir_disabled: bool,
    initialized: bool,
    fed: Ghost<Seq<Seq<u8>>>,
}

impl View for LameContext {
    type V = LameView;

    closed spec fn view(&self) -> LameView {
        LameView {
            in_samplerate: self.in_samplerate,
            out_samplerate: self.out_samplerate,
            num_channels: self.num_channels,
            quality: self.quality,
            bitrate: self.bitrate,
            reservoir_disabled: self.reservoir_disabled,
            initialized: self.initialized,
            fed: self.fed@,
        }
    }
}

impl LameContext {
    pub open spec fn wf(self) -> bool {
        1 <= self@.num_channels <= 2
    }

    /// A fresh, uninitialized context with the recorder's default settings:
    /// 44100 Hz input, output rate left for the compressor to choose (0),
    /// stereo, quality 2, 128 kbps, reservoir enabled.
    pub fn new() -> (ctx: Self)
        ensures
            ctx@ == (LameView {
                in_samplerate: 44100,
                out_samplerate: 0,
                num_channels: 2,
                quality: 2,
                bitrate: 128,
                reservoir_disabled: false,
                initialized: false,
                fed: Seq::empty(),
            }),
            ctx.wf(),
    {
        LameContext {
            in_samplerate: 44100,
            out_samplerate: 0,
            num_channels: 2,
            quality: 2,
            bitrate: 128,
            reservoir_disabled: false,
            initialized: false,
            fed: Ghost(Seq::empty()),
        }
    }

    pub fn set_in_samplerate(&mut self, rate: u32)
        requires
            !old(self)@.initialized,
            rate > 0,
        ensures
            final(self)@ == (LameView { in_samplerate: rate, ..old(self)@ }),
    {
        self.in_samplerate = rate;
    }

    pub fn set_out_samplerate(&mut self, rate: u32)
        requires
            !old(self)@.initialized,
        ensures
            final(self)@ == (LameView { out_samplerate: rate, ..old(self)@ }),
    {
        self.out_samplerate = rate;
    }

    /// The output sample rate the model settles on: the configured output
    /// rate, or the input rate when the output rate was left at 0. (The real
    /// compressor may choose to resample; this model assumes it does not.)
    pub open spec fn resolved_out_samplerate(self) -> u32 {
        if self@.out_samplerate != 0 {
            self@.out_samplerate
        } else {
            self@.in_samplerate
        }
    }

    pub fn get_out_samplerate(&self) -> (rate: u32)
        ensures
            rate == self.resolved_out_samplerate(),
    {
        if self.out_samplerate != 0 {
            self.out_samplerate
        } else {
            self.in_samplerate
        }
    }

    pub fn set_num_channels(&mut self, channels: u8)
        requires
            !old(self)@.initialized,
            1 <= channels <= 2,
        ensures
            final(self)@ == (LameView { num_channels: channels, ..old(self)@ }),
            final(self).wf(),
    {
        self.num_channels = channels;
    }

    /// Quality runs from 0 (slowest, highest fidelity) to 9.
    pub fn set_quality(&mut self, quality: u8)
        requires
            !old(self)@.initialized,
            quality <= 9,
        ensures
            final(self)@ == (LameView { quality, ..old(self)@ }),
    {
        self.quality = quality;
    }

    /// Bitrate in kbps.
    pub fn set_bitrate(&mut self, bitrate: u32)
        requires
            !old(self)@.initialized,
            bitrate > 0,
        ensures
            final(self)@ == (LameView { bitrate, ..old(self)@ }),
    {
        self.bitrate = bitrate;
    }

    /// Disabling the bit reservoir makes every flushed fragment independent
    /// of cross-fragment state, which the rotating pipeline requires.
    pub fn set_disable_reservoir(&mut self, disable: bool)
        requires
            !old(self)@.initialized,
        ensures
            final(self)@ == (LameView { reservoir_disabled: disable, ..old(self)@ }),
    {
        self.reservoir_disabled = disable;
    }

    /// Finalize the configuration. Must be called exactly once, before any
    /// encode or flush call.
    pub fn init_params(&mut self)
        requires
            !old(self)@.initialized,
        ensures
            final(self)@ == (LameView { initialized: true, ..old(self)@ }),
    {
        self.initialized = true;
    }

    /// Accept one interleaved PCM block, or reject it.
    ///
    /// A block whose length is not a whole number of frames is rejected:
    /// nothing is fed onward and the encoder state is left exactly as it
    /// was, so a malformed block can never corrupt the bitstream. A
    /// well-formed block is appended to the feed since the last flush.
    pub fn encode_buffer_interleaved(&mut self, pcm: &Vec<u8>) -> (accepted: bool)
        requires
            old(self)@.initialized,
            old(self).wf(),
        ensures
            accepted == block_aligned(pcm@, old(self)@.num_channels),
            !accepted ==> final(self)@ == old(self)@,
            accepted ==> final(self)@ == (LameView {
                fed: old(self)@.fed.push(pcm@),
                ..old(self)@
            }),
    {
        let frame_bytes: usize = self.num_channels as usize * 2;
        if pcm.len() % frame_bytes != 0 {
            return false;
        }
        proof {
            self.fed@ = self.fed@.push(pcm@);
        }
        true
    }

    /// Drain all buffered audio into a final fragment, leaving the encoder
    /// with nothing held back: the output written so far becomes
    /// independently decodable, and subsequent encode calls start a fresh
    /// frame sequence.
    pub fn encode_flush_nogap(&mut self)
        requires
            old(self)@.initialized,
        ensures
            final(self)@ == (LameView { fed: Seq::empty(), ..old(self)@ }),
    {
        proof {
            self.fed@ = Seq::empty();
        }
    }
}

} // verus!
