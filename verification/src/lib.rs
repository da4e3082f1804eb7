//! Verified core of a long-running audio recorder that captures raw PCM,
//! compresses it, and writes the compressed stream to output files rotated
//! at time boundaries.
//!
//! The modules here hold the logic of the capture-encode-rotate pipeline:
//! the rotation deadline arithmetic, the encoder adapter's state machine,
//! the FIFO channel between the capture side and the consumer side, the
//! supervisor loop's per-iteration decisions, and output file naming.
//! Device access and the compressor itself are performed by the surrounding
//! program, which drives these verified state machines.

pub mod clock;
pub mod config;
pub mod lame;
pub mod queue;
pub mod naming;
pub mod supervisor;
