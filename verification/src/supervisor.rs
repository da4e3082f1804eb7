//! The pipeline supervisor: the sequential loop that, once per received
//! event, decides whether to rotate the output file, feeds the encoder, and
//! records what belongs to which file.
//!
//! The supervisor owns the rotation clock, the encoder adapter, and a log
//! of the session's files. Each file log lists the blocks encoded into that
//! file; a closed file additionally carries the flush that finalized it.
//! The surrounding program performs one I/O action for each effect the
//! `step` function records: it writes the compressor's fragments to the
//! file the log says they belong to, and closes and opens files exactly
//! when the log does.

use vstd::prelude::*;
use crate::clock::RotationClock;
use crate::lame::{block_aligned, LameContext, LameView};

verus! {

/// One output file: when it was opened, the blocks encoded into it in
/// order, and whether the final flush has been written to it. A file is
/// closed by flushing it, and never touched again.
pub struct FileLog {
    pub opened_at: u64,
    pub blocks: Vec<Vec<u8>>,
    pub flushed: bool,
}

/// Abstract state of one output file.
#[verifier::ext_equal]
pub struct FileLogView {
    pub opened_at: u64,
    pub blocks: Seq<Seq<u8>>,
    pub flushed: bool,
}

impl View for FileLog {
    type V = FileLogView;

    open spec fn view(&self) -> FileLogView {
        FileLogView {
            opened_at: self.opened_at,
            blocks: self.blocks@.map_values(|block: Vec<u8>| block@),
            flushed: self.flushed,
        }
    }
}

/// What the consumer loop sees once per iteration: the next PCM block, or
/// the news that the capture side has terminated and closed the channel.
pub enum Event {
    Block(Vec<u8>),
    Closed,
}

impl View for Event {
    type V = Option<Seq<u8>>;

    open spec fn view(&self) -> Option<Seq<u8>> {
        match self {
            Event::Block(pcm) => Some(pcm@),
            Event::Closed => None,
        }
    }
}

/// What one step did, so the surrounding program can mirror it with real
/// I/O: whether the old file was flushed and closed and a new one opened,
/// whether the block was accepted and encoded, and whether the session
/// ended.
pub struct StepResult {
    pub rotated: bool,
    pub accepted: bool,
    pub ended: bool,
}

/// Abstract state of the whole pipeline.
#[verifier::ext_equal]
pub struct SupervisorView {
    pub interval: u64,
    pub deadline: u64,
    pub aligned: bool,
    pub closed: Seq<FileLogView>,
    pub active: FileLogView,
    pub running: bool,
    pub encoder: LameView,
}

impl SupervisorView {
    /// The pipeline invariant: a positive interval; a usable, initialized
    /// encoder whose bit reservoir is disabled (so every file's final flush
    /// makes it independently decodable); every closed file finalized by
    /// its flush; the active file still open.
    pub open spec fn wf(self) -> bool {
        &&& self.interval > 0
        &&& 1 <= self.encoder.num_channels <= 2
        &&& self.encoder.initialized
        &&& self.encoder.reservoir_disabled
        &&& forall|i: int|
            0 <= i < self.closed.len() ==> (#[trigger] self.closed[i]).flushed
        &&& !self.active.flushed
    }
}

/// The rotation step: the encoder is flushed (its buffered audio drained
/// into the old file), the old file is closed, a new file named after the
/// rotation moment is opened, and the deadline moves forward by exactly one
/// interval.
pub open spec fn rotate_spec(v: SupervisorView, now: u64) -> SupervisorView {
    SupervisorView {
        deadline: (v.deadline + v.interval) as u64,
        closed: v.closed.push(FileLogView { flushed: true, ..v.active }),
        active: FileLogView { opened_at: now, blocks: Seq::empty(), flushed: false },
        encoder: LameView { fed: Seq::empty(), ..v.encoder },
        ..v
    }
}

/// One iteration of the consumer loop: first the rotation check against
/// `now`, then the event. A closed channel ends the session; a well-formed
/// block is encoded into the file that is active after the rotation check;
/// a malformed block is rejected and changes nothing.
pub open spec fn step_spec(v: SupervisorView, now: u64, event: Option<Seq<u8>>) -> SupervisorView {
    let rotated = if now >= v.deadline {
        rotate_spec(v, now)
    } else {
        v
    };
    match event {
        None => SupervisorView { running: false, ..rotated },
        Some(block) => if block_aligned(block, rotated.encoder.num_channels) {
            SupervisorView {
                active: FileLogView {
                    blocks: rotated.active.blocks.push(block),
                    ..rotated.active
                },
                encoder: LameView { fed: rotated.encoder.fed.push(block), ..rotated.encoder },
                ..rotated
            }
        } else {
            rotated
        },
    }
}

/// The consumer side of the pipeline: rotation clock, encoder adapter, and
/// the session's file logs. Exactly one file is active at any time.
pub struct Supervisor {
    clock: RotationClock,
    encoder: LameContext,
    closed: Vec<FileLog>,
    active: FileLog,
    running: bool,
}

impl View for Supervisor {
    type V = SupervisorView;

    closed spec fn view(&self) -> SupervisorView {
        SupervisorView {
            interval: self.clock.interval(),
            deadline: self.clock.deadline(),
            aligned: self.clock.aligned(),
            closed: self.closed@.map_values(|file: FileLog| file@),
            active: self.active@,
            running: self.running,
            encoder: self.encoder@,
        }
    }
}

impl Supervisor {
    /// Start a session at time `start` with a configured encoder. The first
    /// file is opened at the start time; with alignment on, the initial
    /// deadline has already passed, so the very first step rotates it away
    /// and the following boundaries land on the epoch grid.
    pub fn new(interval: u64, aligned: bool, start: u64, encoder: LameContext) -> (sup: Self)
        requires
            interval > 0,
            start + interval <= u64::MAX,
            encoder.wf(),
            encoder@.initialized,
            encoder@.reservoir_disabled,
            encoder@.fed == Seq::<Seq<u8>>::empty(),
        ensures
            sup@.wf(),
            sup@.running,
            sup@.interval == interval,
            sup@.aligned == aligned,
            aligned ==> sup@.deadline == start - start % interval,
            !aligned ==> sup@.deadline == start + interval,
            aligned ==> sup@.deadline % interval == 0,
            sup@.closed == Seq::<FileLogView>::empty(),
            sup@.active == (FileLogView {
                opened_at: start,
                blocks: Seq::empty(),
                flushed: false,
            }),
            sup@.encoder == encoder@,
    {
        let sup = Supervisor {
            clock: RotationClock::new(interval, aligned, start),
            encoder,
            closed: Vec::new(),
            active: FileLog { opened_at: start, blocks: Vec::new(), flushed: false },
            running: true,
        };
        proof {
            assert(sup@.closed =~= Seq::<FileLogView>::empty());
            assert(sup@.active.blocks =~= Seq::<Seq<u8>>::empty());
            assert(sup@.active =~= (FileLogView {
                opened_at: start,
                blocks: Seq::empty(),
                flushed: false,
            }));
        }
        sup
    }

    /// One iteration of the consumer loop, exactly as `step_spec` states
    /// it: rotation check first, then the event.
    pub fn step(&mut self, now: u64, event: Event) -> (outcome: StepResult)
        requires
            old(self)@.wf(),
            old(self)@.running,
            old(self)@.deadline + old(self)@.interval <= u64::MAX,
        ensures
            final(self)@ == step_spec(old(self)@, now, event@),
            final(self)@.wf(),
            outcome.rotated == (now >= old(self)@.deadline),
            outcome.ended == (event@ is None),
            outcome.accepted == (event@ matches Some(block)
                && block_aligned(block, old(self)@.encoder.num_channels)),
    {
        let ghost pre = self@;
        let mut rotated = false;
        if self.clock.should_rotate(now) {
            // Flush the encoder so its buffered audio belongs to the old
            // file, finalize and close that file, open the next one, and
            // keep the deadline on its fixed-phase grid.
            self.encoder.encode_flush_nogap();
            self.active.flushed = true;
            let mut finished = FileLog { opened_at: now, blocks: Vec::new(), flushed: false };
            core::mem::swap(&mut self.active, &mut finished);
            self.closed.push(finished);
            self.clock.advance();
            rotated = true;
        }
        let ghost mid = self@;
        proof {
            if now >= pre.deadline {
                assert(mid.closed =~= rotate_spec(pre, now).closed);
                assert(mid.active.blocks =~= Seq::<Seq<u8>>::empty());
                assert(mid =~~= rotate_spec(pre, now));
            } else {
                assert(mid =~~= pre);
            }
        }
        let mut accepted = false;
        let mut ended = false;
        match event {
            Event::Block(pcm) => {
                if self.encoder.encode_buffer_interleaved(&pcm) {
                    self.active.blocks.push(pcm);
                    accepted = true;
                }
            }
            Event::Closed => {
                self.running = false;
                ended = true;
            }
        }
        proof {
            let post = step_spec(pre, now, event@);
            match event@ {
                Some(block) => {
                    if block_aligned(block, mid.encoder.num_channels) {
                        assert(self@.active.blocks =~= mid.active.blocks.push(block));
                        assert(self@.closed =~= mid.closed);
                        assert(self@ =~~= post);
                    } else {
                        assert(self@ =~~= post);
                    }
                }
                None => {
                    assert(self@ =~~= post);
                }
            }
            assert forall|i: int| 0 <= i < self@.closed.len() implies
                (#[trigger] self@.closed[i]).flushed by {
                if now >= pre.deadline {
                    assert(self@.closed[i] == rotate_spec(pre, now).closed[i]);
                }
            }
        }
        StepResult { rotated, accepted, ended }
    }

    /// The finished files, oldest first.
    pub fn closed_files(&self) -> (files: &Vec<FileLog>)
        ensures
            files@.len() == self@.closed.len(),
            forall|i: int| 0 <= i < files@.len() ==> (#[trigger] files@[i])@ == self@.closed[i],
    {
        &self.closed
    }

    /// The file currently open.
    pub fn active_file(&self) -> (file: &FileLog)
        ensures
            file@ == self@.active,
    {
        &self.active
    }

    /// False once the capture side has terminated.
    pub fn is_running(&self) -> (running: bool)
        ensures
            running == self@.running,
    {
        self.running
    }

    /// The next rotation deadline.
    pub fn next_deadline(&self) -> (deadline: u64)
        ensures
            deadline == self@.deadline,
    {
        self.clock.current_deadline()
    }

    /// Law: when a block arrives at or past the deadline, the rotation
    /// fully precedes the encode. The previous file is closed holding
    /// exactly the blocks encoded before the rotation — never the new block
    /// — and is finalized by its flush; the encoder is drained before the
    /// new block is fed; and the new block is the first and only block of
    /// the file opened at the rotation moment.
    pub proof fn lemma_rotation_precedes_encode(v: SupervisorView, now: u64, block: Seq<u8>)
        requires
            v.wf(),
            now >= v.deadline,
            block_aligned(block, v.encoder.num_channels),
        ensures
            ({
                let after = step_spec(v, now, Some(block));
                &&& after.closed == v.closed.push(FileLogView { flushed: true, ..v.active })
                &&& after.closed.last().blocks == v.active.blocks
                &&& after.closed.last().flushed
                &&& after.active.opened_at == now
                &&& after.active.blocks == seq![block]
                &&& after.encoder.fed == seq![block]
            }),
    {
        let after = step_spec(v, now, Some(block));
        assert(after.active.blocks =~= seq![block]);
        assert(after.encoder.fed =~= seq![block]);
    }
}

} // verus!
