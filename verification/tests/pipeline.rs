use per::lame::LameContext;
use per::queue::BlockQueue;
use per::supervisor::{Event, Supervisor};

fn ready_encoder() -> LameContext {
    let mut ctx = LameContext::new();
    ctx.set_in_samplerate(44100);
    ctx.set_quality(2);
    ctx.set_bitrate(128);
    ctx.set_disable_reservoir(true);
    ctx.init_params();
    ctx
}

#[test]
fn three_blocks_across_deadline() {
    // Unit interval, unaligned. Block 2 arrives after the deadline has
    // passed: file A must hold encode(block1)+flush, file B must hold
    // encode(block2)+encode(block3)+flush.
    let block1 = vec![1u8; 4];
    let block2 = vec![2u8; 4];
    let block3 = vec![3u8; 4];
    let mut sup = Supervisor::new(1, false, 0, ready_encoder());
    assert_eq!(sup.next_deadline(), 1);

    let outcome = sup.step(0, Event::Block(block1.clone()));
    assert!(!outcome.rotated);
    assert!(outcome.accepted);

    let outcome = sup.step(1, Event::Block(block2.clone()));
    assert!(outcome.rotated);
    assert!(outcome.accepted);

    let outcome = sup.step(1, Event::Block(block3.clone()));
    assert!(!outcome.rotated);
    assert!(outcome.accepted);

    // Session end at the next boundary: the second file is finalized.
    let outcome = sup.step(2, Event::Closed);
    assert!(outcome.rotated);
    assert!(outcome.ended);
    assert!(!sup.is_running());

    let files = sup.closed_files();
    assert_eq!(files.len(), 2);
    assert_eq!(files[0].opened_at, 0);
    assert_eq!(files[0].blocks, vec![block1]);
    assert!(files[0].flushed);
    assert_eq!(files[1].opened_at, 1);
    assert_eq!(files[1].blocks, vec![block2, block3]);
    assert!(files[1].flushed);
}

#[test]
fn rotation_closes_old_file_before_encoding() {
    // A block arriving exactly at the deadline must land in the new file;
    // the old file is flushed and closed holding only earlier blocks.
    let early = vec![7u8; 8];
    let late = vec![9u8; 8];
    let mut sup = Supervisor::new(10, false, 100, ready_encoder());
    sup.step(101, Event::Block(early.clone()));
    let outcome = sup.step(110, Event::Block(late.clone()));
    assert!(outcome.rotated);
    assert!(outcome.accepted);

    let files = sup.closed_files();
    assert_eq!(files.len(), 1);
    assert_eq!(files[0].blocks, vec![early]);
    assert!(files[0].flushed);
    let active = sup.active_file();
    assert_eq!(active.opened_at, 110);
    assert_eq!(active.blocks, vec![late]);
    assert!(!active.flushed);
    assert_eq!(sup.next_deadline(), 120);
}

#[test]
fn aligned_session_rotates_placeholder_at_once() {
    // With alignment on, the initial deadline has already passed, so the
    // very first step closes the starting file (still empty) and opens one
    // named after the first check's moment; the next boundary is on the
    // grid.
    let mut sup = Supervisor::new(900, true, 420, ready_encoder());
    assert_eq!(sup.next_deadline(), 0);
    let outcome = sup.step(420, Event::Block(vec![5u8; 4]));
    assert!(outcome.rotated);
    assert!(outcome.accepted);
    assert_eq!(sup.next_deadline(), 900);
    let files = sup.closed_files();
    assert_eq!(files.len(), 1);
    assert_eq!(files[0].opened_at, 420);
    assert!(files[0].blocks.is_empty());
    assert!(files[0].flushed);
    assert_eq!(sup.active_file().blocks, vec![vec![5u8; 4]]);
}

#[test]
fn malformed_block_changes_nothing_and_session_continues() {
    let good = vec![1u8; 4];
    let bad = vec![2u8; 5];
    let mut sup = Supervisor::new(100, false, 0, ready_encoder());
    sup.step(1, Event::Block(good.clone()));
    let outcome = sup.step(2, Event::Block(bad));
    assert!(!outcome.accepted);
    assert!(!outcome.rotated);
    assert!(sup.is_running());
    assert_eq!(sup.active_file().blocks, vec![good.clone()]);
    // A later well-formed block is handled as if the malformed one never
    // arrived.
    let outcome = sup.step(3, Event::Block(vec![3u8; 4]));
    assert!(outcome.accepted);
    assert_eq!(sup.active_file().blocks, vec![good, vec![3u8; 4]]);
}

#[test]
fn channel_closure_ends_session_without_new_file() {
    let mut sup = Supervisor::new(60, false, 0, ready_encoder());
    sup.step(1, Event::Block(vec![1u8; 4]));
    let outcome = sup.step(2, Event::Closed);
    assert!(!outcome.rotated);
    assert!(outcome.ended);
    assert!(!sup.is_running());
    // The last file is left as-is: open and unflushed.
    assert_eq!(sup.closed_files().len(), 0);
    assert!(!sup.active_file().flushed);
    assert_eq!(sup.active_file().blocks, vec![vec![1u8; 4]]);
}

#[test]
fn aligned_deadlines_stay_on_grid_across_rotations() {
    // However late the checks fire, aligned boundaries remain consecutive
    // multiples of the interval since the epoch.
    let mut sup = Supervisor::new(900, true, 1234, ready_encoder());
    let mut times = [1234u64, 2000, 2705, 3600, 9999].into_iter();
    let mut previous: Option<u64> = None;
    while let Some(now) = times.next() {
        let outcome = sup.step(now, Event::Block(vec![0u8; 4]));
        let deadline = sup.next_deadline();
        assert_eq!(deadline % 900, 0);
        if let Some(p) = previous {
            // The deadline moves by exactly one interval per rotation,
            // never jumping to "now + interval".
            assert_eq!(deadline - p, if outcome.rotated { 900 } else { 0 });
        }
        previous = Some(deadline);
    }
}

#[test]
fn blocks_flow_from_queue_to_files_in_order() {
    // Capture side fills the queue; the consumer drains it into the
    // supervisor. The files hold the blocks in exactly production order.
    let mut queue = BlockQueue::new();
    for i in 1u8..=6 {
        queue.send(vec![i; 4]);
    }
    let mut sup = Supervisor::new(1000, false, 0, ready_encoder());
    let mut t = 0u64;
    while let Some(block) = queue.recv() {
        t += 1;
        sup.step(t, Event::Block(block));
    }
    sup.step(t + 1, Event::Closed);
    let active = sup.active_file();
    assert_eq!(
        active.blocks,
        (1u8..=6).map(|i| vec![i; 4]).collect::<Vec<_>>()
    );
}

#[test]
fn empty_fragment_write_is_harmless() {
    // A zero-length block is a whole number of frames: it is accepted and
    // recorded, and nothing about the file changes shape.
    let mut sup = Supervisor::new(60, false, 0, ready_encoder());
    let outcome = sup.step(1, Event::Block(Vec::new()));
    assert!(outcome.accepted);
    assert_eq!(sup.active_file().blocks, vec![Vec::<u8>::new()]);
}
