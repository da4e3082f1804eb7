use per::clock::RotationClock;

#[test]
fn aligned_first_boundary_rounds_down() {
    // 15-minute interval, session starts at 00:07 (420 s). The initial
    // deadline is the grid point already passed (00:00), so the first check
    // rotates at once, and the first future boundary is 00:15 — not 00:22.
    let mut clock = RotationClock::new(900, true, 420);
    assert_eq!(clock.current_deadline(), 0);
    assert!(clock.should_rotate(420));
    clock.advance();
    assert_eq!(clock.current_deadline(), 900);
    assert!(!clock.should_rotate(420));
}

#[test]
fn unaligned_first_deadline_is_start_plus_interval() {
    let clock = RotationClock::new(60, false, 100);
    assert_eq!(clock.current_deadline(), 160);
    assert!(!clock.should_rotate(100));
    assert!(!clock.should_rotate(159));
    assert!(clock.should_rotate(160));
    assert!(clock.should_rotate(1000));
}

#[test]
fn aligned_deadlines_stay_on_grid() {
    let mut clock = RotationClock::new(900, true, 50000);
    assert_eq!(clock.current_deadline(), 49500);
    let mut previous = clock.current_deadline();
    for _ in 0..5 {
        clock.advance();
        let deadline = clock.current_deadline();
        assert_eq!(deadline % 900, 0);
        assert_eq!(deadline - previous, 900);
        previous = deadline;
    }
}

#[test]
fn advance_keeps_fixed_phase_even_when_late() {
    // The deadline moves by exactly one interval, never to "now + interval".
    let mut clock = RotationClock::new(10, false, 0);
    assert_eq!(clock.current_deadline(), 10);
    // A check fires very late, at 37; the next deadline is still 20.
    assert!(clock.should_rotate(37));
    clock.advance();
    assert_eq!(clock.current_deadline(), 20);
}
