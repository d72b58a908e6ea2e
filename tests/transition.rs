use ice_puzzle::transition::{Delay, Transition};

#[test]
fn delay_frames() {
    assert_eq!(Delay::Post(60).num_frames(), 60);
    assert_eq!(Delay::Pre(7).num_frames(), 7);
    assert_eq!(Delay::NoDelay.num_frames(), 0);
}

#[test]
fn transition_counts_motion_and_pause() {
    let t = Transition::new(255u8, 0u8, 60, Delay::Post(60));
    assert_eq!(t.total_frames(), 120);
    assert_eq!(t.elapsed_frames(), 0);
    assert!(!t.is_running());
    assert_eq!(*t.from(), 255);
    assert_eq!(*t.to(), 0);
    assert_eq!(t.delay(), Delay::Post(60));
}

#[test]
fn transition_waits_until_started() {
    let mut t = Transition::new(0u8, 10u8, 5, Delay::NoDelay);
    for _ in 0..10 {
        assert!(!t.update());
    }
    assert_eq!(t.elapsed_frames(), 0);
    t.start();
    assert!(t.is_running());
    for _ in 0..5 {
        assert!(!t.update());
    }
    assert_eq!(t.elapsed_frames(), 5);
    assert!(t.update());
    assert_eq!(t.elapsed_frames(), 6);
}
