use voxelspace::horizon::HorizonBuffer;

#[test]
fn new_buffer_sits_at_the_screen_bottom() {
    let b = HorizonBuffer::new(5, 480);
    assert_eq!(b.width(), 5);
    for col in 0..5 {
        assert_eq!(b.get(col), 480);
    }
}

#[test]
fn test_and_update_mutates_only_on_strictly_closer_candidates() {
    let mut b = HorizonBuffer::new(4, 100);
    // Visible: strictly above the horizon, entry moves up.
    assert!(b.test_and_update(2, 50));
    assert_eq!(b.get(2), 50);
    // Equal candidate: not visible, no mutation.
    assert!(!b.test_and_update(2, 50));
    assert_eq!(b.get(2), 50);
    // Larger candidate: not visible, no mutation.
    assert!(!b.test_and_update(2, 60));
    assert_eq!(b.get(2), 50);
    // Other columns untouched throughout.
    assert_eq!(b.get(0), 100);
    assert_eq!(b.get(1), 100);
    assert_eq!(b.get(3), 100);
}

#[test]
fn entries_never_increase_over_a_sweep() {
    let mut b = HorizonBuffer::new(3, 200);
    let candidates = [150u32, 180, 120, 120, 90, 199];
    let mut last = b.get(1);
    for &c in candidates.iter() {
        b.test_and_update(1, c);
        let now = b.get(1);
        assert!(now <= last);
        last = now;
    }
    assert_eq!(b.get(1), 90);
}

#[test]
fn reset_restores_every_column() {
    let mut b = HorizonBuffer::new(3, 100);
    b.test_and_update(0, 10);
    b.test_and_update(2, 20);
    b.reset(250);
    assert_eq!(b.width(), 3);
    for col in 0..3 {
        assert_eq!(b.get(col), 250);
    }
}
