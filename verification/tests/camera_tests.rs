use voxelspace::camera::{Camera, Command};

#[test]
fn new_camera_starts_at_origin() {
    let c = Camera::new();
    assert_eq!(c.heading_mrad, 0);
    assert_eq!(c.origin_x, 0);
    assert_eq!(c.origin_y, 0);
    assert_eq!(c.eye_height, 100);
}

#[test]
fn two_left_rotations_add_two_tenths_of_a_radian() {
    let mut c = Camera::new();
    c.apply_command(Command::RotateLeft);
    c.apply_command(Command::RotateLeft);
    // 200 milliradians: exactly 0.2 rad above the start.
    assert_eq!(c.heading_mrad, 200);
    assert_eq!(c.origin_x, 0);
    assert_eq!(c.origin_y, 0);
    assert_eq!(c.eye_height, 100);
}

#[test]
fn pan_forward_then_back_cancels() {
    let mut c = Camera::new();
    c.apply_command(Command::PanLeft);
    c.apply_command(Command::RotateRight);
    let before = c;
    c.apply_command(Command::PanForward);
    c.apply_command(Command::PanBack);
    assert_eq!(c, before);
}

#[test]
fn each_command_moves_its_own_field() {
    let mut c = Camera::new();
    c.apply_command(Command::RotateRight);
    assert_eq!(c.heading_mrad, -100);
    c.apply_command(Command::PanLeft);
    assert_eq!(c.origin_x, 10);
    c.apply_command(Command::PanRight);
    assert_eq!(c.origin_x, 0);
    c.apply_command(Command::PanForward);
    assert_eq!(c.origin_y, 10);
    c.apply_command(Command::PanBack);
    assert_eq!(c.origin_y, 0);
    c.apply_command(Command::RaiseEye);
    assert_eq!(c.eye_height, 110);
    c.apply_command(Command::LowerEye);
    assert_eq!(c.eye_height, 100);
}
