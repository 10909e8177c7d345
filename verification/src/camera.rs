//! The viewer's state: heading, position and eye height, mutated only by
//! discrete input commands.

use vstd::prelude::*;
use vstd::wrapping::i64_specs;

verus! {

/// The discrete input command set.
#[derive(Clone, Copy, PartialEq, Eq, Structural, Debug)]
pub enum Command {
    RotateLeft,
    RotateRight,
    PanLeft,
    PanRight,
    PanForward,
    PanBack,
    RaiseEye,
    LowerEye,
}

/// How far one rotate command turns the heading, in milliradians (a tenth of
/// a radian).
pub const HEADING_STEP_MRAD: i64 = 100;

/// How far one pan command moves the viewer along a world axis.
pub const PAN_STEP: i64 = 10;

/// How far one eye command raises or lowers the eye.
pub const EYE_STEP: i64 = 10;

/// The camera: a heading in milliradians (unbounded; angles are periodic, so
/// the rare 64-bit wrap-around is harmless), a world position, and an eye
/// height. Panning is axis-aligned in world space, not relative to the
/// heading.
#[derive(Clone, Copy, PartialEq, Eq, Structural, Debug)]
pub struct Camera {
    pub heading_mrad: i64,
    pub origin_x: i64,
    pub origin_y: i64,
    pub eye_height: i64,
}

impl Camera {
    /// What one command does to the state: every command is total, and every
    /// field update is two's-complement wrapping, so no input is rejected.
    pub open spec fn apply_spec(self, cmd: Command) -> Camera {
        match cmd {
            Command::RotateLeft => Camera {
                heading_mrad: i64_specs::wrapping_add(self.heading_mrad, HEADING_STEP_MRAD),
                ..self
            },
            Command::RotateRight => Camera {
                heading_mrad: i64_specs::wrapping_sub(self.heading_mrad, HEADING_STEP_MRAD),
                ..self
            },
            Command::PanLeft => Camera {
                origin_x: i64_specs::wrapping_add(self.origin_x, PAN_STEP),
                ..self
            },
            Command::PanRight => Camera {
                origin_x: i64_specs::wrapping_sub(self.origin_x, PAN_STEP),
                ..self
            },
            Command::PanForward => Camera {
                origin_y: i64_specs::wrapping_add(self.origin_y, PAN_STEP),
                ..self
            },
            Command::PanBack => Camera {
                origin_y: i64_specs::wrapping_sub(self.origin_y, PAN_STEP),
                ..self
            },
            Command::RaiseEye => Camera {
                eye_height: i64_specs::wrapping_add(self.eye_height, EYE_STEP),
                ..self
            },
            Command::LowerEye => Camera {
                eye_height: i64_specs::wrapping_sub(self.eye_height, EYE_STEP),
                ..self
            },
        }
    }

    /// The starting state: origin at the world origin, heading straight
    /// ahead, eye a hundred units up.
    pub fn new() -> (c: Camera)
        ensures
            c == (Camera { heading_mrad: 0, origin_x: 0, origin_y: 0, eye_height: 100 }),
    {
        Camera { heading_mrad: 0, origin_x: 0, origin_y: 0, eye_height: 100 }
    }

    /// Applies one input command; the new state is exactly `apply_spec`.
    pub fn apply_command(&mut self, cmd: Command)
        ensures
            *final(self) == old(self).apply_spec(cmd),
    {
        match cmd {
            Command::RotateLeft => {
                self.heading_mrad = self.heading_mrad.wrapping_add(HEADING_STEP_MRAD);
            },
            Command::RotateRight => {
                self.heading_mrad = self.heading_mrad.wrapping_sub(HEADING_STEP_MRAD);
            },
            Command::PanLeft => {
                self.origin_x = self.origin_x.wrapping_add(PAN_STEP);
            },
            Command::PanRight => {
                self.origin_x = self.origin_x.wrapping_sub(PAN_STEP);
            },
            Command::PanForward => {
                self.origin_y = self.origin_y.wrapping_add(PAN_STEP);
            },
            Command::PanBack => {
                self.origin_y = self.origin_y.wrapping_sub(PAN_STEP);
            },
            Command::RaiseEye => {
                self.eye_height = self.eye_height.wrapping_add(EYE_STEP);
            },
            Command::LowerEye => {
                self.eye_height = self.eye_height.wrapping_sub(EYE_STEP);
            },
        }
    }
}

/// Inverse commands cancel: panning forward then back (and left then right,
/// and raising then lowering the eye) restores the state exactly, for every
/// starting state.
pub proof fn lemma_inverse_commands_cancel(c: Camera)
    ensures
        c.apply_spec(Command::PanForward).apply_spec(Command::PanBack) == c,
        c.apply_spec(Command::PanBack).apply_spec(Command::PanForward) == c,
        c.apply_spec(Command::PanLeft).apply_spec(Command::PanRight) == c,
        c.apply_spec(Command::PanRight).apply_spec(Command::PanLeft) == c,
        c.apply_spec(Command::RaiseEye).apply_spec(Command::LowerEye) == c,
        c.apply_spec(Command::LowerEye).apply_spec(Command::RaiseEye) == c,
        c.apply_spec(Command::RotateLeft).apply_spec(Command::RotateRight) == c,
        c.apply_spec(Command::RotateRight).apply_spec(Command::RotateLeft) == c,
{
}

/// Two rotations add: turning left twice advances the heading by exactly two
/// angular steps (two tenths of a radian), for every starting state.
pub proof fn lemma_rotate_left_twice(c: Camera)
    ensures
        c.apply_spec(Command::RotateLeft).apply_spec(Command::RotateLeft)
            == (Camera {
            heading_mrad: i64_specs::wrapping_add(c.heading_mrad, (2 * HEADING_STEP_MRAD) as i64),
            ..c
        }),
{
}

} // verus!
