//! The messages that a phone sends. `N` is the type of the numbers in them;
//! nothing here computes with them.

use vstd::prelude::*;

verus! {

/// How the orientation of the phone moves the pointer.
#[derive(Debug, Clone, Copy, PartialEq, Eq, Structural)]
pub enum Mode {
    /// The calibrated corners of the screen are mapped to the desktop.
    Absolute,
    /// The phone is an air mouse: turning it moves the pointer.
    Relative,
}

/// A mouse button.
#[derive(Debug, Clone, Copy, PartialEq, Eq, Structural)]
pub enum Btn {
    Left,
    Right,
}

/// A corner of the screen that is calibrated.
#[derive(Debug, Clone, Copy, PartialEq, Eq, Hash, Structural)]
pub enum Corner {
    Tl,
    Tr,
    Bl,
    Br,
}

/// The rotation since the last message as the phone integrated it: unrolled to
/// the desktop's axes, in the phone's own axes, and the time it took.
#[derive(Debug, Clone, Copy)]
pub struct RotationDelta<N> {
    pub alpha: N,
    pub beta: N,
    pub gamma: N,
    pub local_alpha: N,
    pub local_beta: N,
    pub local_gamma: N,
    pub sample_ms: N,
}

/// Every message that the phone can send.
#[derive(Debug, Clone, Copy)]
pub enum ClientMsg<N> {
    /// Switch between absolute and relative.
    Mode { mode: Mode },
    /// Store the current orientation for a corner of the screen.
    Calib { point: Corner, beta: N, alpha: N, gamma: N },
    /// Forget all corners.
    ResetCalib,
    /// The stream of orientations.
    Move { beta: N, alpha: N, gamma: N, rotation_delta: Option<RotationDelta<N>> },
    /// Apply the coefficients that a calibration of the phone's roll gave.
    GammaCalib { alpha_coupling: N, beta_coupling: N },
    /// Switch the compensation of the phone's roll off.
    ResetGammaCalib,
    /// Press a mouse button and hold it.
    Down { button: Btn },
    /// Release a mouse button.
    Up { button: Btn },
    /// Turn the wheel by a number of ticks, rounded to a whole number.
    Scroll { dy: i32 },
    /// How quickly the filter responds, within its limits.
    Smoothing { value: N },
}

} // verus!
