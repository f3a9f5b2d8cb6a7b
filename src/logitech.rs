//! Codes of the driver-level input backend, and the closed-loop correction
//! that positions the cursor absolutely with relative moves only.

use vstd::prelude::*;

verus! {

/// Result codes of the driver's initialization.
#[derive(Clone, Copy, Debug, PartialEq, Eq, Structural)]
pub enum SendError {
    Success,
    InvalidArgument,
    LibraryNotFound,
    LibraryLoadFailed,
    LibraryError,
    DeviceCreateFailed,
    DeviceNotFound,
    DeviceOpenFailed,
}

impl SendError {
    /// The error for a code the driver returned; `None` for an unknown code.
    pub fn from_code(code: u32) -> (r: Option<SendError>)
        ensures
            (r is Some) == (code <= 7),
            (r matches Some(e) ==> e.code() == code),
    {
        match code {
            0 => Some(SendError::Success),
            1 => Some(SendError::InvalidArgument),
            2 => Some(SendError::LibraryNotFound),
            3 => Some(SendError::LibraryLoadFailed),
            4 => Some(SendError::LibraryError),
            5 => Some(SendError::DeviceCreateFailed),
            6 => Some(SendError::DeviceNotFound),
            7 => Some(SendError::DeviceOpenFailed),
            _ => None,
        }
    }

    /// The driver's code for this result.
    #[verifier::when_used_as_spec(spec_code)]
    pub fn code(&self) -> (r: u32)
        ensures
            r == self.spec_code(),
    {
        match self {
            SendError::Success => 0,
            SendError::InvalidArgument => 1,
            SendError::LibraryNotFound => 2,
            SendError::LibraryLoadFailed => 3,
            SendError::LibraryError => 4,
            SendError::DeviceCreateFailed => 5,
            SendError::DeviceNotFound => 6,
            SendError::DeviceOpenFailed => 7,
        }
    }

    pub open spec fn spec_code(&self) -> u32 {
        match self {
            SendError::Success => 0,
            SendError::InvalidArgument => 1,
            SendError::LibraryNotFound => 2,
            SendError::LibraryLoadFailed => 3,
            SendError::LibraryError => 4,
            SendError::DeviceCreateFailed => 5,
            SendError::DeviceNotFound => 6,
            SendError::DeviceOpenFailed => 7,
        }
    }
}

/// Which injection method the driver library should use.
#[derive(Clone, Copy, Debug, PartialEq, Eq, Structural)]
pub enum SendType {
    AnyDriver,
    SendInput,
    Logitech,
    Razer,
    DD,
    MouClassInputInjection,
    LogitechGHubNew,
}

impl SendType {
    /// The driver's code for this method.
    pub fn code(&self) -> (r: u32)
        ensures
            r == match self {
                SendType::AnyDriver => 0u32,
                SendType::SendInput => 1,
                SendType::Logitech => 2,
                SendType::Razer => 3,
                SendType::DD => 4,
                SendType::MouClassInputInjection => 5,
                SendType::LogitechGHubNew => 6,
            },
    {
        match self {
            SendType::AnyDriver => 0,
            SendType::SendInput => 1,
            SendType::Logitech => 2,
            SendType::Razer => 3,
            SendType::DD => 4,
            SendType::MouClassInputInjection => 5,
            SendType::LogitechGHubNew => 6,
        }
    }
}

/// How the driver interprets a mouse move.
#[derive(Clone, Copy, Debug, PartialEq, Eq, Structural)]
pub enum MoveMode {
    Absolute,
    Relative,
}

impl MoveMode {
    /// The driver's code for this mode.
    pub fn code(&self) -> (r: u32)
        ensures
            r == match self {
                MoveMode::Absolute => 0u32,
                MoveMode::Relative => 1,
            },
    {
        match self {
            MoveMode::Absolute => 0,
            MoveMode::Relative => 1,
        }
    }
}

/// Mouse button actions, as the driver numbers them.
#[derive(Clone, Copy, Debug, PartialEq, Eq, Structural)]
pub enum MouseButton {
    LeftDown,
    LeftUp,
    Left,
    RightDown,
    RightUp,
    Right,
    MiddleDown,
    MiddleUp,
    Middle,
}

impl MouseButton {
    /// The driver's code for this action.
    pub fn code(&self) -> (r: u32)
        ensures
            r == match self {
                MouseButton::LeftDown => 0x02u32,
                MouseButton::LeftUp => 0x04,
                MouseButton::Left => 0x06,
                MouseButton::RightDown => 0x08,
                MouseButton::RightUp => 0x10,
                MouseButton::Right => 0x18,
                MouseButton::MiddleDown => 0x20,
                MouseButton::MiddleUp => 0x40,
                MouseButton::Middle => 0x60,
            },
    {
        match self {
            MouseButton::LeftDown => 0x02,
            MouseButton::LeftUp => 0x04,
            MouseButton::Left => 0x06,
            MouseButton::RightDown => 0x08,
            MouseButton::RightUp => 0x10,
            MouseButton::Right => 0x18,
            MouseButton::MiddleDown => 0x20,
            MouseButton::MiddleUp => 0x40,
            MouseButton::Middle => 0x60,
        }
    }
}

/// Corrections an absolute move tries before it settles for where it is.
pub const MOVE_MAX_ITERATIONS: u32 = 20;

/// Distance, per axis, at which the cursor counts as arrived.
pub const MOVE_TOLERANCE: i64 = 2;

/// Largest correction, per axis, of one step.
pub const MOVE_MAX_STEP: i64 = 200;

/// The divisor applied to the remaining distance at an iteration, as a
/// fraction (numerator, denominator): 3 for the first three iterations, then
/// 2.5, then 2 up to the tenth, then 1.5. Early steps are cautious because
/// pointer acceleration makes moves overshoot; later ones converge fast.
pub open spec fn divisor_at(iteration: u32) -> (int, int) {
    if iteration < 3 {
        (3, 1)
    } else if iteration < 6 {
        (5, 2)
    } else if iteration < 10 {
        (2, 1)
    } else {
        (3, 2)
    }
}

/// `n / d` rounded to the nearest integer, halves away from zero (`d > 0`).
pub open spec fn round_div(n: int, d: int) -> int {
    if n >= 0 {
        (2 * n + d) / (2 * d)
    } else {
        -((-2 * n + d) / (2 * d))
    }
}

pub open spec fn clamp_step(v: int) -> int {
    if v > MOVE_MAX_STEP {
        MOVE_MAX_STEP as int
    } else if v < -MOVE_MAX_STEP {
        -MOVE_MAX_STEP
    } else {
        v
    }
}

/// The relative move, on one axis, for a remaining distance `delta`: the
/// distance divided by the iteration's divisor and rounded, clamped to the
/// largest step, and at least one pixel toward the target while not there.
pub open spec fn axis_correction(delta: int, iteration: u32) -> int {
    let (p, q) = divisor_at(iteration);
    let m = clamp_step(round_div(delta * q, p));
    if m == 0 && delta != 0 {
        if delta > 0 {
            1
        } else {
            -1
        }
    } else {
        m
    }
}

fn axis_step(delta: i64, iteration: u32) -> (r: i32)
    requires
        -0x1_0000_0000 <= delta <= 0x1_0000_0000,
    ensures
        r == axis_correction(delta as int, iteration),
{
    let (p, q): (i64, i64) = if iteration < 3 {
        (3, 1)
    } else if iteration < 6 {
        (5, 2)
    } else if iteration < 10 {
        (2, 1)
    } else {
        (3, 2)
    };
    let n = delta * q;
    let rounded = if n >= 0 {
        (2 * n + p) / (2 * p)
    } else {
        -((-2 * n + p) / (2 * p))
    };
    let mut m = if rounded > MOVE_MAX_STEP {
        MOVE_MAX_STEP
    } else if rounded < -MOVE_MAX_STEP {
        -MOVE_MAX_STEP
    } else {
        rounded
    };
    if m == 0 && delta != 0 {
        m = if delta > 0 {
            1
        } else {
            -1
        };
    }
    m as i32
}

/// One iteration of an absolute move done with relative moves: `None` once
/// the cursor is within the tolerance of the target on both axes, otherwise
/// the relative move to make on each axis.
pub fn correction_step(iteration: u32, current: (i32, i32), target: (i32, i32)) -> (r: Option<
    (i32, i32),
>)
    ensures
        (r is None) == (-MOVE_TOLERANCE <= target.0 - current.0 <= MOVE_TOLERANCE
            && -MOVE_TOLERANCE <= target.1 - current.1 <= MOVE_TOLERANCE),
        (r matches Some(m) ==> m.0 == axis_correction(target.0 - current.0, iteration) && m.1
            == axis_correction(target.1 - current.1, iteration)),
{
    let dx = target.0 as i64 - current.0 as i64;
    let dy = target.1 as i64 - current.1 as i64;
    if -MOVE_TOLERANCE <= dx && dx <= MOVE_TOLERANCE && -MOVE_TOLERANCE <= dy && dy
        <= MOVE_TOLERANCE {
        None
    } else {
        Some((axis_step(dx, iteration), axis_step(dy, iteration)))
    }
}

} // verus!
