//! Positions, velocities and the rule that advances one by the other.
use vstd::prelude::*;
use crate::text::{
    decimal_text, metres, metres_per_second, triple, triple_text, METRE_PLACES, SPEED_PLACES,
};

verus! {

/// A point in space, each coordinate in femtometres.
#[derive(Clone, Copy, Debug, PartialEq, Eq, Structural)]
pub struct Position {
    pub x: i128,
    pub y: i128,
    pub z: i128,
}

/// A rate of travel, each component in micrometres per second.
#[derive(Clone, Copy, Debug, PartialEq, Eq, Structural)]
pub struct Velocity {
    pub x: i64,
    pub y: i64,
    pub z: i64,
}

/// The coordinate nearest to `value` that a position can hold.
pub open spec fn clamp_coordinate(value: int) -> int {
    if value < i128::MIN {
        i128::MIN as int
    } else if value > i128::MAX {
        i128::MAX as int
    } else {
        value
    }
}

/// Where a coordinate stands after travelling at `rate` for `nanos`
/// nanoseconds: the exact sum, held at the nearest bound where it leaves the
/// range of a coordinate.
pub open spec fn advance_coordinate(start: int, rate: int, nanos: nat) -> int {
    clamp_coordinate(start + rate * nanos)
}

/// Where a point stands after travelling at `velocity` for `nanos`
/// nanoseconds, coordinate by coordinate.
pub open spec fn advance_position(start: Position, velocity: Velocity, nanos: nat) -> Position {
    Position {
        x: advance_coordinate(start.x as int, velocity.x as int, nanos) as i128,
        y: advance_coordinate(start.y as int, velocity.y as int, nanos) as i128,
        z: advance_coordinate(start.z as int, velocity.z as int, nanos) as i128,
    }
}

/// A position as text: its three coordinates in metres, separated by a comma
/// and a space.
pub open spec fn position_text(point: Position) -> Seq<char> {
    triple_text(
        decimal_text(point.x as int, METRE_PLACES as nat),
        decimal_text(point.y as int, METRE_PLACES as nat),
        decimal_text(point.z as int, METRE_PLACES as nat),
    )
}

/// A velocity as text: its three components in metres per second, separated
/// by a comma and a space.
pub open spec fn velocity_text(velocity: Velocity) -> Seq<char> {
    triple_text(
        decimal_text(velocity.x as int, SPEED_PLACES as nat),
        decimal_text(velocity.y as int, SPEED_PLACES as nat),
        decimal_text(velocity.z as int, SPEED_PLACES as nat),
    )
}

/// The length of a frame that took `elapsed` nanoseconds: `elapsed` itself,
/// or the longest frame there is where it is longer than that.
pub fn frame_nanos(elapsed: u128) -> (nanos: u64)
    ensures
        elapsed <= u64::MAX ==> nanos == elapsed,
        elapsed > u64::MAX ==> nanos == u64::MAX,
{
    if elapsed > u64::MAX as u128 {
        u64::MAX
    } else {
        elapsed as u64
    }
}

/// Advances one coordinate by `rate` over `nanos` nanoseconds.
pub fn advance(start: i128, rate: i64, nanos: u64) -> (end: i128)
    ensures
        end == advance_coordinate(start as int, rate as int, nanos as nat),
{
    assert(i128::MIN <= (rate as int) * (nanos as int) <= i128::MAX) by (nonlinear_arith)
        requires
            i64::MIN <= rate <= i64::MAX,
            0 <= nanos <= u64::MAX,
    ;
    let travelled: i128 = (rate as i128) * (nanos as i128);
    if travelled >= 0 {
        if start > i128::MAX - travelled {
            i128::MAX
        } else {
            start + travelled
        }
    } else {
        if start < i128::MIN - travelled {
            i128::MIN
        } else {
            start + travelled
        }
    }
}

impl Position {
    /// The origin.
    pub fn origin() -> (point: Position)
        ensures
            point == (Position { x: 0, y: 0, z: 0 }),
    {
        Position { x: 0, y: 0, z: 0 }
    }

    /// The point reached from `self` after `nanos` nanoseconds at `velocity`.
    pub fn advanced(self, velocity: Velocity, nanos: u64) -> (end: Position)
        ensures
            end == advance_position(self, velocity, nanos as nat),
    {
        Position {
            x: advance(self.x, velocity.x, nanos),
            y: advance(self.y, velocity.y, nanos),
            z: advance(self.z, velocity.z, nanos),
        }
    }

    /// The position as text, in metres.
    pub fn to_text(&self) -> (text: String)
        ensures
            text@ == position_text(*self),
    {
        let y = metres(self.y);
        let z = metres(self.z);
        triple(metres(self.x), y.as_str(), z.as_str())
    }
}

impl Velocity {
    /// The velocity as text, in metres per second.
    pub fn to_text(&self) -> (text: String)
        ensures
            text@ == velocity_text(*self),
    {
        let y = metres_per_second(self.y);
        let z = metres_per_second(self.z);
        triple(metres_per_second(self.x), y.as_str(), z.as_str())
    }
}

} // verus!
