//! The one kind of entity the simulation tracks.
use vstd::prelude::*;
use vstd::string::StringExecFns;
use crate::laws::{no_time_no_motion, no_velocity_no_motion};
use crate::motion::{advance_position, position_text, velocity_text, Position, Velocity};

verus! {

/// A named body that drifts along a constant velocity. Its name and velocity
/// are fixed when it is made; only integration moves it.
pub struct TrackedBody {
    name: String,
    position: Position,
    velocity: Velocity,
}

/// What a `TrackedBody` holds, as plain values.
pub ghost struct BodyView {
    pub name: Seq<char>,
    pub position: Position,
    pub velocity: Velocity,
}

impl View for TrackedBody {
    type V = BodyView;

    closed spec fn view(&self) -> BodyView {
        BodyView { name: self.name@, position: self.position, velocity: self.velocity }
    }
}

/// The body after `nanos` nanoseconds: moved along its velocity, otherwise
/// unchanged.
pub open spec fn integrated(body: BodyView, nanos: nat) -> BodyView {
    BodyView { position: advance_position(body.position, body.velocity, nanos), ..body }
}

/// The line that reports a body: its name, where it is and how fast it
/// moves.
pub open spec fn line_text(body: BodyView) -> Seq<char> {
    "Player "@ + body.name + " pos("@ + position_text(body.position) + ") velocity("@
        + velocity_text(body.velocity) + ")"@
}

impl TrackedBody {
    /// A body called `name`, at `position`, moving at `velocity`.
    pub fn new(name: String, position: Position, velocity: Velocity) -> (body: TrackedBody)
        ensures
            body@ == (BodyView { name: name@, position, velocity }),
    {
        TrackedBody { name, position, velocity }
    }

    /// The body's name.
    pub fn name(&self) -> (name: &str)
        ensures
            name@ == self@.name,
    {
        self.name.as_str()
    }

    /// Where the body is now.
    pub fn position(&self) -> (position: Position)
        ensures
            position == self@.position,
    {
        self.position
    }

    /// How fast the body moves.
    pub fn velocity(&self) -> (velocity: Velocity)
        ensures
            velocity == self@.velocity,
    {
        self.velocity
    }

    /// Moves the body along its velocity for `nanos` nanoseconds. No time or
    /// no velocity means no change.
    pub fn integrate(&mut self, nanos: u64)
        ensures
            final(self)@ == integrated(old(self)@, nanos as nat),
            nanos == 0 ==> final(self)@ == old(self)@,
            old(self)@.velocity == (Velocity { x: 0, y: 0, z: 0 }) ==> final(self)@ == old(self)@,
    {
        proof {
            if nanos == 0 {
                no_time_no_motion(self@);
            }
            if self@.velocity == (Velocity { x: 0, y: 0, z: 0 }) {
                no_velocity_no_motion(self@, nanos as nat);
            }
        }
        self.position = self.position.advanced(self.velocity, nanos);
    }

    /// The line that reports the body as it is now.
    pub fn log_line(&self) -> (line: String)
        ensures
            line@ == line_text(self@),
    {
        let position = self.position.to_text();
        let velocity = self.velocity.to_text();
        let mut line = String::from_str("Player ");
        line.append(self.name.as_str());
        line.append(" pos(");
        line.append(position.as_str());
        line.append(") velocity(");
        line.append(velocity.as_str());
        line.append(")");
        line
    }
}

} // verus!
