//! The store of tracked bodies and the systems that run on it.
use vstd::prelude::*;
use crate::body::{integrated, line_text, BodyView, TrackedBody};
use crate::laws::empty_frame_changes_nothing;
use crate::motion::{Position, Velocity};

verus! {

/// The name of the body made at startup.
pub const PLAYER_NAME: &'static str = "Gustaw";

/// The upward speed of the body made at startup, in micrometres per second:
/// a tenth of a metre per second.
pub const PLAYER_RISE: i64 = 100_000;

/// Every tracked body, in the order of creation. A body is known by its place
/// in that order, and no body is ever removed.
pub struct World {
    bodies: Vec<TrackedBody>,
}

impl View for World {
    type V = Seq<BodyView>;

    closed spec fn view(&self) -> Seq<BodyView> {
        Seq::new(self.bodies@.len(), |i: int| self.bodies@[i]@)
    }
}

/// The body that `spawn_player_system` makes.
pub open spec fn player() -> BodyView {
    BodyView {
        name: PLAYER_NAME@,
        position: Position { x: 0, y: 0, z: 0 },
        velocity: Velocity { x: 0, y: PLAYER_RISE, z: 0 },
    }
}

/// The bodies after one frame of `nanos` nanoseconds: each one integrated.
pub open spec fn step_all(bodies: Seq<BodyView>, nanos: nat) -> Seq<BodyView> {
    Seq::new(bodies.len(), |i: int| integrated(bodies[i], nanos))
}

/// The bodies after a run of frames, the first of `deltas` first.
pub open spec fn run_all(bodies: Seq<BodyView>, deltas: Seq<u64>) -> Seq<BodyView>
    decreases deltas.len(),
{
    if deltas.len() == 0 {
        bodies
    } else {
        step_all(run_all(bodies, deltas.drop_last()), deltas.last() as nat)
    }
}

/// The report on `bodies`: one line for each, in order.
pub open spec fn log_lines(bodies: Seq<BodyView>) -> Seq<Seq<char>> {
    Seq::new(bodies.len(), |i: int| line_text(bodies[i]))
}

impl World {
    /// A world without bodies.
    pub fn new() -> (world: World)
        ensures
            world@ == Seq::<BodyView>::empty(),
    {
        let world = World { bodies: Vec::new() };
        assert(world@ =~= Seq::<BodyView>::empty());
        world
    }

    /// How many bodies the world tracks.
    pub fn len(&self) -> (count: usize)
        ensures
            count == self@.len(),
    {
        self.bodies.len()
    }

    /// Adds `body` after the others and returns its place.
    pub fn spawn(&mut self, body: TrackedBody) -> (id: usize)
        ensures
            id == old(self)@.len(),
            final(self)@ == old(self)@.push(body@),
    {
        let id = self.bodies.len();
        self.bodies.push(body);
        assert(self@ =~= old(self)@.push(body@));
        id
    }

    /// The body at place `id`, if there is one.
    pub fn body(&self, id: usize) -> (found: Option<&TrackedBody>)
        ensures
            match found {
                Some(body) => id < self@.len() && body@ == self@[id as int],
                None => id >= self@.len(),
            },
    {
        if id < self.bodies.len() {
            Some(&self.bodies[id])
        } else {
            None
        }
    }
}

/// Startup: makes the one player, at rest at the origin but for a slow rise.
pub fn spawn_player_system(world: &mut World)
    ensures
        final(world)@ == old(world)@.push(player()),
{
    let body = TrackedBody::new(
        PLAYER_NAME.to_owned(),
        Position::origin(),
        Velocity { x: 0, y: PLAYER_RISE, z: 0 },
    );
    world.spawn(body);
}

/// Once per frame: moves every body along its velocity for the `nanos`
/// nanoseconds that passed since the frame before.
pub fn move_positions_system(world: &mut World, nanos: u64)
    ensures
        final(world)@ == step_all(old(world)@, nanos as nat),
        nanos == 0 ==> final(world)@ == old(world)@,
{
    let count = world.bodies.len();
    let mut i: usize = 0;
    while i < count
        invariant
            i <= count,
            count == world.bodies@.len(),
            count == old(world).bodies@.len(),
            forall|j: int|
                0 <= j < i ==> (#[trigger] world.bodies@[j])@ == integrated(
                    old(world).bodies@[j]@,
                    nanos as nat,
                ),
            forall|j: int| i <= j < count ==> #[trigger] world.bodies@[j] == old(world).bodies@[j],
        decreases count - i,
    {
        let ghost before = world.bodies@;
        let body = &mut world.bodies[i];
        body.integrate(nanos);
        assert(world.bodies@ =~= before.update(i as int, world.bodies@[i as int]));
        i = i + 1;
    }
    assert(world@ =~= step_all(old(world)@, nanos as nat));
    proof {
        if nanos == 0 {
            empty_frame_changes_nothing(old(world)@);
        }
    }
}

/// Once per frame, after the move: one line for each body, in order, for the
/// caller to emit.
pub fn list_players_system(world: &World) -> (lines: Vec<String>)
    ensures
        lines.deep_view() == log_lines(world@),
{
    let count = world.bodies.len();
    let mut lines: Vec<String> = Vec::new();
    let mut i: usize = 0;
    while i < count
        invariant
            i <= count,
            count == world.bodies@.len(),
            lines@.len() == i,
            forall|j: int| 0 <= j < i ==> (#[trigger] lines@[j])@ == line_text(world.bodies@[j]@),
        decreases count - i,
    {
        lines.push(world.bodies[i].log_line());
        i = i + 1;
    }
    assert(lines.deep_view() =~= log_lines(world@));
    lines
}

/// One frame of `nanos` nanoseconds: the move, then the report, which
/// therefore shows every body where the move has left it.
pub fn frame(world: &mut World, nanos: u64) -> (lines: Vec<String>)
    ensures
        final(world)@ == step_all(old(world)@, nanos as nat),
        lines.deep_view() == log_lines(final(world)@),
{
    move_positions_system(world, nanos);
    list_players_system(world)
}

/// Runs one frame for each of `deltas`, in order, and returns the reports of
/// all of them: report `k` shows the bodies after exactly `k + 1` moves.
pub fn run_frames(world: &mut World, deltas: &[u64]) -> (reports: Vec<Vec<String>>)
    ensures
        final(world)@ == run_all(old(world)@, deltas@),
        reports@.len() == deltas@.len(),
        forall|k: int|
            0 <= k < deltas@.len() ==> (#[trigger] reports@[k]).deep_view() == log_lines(
                run_all(old(world)@, deltas@.take(k + 1)),
            ),
{
    let mut reports: Vec<Vec<String>> = Vec::new();
    let mut done: usize = 0;
    while done < deltas.len()
        invariant
            done <= deltas@.len(),
            reports@.len() == done,
            world@ == run_all(old(world)@, deltas@.take(done as int)),
            forall|k: int|
                0 <= k < done ==> (#[trigger] reports@[k]).deep_view() == log_lines(
                    run_all(old(world)@, deltas@.take(k + 1)),
                ),
        decreases deltas@.len() - done,
    {
        proof {
            let next = deltas@.take(done + 1);
            assert(next.drop_last() =~= deltas@.take(done as int));
            assert(next.last() == deltas@[done as int]);
        }
        let lines = frame(world, deltas[done]);
        reports.push(lines);
        done = done + 1;
    }
    assert(deltas@.take(done as int) =~= deltas@);
    reports
}

} // verus!
