//! What holds of motion whatever the bodies and the frames are.
use vstd::prelude::*;
use crate::body::{integrated, BodyView};
use crate::motion::{advance_coordinate, advance_position, Position, Velocity};
use crate::reading::report_tells_the_state;
use crate::world::{log_lines, run_all, step_all};

verus! {

/// A coordinate that travels for `first` and then for `second` nanoseconds at
/// one rate ends where it would after `first + second` nanoseconds in one go,
/// also where a bound has held it back on the way.
pub proof fn coordinate_motion_is_additive(start: i128, rate: i64, first: nat, second: nat)
    ensures
        advance_coordinate(advance_coordinate(start as int, rate as int, first), rate as int, second)
            == advance_coordinate(start as int, rate as int, first + second),
{
    let r = rate as int;
    let a = r * first;
    let b = r * second;
    assert(r * (first + second) == a + b) by (nonlinear_arith)
        requires
            a == r * first,
            b == r * second,
    ;
    assert((a >= 0 && b >= 0) || (a <= 0 && b <= 0)) by (nonlinear_arith)
        requires
            a == r * first,
            b == r * second,
            first >= 0,
            second >= 0,
    ;
}

/// Moving a point for `first` and then for `second` nanoseconds at one
/// velocity leaves it where one move of `first + second` nanoseconds does.
pub proof fn motion_is_additive(start: Position, velocity: Velocity, first: nat, second: nat)
    ensures
        advance_position(advance_position(start, velocity, first), velocity, second)
            == advance_position(start, velocity, first + second),
{
    coordinate_motion_is_additive(start.x, velocity.x, first, second);
    coordinate_motion_is_additive(start.y, velocity.y, first, second);
    coordinate_motion_is_additive(start.z, velocity.z, first, second);
}

/// Integrating a body twice, over `first` and then over `second` nanoseconds,
/// gives the body that one integration over `first + second` gives.
pub proof fn integration_is_additive(body: BodyView, first: nat, second: nat)
    ensures
        integrated(integrated(body, first), second) == integrated(body, first + second),
{
    motion_is_additive(body.position, body.velocity, first, second);
}

/// Two frames in a row leave every body where one frame of their joint length
/// does.
pub proof fn frames_are_additive(bodies: Seq<BodyView>, first: nat, second: nat)
    ensures
        step_all(step_all(bodies, first), second) == step_all(bodies, first + second),
{
    assert forall|i: int| 0 <= i < bodies.len() implies #[trigger] step_all(
        step_all(bodies, first),
        second,
    )[i] == step_all(bodies, first + second)[i] by {
        integration_is_additive(bodies[i], first, second);
    }
    assert(step_all(step_all(bodies, first), second) =~= step_all(bodies, first + second));
}

/// An integration over no time at all leaves the body as it was.
pub proof fn no_time_no_motion(body: BodyView)
    ensures
        integrated(body, 0) == body,
{
    assert(body.velocity.x * 0 == 0);
    assert(body.velocity.y * 0 == 0);
    assert(body.velocity.z * 0 == 0);
}

/// A body without velocity stays where it is, however long the integration.
pub proof fn no_velocity_no_motion(body: BodyView, nanos: nat)
    requires
        body.velocity == (Velocity { x: 0, y: 0, z: 0 }),
    ensures
        integrated(body, nanos) == body,
{
    assert(0 * nanos == 0);
}

/// A run of frames neither adds nor removes a body, and changes no name and
/// no velocity.
pub proof fn frames_keep_identity(bodies: Seq<BodyView>, deltas: Seq<u64>)
    ensures
        run_all(bodies, deltas).len() == bodies.len(),
        forall|i: int|
            0 <= i < bodies.len() ==> (#[trigger] run_all(bodies, deltas)[i]).name
                == bodies[i].name,
        forall|i: int|
            0 <= i < bodies.len() ==> (#[trigger] run_all(bodies, deltas)[i]).velocity
                == bodies[i].velocity,
    decreases deltas.len(),
{
    if deltas.len() > 0 {
        frames_keep_identity(bodies, deltas.drop_last());
    }
}

/// A body without velocity is left exactly as it was by any number of frames
/// of any lengths.
pub proof fn still_body_never_moves(bodies: Seq<BodyView>, deltas: Seq<u64>, id: int)
    requires
        0 <= id < bodies.len(),
        bodies[id].velocity == (Velocity { x: 0, y: 0, z: 0 }),
    ensures
        run_all(bodies, deltas).len() == bodies.len(),
        run_all(bodies, deltas)[id] == bodies[id],
    decreases deltas.len(),
{
    frames_keep_identity(bodies, deltas);
    if deltas.len() > 0 {
        still_body_never_moves(bodies, deltas.drop_last(), id);
        frames_keep_identity(bodies, deltas.drop_last());
        no_velocity_no_motion(run_all(bodies, deltas.drop_last())[id], deltas.last() as nat);
    }
}

/// A frame of no length leaves the whole world as it was.
pub proof fn empty_frame_changes_nothing(bodies: Seq<BodyView>)
    ensures
        step_all(bodies, 0) == bodies,
{
    assert forall|i: int| 0 <= i < bodies.len() implies #[trigger] step_all(bodies, 0)[i]
        == bodies[i] by {
        no_time_no_motion(bodies[i]);
    }
    assert(step_all(bodies, 0) =~= bodies);
}

/// Frames of no length leave the whole world as it was, however many there
/// are.
pub proof fn empty_frames_change_nothing(bodies: Seq<BodyView>, deltas: Seq<u64>)
    requires
        forall|k: int| 0 <= k < deltas.len() ==> deltas[k] == 0,
    ensures
        run_all(bodies, deltas) == bodies,
    decreases deltas.len(),
{
    if deltas.len() > 0 {
        empty_frames_change_nothing(bodies, deltas.drop_last());
        empty_frame_changes_nothing(bodies);
    }
}

/// Running `first` and then `second` is running the two one after the other
/// as a single run.
pub proof fn runs_compose(bodies: Seq<BodyView>, first: Seq<u64>, second: Seq<u64>)
    ensures
        run_all(run_all(bodies, first), second) == run_all(bodies, first + second),
    decreases second.len(),
{
    if second.len() == 0 {
        assert(first + second =~= first);
    } else {
        runs_compose(bodies, first, second.drop_last());
        assert((first + second).drop_last() =~= first + second.drop_last());
        assert((first + second).last() == second.last());
    }
}

/// Two runs from one start whose last reports read the same have left the
/// bodies in the same state: a report cannot pass for that of a frame before
/// or after it unless the bodies stood exactly alike then.
pub proof fn same_report_same_state(bodies: Seq<BodyView>, first: Seq<u64>, second: Seq<u64>)
    requires
        log_lines(run_all(bodies, first)) == log_lines(run_all(bodies, second)),
    ensures
        run_all(bodies, first) == run_all(bodies, second),
{
    frames_keep_identity(bodies, first);
    frames_keep_identity(bodies, second);
    report_tells_the_state(run_all(bodies, first), run_all(bodies, second));
}

} // verus!
