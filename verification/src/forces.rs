//! What acts on the disc besides the floor: gravity, and the jump and the
//! torque of the player.

use vstd::prelude::*;
use crate::body::{Body, BodyModel, Collider, ColliderModel, Vec2, Vec2Model};
use crate::error::StepError;
use crate::fixed::{div_wide, fits, in_range, scaled_div, Fixed};

verus! {

/// Default strength of gravity, in raw units (2000.0).
pub const DEFAULT_GRAVITY: i128 = 33_554_432_000;

/// A source of gravity, pulling down with the given acceleration.
#[derive(Clone, Copy, Debug, PartialEq, Eq, Structural)]
pub struct Gravity {
    pub strength: Fixed,
}

impl Default for Gravity {
    fn default() -> (g: Gravity)
        ensures
            g.strength@ == DEFAULT_GRAVITY,
    {
        Gravity { strength: Fixed { raw: DEFAULT_GRAVITY } }
    }
}

/// What the player can do to the disc.
#[derive(Clone, Copy, Debug, PartialEq, Eq, Structural)]
pub struct Player {
    /// Momentum that a jump adds, upwards.
    pub jump_impulse: Fixed,
    /// Torque that a turn key applies.
    pub torque: Fixed,
}

/// The keys of one tick.
#[derive(Clone, Copy, Debug, PartialEq, Eq, Structural)]
pub struct InputSnapshot {
    pub jump_held: bool,
    pub jump_just_pressed: bool,
    pub jump_just_released: bool,
    pub rotate_left_held: bool,
    pub rotate_right_held: bool,
    pub gravity_toggle_just_pressed: bool,
    pub gravity_toggle_just_released: bool,
}

impl InputSnapshot {
    /// No key held, pressed or released.
    pub fn idle() -> (input: InputSnapshot)
        ensures
            input == (InputSnapshot {
                jump_held: false,
                jump_just_pressed: false,
                jump_just_released: false,
                rotate_left_held: false,
                rotate_right_held: false,
                gravity_toggle_just_pressed: false,
                gravity_toggle_just_released: false,
            }),
    {
        InputSnapshot {
            jump_held: false,
            jump_just_pressed: false,
            jump_just_released: false,
            rotate_left_held: false,
            rotate_right_held: false,
            gravity_toggle_just_pressed: false,
            gravity_toggle_just_released: false,
        }
    }
}

/// Body with gravity added to its acceleration.
pub open spec fn gravity_spec(body: BodyModel, strength: int) -> BodyModel {
    BodyModel { acc: Vec2Model { x: body.acc.x, y: body.acc.y - strength }, ..body }
}

/// Whether the jump acts: the key is held and the disc is on the floor.
pub open spec fn jumps(collider: ColliderModel, input: InputSnapshot) -> bool {
    input.jump_held && collider.touching_ground
}

/// Body after the jump of the player: where it acts, the velocity gains
/// `jump_impulse / mass` upwards.
pub open spec fn player_impulse_spec(
    body: BodyModel,
    collider: ColliderModel,
    jump_impulse: int,
    input: InputSnapshot,
) -> BodyModel {
    if jumps(collider, input) {
        BodyModel {
            vel: Vec2Model { x: body.vel.x, y: body.vel.y + scaled_div(jump_impulse, body.mass) },
            ..body
        }
    } else {
        body
    }
}

/// Angular acceleration that the turn keys ask for: `torque /
/// moment_of_inertia` counter-clockwise for the left key, the same
/// clockwise for the right key, and nothing when both are held.
pub open spec fn turn_acceleration(body: BodyModel, torque: int, input: InputSnapshot) -> int {
    let one = scaled_div(torque, body.moment_of_inertia);
    (if input.rotate_left_held { one } else { 0 }) - (if input.rotate_right_held { one } else { 0 })
}

/// Body with the torque of the player added to its angular acceleration.
pub open spec fn player_force_spec(body: BodyModel, torque: int, input: InputSnapshot) -> BodyModel {
    BodyModel { angular_acc: body.angular_acc + turn_acceleration(body, torque, input), ..body }
}

/// Whether a gravity source is attached after the keys of a tick: the
/// press of the toggle key detaches it, the release attaches it again,
/// and a release in the same tick as the press wins.
pub open spec fn gravity_after_input_spec(enabled: bool, input: InputSnapshot) -> bool {
    if input.gravity_toggle_just_released {
        true
    } else if input.gravity_toggle_just_pressed {
        false
    } else {
        enabled
    }
}

/// Adds gravity to the acceleration of the body.
///
/// Fails, changing nothing, exactly when the result leaves the range.
pub fn apply_gravity(body: &mut Body, gravity: &Gravity) -> (r: Result<(), StepError>)
    requires
        old(body).wf(),
        in_range(gravity.strength@),
    ensures
        r is Ok <==> gravity_spec(old(body)@, gravity.strength@).in_range(),
        r is Ok ==> final(body)@ == gravity_spec(old(body)@, gravity.strength@) && final(
            body
        ).wf(),
        r matches Err(e) ==> e == StepError::OutOfRange && *final(body) == *old(body),
{
    let ay: i128 = body.acc.y.raw - gravity.strength.raw;
    if fits(ay) {
        body.acc = Vec2 { x: body.acc.x, y: Fixed::from_raw(ay) };
        Ok(())
    } else {
        Err(StepError::OutOfRange)
    }
}

/// Applies the jump of the player. It acts on the velocity at once, so
/// the collision solver neither rewinds nor replays it.
///
/// Fails, changing nothing, exactly when the result leaves the range.
pub fn player_impulse(body: &mut Body, collider: &Collider, player: &Player, input: &InputSnapshot) -> (r:
    Result<(), StepError>)
    requires
        old(body).wf(),
        in_range(player.jump_impulse@),
    ensures
        r is Ok <==> player_impulse_spec(old(body)@, collider@, player.jump_impulse@, *input).in_range(),
        r is Ok ==> final(body)@ == player_impulse_spec(old(body)@, collider@,
            player.jump_impulse@, *input) && final(body).wf(),
        r matches Err(e) ==> e == StepError::OutOfRange && *final(body) == *old(body),
{
    if input.jump_held && collider.touching_ground {
        let dv: i128 = div_wide(player.jump_impulse.raw, body.mass.raw);
        let vy: i128 = body.vel.y.raw + dv;
        if fits(vy) {
            body.vel = Vec2 { x: body.vel.x, y: Fixed::from_raw(vy) };
            Ok(())
        } else {
            Err(StepError::OutOfRange)
        }
    } else {
        Ok(())
    }
}

/// Adds the torque of the player to the angular acceleration.
///
/// Fails, changing nothing, exactly when the result leaves the range.
pub fn player_force(body: &mut Body, player: &Player, input: &InputSnapshot) -> (r: Result<
    (),
    StepError,
>)
    requires
        old(body).wf(),
        in_range(player.torque@),
    ensures
        r is Ok <==> player_force_spec(old(body)@, player.torque@, *input).in_range(),
        r is Ok ==> final(body)@ == player_force_spec(old(body)@, player.torque@, *input)
            && final(body).wf(),
        r matches Err(e) ==> e == StepError::OutOfRange && *final(body) == *old(body),
{
    let one: i128 = div_wide(player.torque.raw, body.moment_of_inertia.raw);
    let left: i128 = if input.rotate_left_held { one } else { 0 };
    let right: i128 = if input.rotate_right_held { one } else { 0 };
    let alpha: i128 = body.angular_acc.raw + (left - right);
    if fits(alpha) {
        body.angular_acc = Fixed::from_raw(alpha);
        Ok(())
    } else {
        Err(StepError::OutOfRange)
    }
}

/// Whether a gravity source is attached after the keys of a tick. The
/// change takes effect from the next tick on.
pub fn gravity_after_input(enabled: bool, input: &InputSnapshot) -> (next: bool)
    ensures
        next == gravity_after_input_spec(enabled, *input),
{
    if input.gravity_toggle_just_released {
        true
    } else if input.gravity_toggle_just_pressed {
        false
    } else {
        enabled
    }
}

} // verus!
