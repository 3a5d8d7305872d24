//! The collision solver: detects that the disc has sunk into the floor
//! during a tick, finds the instant within the tick at which it touched,
//! rewinds to that instant, applies restitution and impact friction, and
//! replays the rest of the tick.

use vstd::prelude::*;
use vstd::arithmetic::div_mod::lemma_fundamental_div_mod_converse;
use crate::arith::{abs, isqrt, isqrt_wide, lemma_div_bound_by, lemma_div_brackets,
    lemma_isqrt_bounds, lemma_mul_bound, lemma_round_div_sign};
use crate::body::{disc, Body, BodyModel, Collider, ColliderModel, DiscModel, Pose, PoseModel,
    Vec2, Vec2Model, FLOOR_Y};
use crate::error::StepError;
use crate::fixed::{div_wide, fits, in_range, mul_wide, scaled_div, scaled_mul, Fixed, LIMIT,
    SCALE};
use crate::friction::{apply_friction_impulse_spec, friction_change_wide,
    lemma_no_friction_without_grip};
use crate::integrator::{advanced_position, advanced_velocity, context_acc, context_angular_acc,
    integrate_simple, integrate_simple_spec, lemma_sub_step_keeps_energy, AccelContext};

verus! {

/// Time since a point at signed height `s`, moving at velocity `v` under
/// constant acceleration `a`, was at height zero: the solution `t` of
/// `s - v * t + a * t^2 / 2 = 0` that lies nearest to the present, with
/// the square root rounded down and the quotient rounded to the nearest
/// raw unit. It is `s / v` when `a` is zero. There is none when the point
/// never was at height zero under that motion, or does not move at all.
pub open spec fn collision_time(s: int, v: int, a: int) -> Option<int> {
    if a == 0 {
        if v == 0 {
            None
        } else {
            Some(scaled_div(s, v))
        }
    } else {
        let discriminant = v * v - 2 * a * s;
        if discriminant < 0 {
            None
        } else {
            let root = isqrt(discriminant as nat) as int;
            let directed = if v >= 0 { root } else { -root };
            Some(scaled_div(v - directed, a))
        }
    }
}

/// Computes the time since the surface of the disc crossed the floor,
/// from its signed height above the floor, its vertical velocity and its
/// vertical acceleration. A negative result means that the crossing lies
/// ahead. Without acceleration the result is within half a raw unit of
/// `s / v`.
pub fn calculate_collision_dt(s: Fixed, v: Fixed, a: Fixed) -> (t: Option<Fixed>)
    requires
        in_range(s@),
        in_range(v@),
        in_range(a@),
    ensures
        t is Some <==> collision_time(s@, v@, a@) is Some,
        t matches Some(x) ==> collision_time(s@, v@, a@) == Some(x@),
        t matches Some(x) ==> a@ == 0 ==> 2 * abs(x@ * v@ - s@ * SCALE) <= abs(v@),
{
    if a.raw == 0 {
        if v.raw == 0 {
            None
        } else {
            Some(Fixed { raw: div_wide(s.raw, v.raw) })
        }
    } else {
        proof {
            lemma_mul_bound(v@, v@, LIMIT as int, LIMIT as int);
            lemma_mul_bound(a@, s@, LIMIT as int, LIMIT as int);
        }
        let discriminant: i128 = v.raw * v.raw - 2 * (a.raw * s.raw);
        assert(discriminant == v@ * v@ - 2 * a@ * s@) by (nonlinear_arith)
            requires
                discriminant == v@ * v@ - 2 * (a@ * s@),
        ;
        if discriminant < 0 {
            None
        } else {
            let root: i128 = isqrt_wide(discriminant);
            proof {
                lemma_isqrt_bounds(discriminant as nat);
                assert(root <= 2 * LIMIT) by (nonlinear_arith)
                    requires
                        root >= 0,
                        root * root <= discriminant,
                        discriminant <= 3 * (LIMIT * LIMIT),
                        LIMIT > 0,
                ;
            }
            let directed: i128 = if v.raw >= 0 { root } else { -root };
            let gap: i128 = v.raw - directed;
            Some(Fixed { raw: div_wide(gap, a.raw) })
        }
    }
}

/// Signed height of the lowest point of the disc above the floor.
pub open spec fn height_above_floor(pose: PoseModel, radius: int) -> int {
    pose.position.y - radius - FLOOR_Y
}

/// Whether the disc touches or has sunk into the floor.
pub open spec fn penetrating(pose: PoseModel, radius: int) -> bool {
    height_above_floor(pose, radius) <= 0
}

/// Normal impulse of an impact, per unit of mass: what turns the
/// vertical velocity `v` into `-restitution * v`.
pub open spec fn normal_impulse(v: int, restitution: int) -> int {
    scaled_mul(-v, SCALE + restitution)
}

/// Vertical velocity after an impact: reversed and scaled by the
/// restitution.
pub open spec fn rebound(v: int, restitution: int) -> int {
    scaled_mul(v, -restitution)
}

/// Body after an impact at the instant of contact: impact friction under
/// the normal impulse, then the rebound of the vertical velocity.
pub open spec fn impact_spec(
    body: BodyModel,
    radius: int,
    restitution: int,
    kinetic_friction: int,
) -> BodyModel {
    let rubbed = apply_friction_impulse_spec(body, radius, normal_impulse(body.vel.y,
        restitution), kinetic_friction, 0);
    BodyModel {
        vel: Vec2Model { x: rubbed.vel.x, y: rebound(body.vel.y, restitution) },
        ..rubbed
    }
}

/// A pose and a body, if both are in range.
pub open spec fn checked(motion: (PoseModel, BodyModel)) -> Result<
    (PoseModel, BodyModel),
    StepError,
> {
    if motion.0.in_range() && motion.1.in_range() {
        Ok(motion)
    } else {
        Err(StepError::OutOfRange)
    }
}

/// Rewinds by `t` to the instant of contact, applies the impact and
/// replays `t`, all under the acceleration that `context` selects.
pub open spec fn rewind_replay_spec(
    pose: PoseModel,
    body: BodyModel,
    radius: int,
    restitution: int,
    kinetic_friction: int,
    t: int,
    context: AccelContext,
) -> Result<(PoseModel, BodyModel), StepError> {
    match checked(integrate_simple_spec(pose, body, -t, context)) {
        Err(e) => Err(e),
        Ok(back) => {
            let hit = impact_spec(back.1, radius, restitution, kinetic_friction);
            if !hit.in_range() {
                Err(StepError::OutOfRange)
            } else {
                checked(integrate_simple_spec(back.0, hit, t, context))
            }
        },
    }
}

/// The second attempt of a bounce, for a contact that fell into the first
/// half of the tick, which ran under the previous acceleration: rewind to
/// the middle of the tick, find the contact from there, resolve it under
/// the previous acceleration and replay the second half.
pub open spec fn bounce_from_midpoint_spec(
    pose: PoseModel,
    body: BodyModel,
    radius: int,
    restitution: int,
    kinetic_friction: int,
    dt: int,
) -> Result<(PoseModel, BodyModel), StepError> {
    match checked(integrate_simple_spec(pose, body, -(dt / 2), AccelContext::Current)) {
        Err(e) => Err(e),
        Ok(mid) => {
            let s = height_above_floor(mid.0, radius);
            if !in_range(s) {
                Err(StepError::OutOfRange)
            } else {
                match collision_time(s, mid.1.vel.y, mid.1.acc_prev.y) {
                    None => Err(StepError::NegativeCollisionTime),
                    Some(t) => if t < 0 {
                        Err(StepError::NegativeCollisionTime)
                    } else if !in_range(t) {
                        Err(StepError::OutOfRange)
                    } else {
                        match rewind_replay_spec(mid.0, mid.1, radius, restitution,
                            kinetic_friction, t, AccelContext::Previous) {
                            Err(e) => Err(e),
                            Ok(done) => checked(integrate_simple_spec(done.0, done.1, dt / 2,
                                AccelContext::Current)),
                        }
                    },
                }
            }
        },
    }
}

/// One bounce of a disc that has sunk into the floor during the tick
/// that `dt` ends.
///
/// The time since contact is found from the state at the end of the tick.
/// If it lies within the second half of the tick, which ran under the
/// current acceleration, the motion is rewound to the contact, the impact
/// applied and the rest replayed. If there is no such time, or it reaches
/// back beyond the middle of the tick, the contact is resolved from the
/// middle of the tick under the previous acceleration.
pub open spec fn bounce_spec(
    pose: PoseModel,
    body: BodyModel,
    radius: int,
    restitution: int,
    kinetic_friction: int,
    dt: int,
) -> Result<(PoseModel, BodyModel), StepError> {
    let s = height_above_floor(pose, radius);
    if !in_range(s) {
        Err(StepError::OutOfRange)
    } else {
        match collision_time(s, body.vel.y, body.acc.y) {
            Some(t) if t <= dt / 2 => if t < 0 {
                Err(StepError::NegativeCollisionTime)
            } else {
                rewind_replay_spec(pose, body, radius, restitution, kinetic_friction, t,
                    AccelContext::Current)
            },
            _ => bounce_from_midpoint_spec(pose, body, radius, restitution, kinetic_friction, dt),
        }
    }
}

/// Applies an impact at the instant of contact: impact friction under
/// the normal impulse, then the rebound of the vertical velocity.
///
/// Fails, changing nothing, exactly when a result leaves the range.
pub fn impact(body: &mut Body, radius: Fixed, restitution: Fixed, kinetic_friction: Fixed) -> (r:
    Result<(), StepError>)
    requires
        old(body).wf(),
        0 < radius@ <= LIMIT,
        0 <= restitution@ <= SCALE,
        in_range(kinetic_friction@),
    ensures
        r is Ok <==> impact_spec(old(body)@, radius@, restitution@, kinetic_friction@).in_range(),
        r is Ok ==> final(body)@ == impact_spec(old(body)@, radius@, restitution@,
            kinetic_friction@) && final(body).wf(),
        r matches Err(e) ==> e == StepError::OutOfRange && *final(body) == *old(body),
{
    let vy: i128 = body.vel.y.raw;
    proof {
        lemma_mul_bound(-vy, SCALE + restitution@, LIMIT as int, 2 * SCALE);
        lemma_div_bound_by((-vy) * (SCALE + restitution@), SCALE as int, 2 * LIMIT);
        lemma_mul_bound(vy as int, -restitution@, LIMIT as int, SCALE as int);
    }
    let push: i128 = mul_wide(-vy, SCALE + restitution.raw);
    match friction_change_wide(body, radius, body.vel.x, body.angular_vel, push,
        kinetic_friction, Fixed::zero()) {
        None => Err(StepError::OutOfRange),
        Some(change) => {
            let vx: i128 = body.vel.x.raw + change.0;
            let w: i128 = body.angular_vel.raw + change.1;
            let up: i128 = mul_wide(vy, -restitution.raw);
            if fits(vx) && fits(w) && fits(up) {
                body.vel = Vec2 { x: Fixed::from_raw(vx), y: Fixed::from_raw(up) };
                body.angular_vel = Fixed::from_raw(w);
                Ok(())
            } else {
                Err(StepError::OutOfRange)
            }
        },
    }
}

/// Rewinds to the contact, applies the impact and replays. On failure
/// the pose and the body are left in an intermediate state.
fn rewind_replay(
    t: Fixed,
    pose: &mut Pose,
    body: &mut Body,
    radius: Fixed,
    restitution: Fixed,
    kinetic_friction: Fixed,
    context: AccelContext,
) -> (r: Result<(), StepError>)
    requires
        0 <= t@ <= LIMIT,
        old(pose).wf(),
        old(body).wf(),
        0 < radius@ <= LIMIT,
        0 <= restitution@ <= SCALE,
        in_range(kinetic_friction@),
    ensures
        r is Ok ==> rewind_replay_spec(old(pose)@, old(body)@, radius@, restitution@,
            kinetic_friction@, t@, context) == Ok::<(PoseModel, BodyModel), StepError>(
            (final(pose)@, final(body)@),
        ) && final(pose).wf() && final(body).wf(),
        r matches Err(e) ==> rewind_replay_spec(old(pose)@, old(body)@, radius@, restitution@,
            kinetic_friction@, t@, context) == Err::<(PoseModel, BodyModel), StepError>(e),
{
    let back: Fixed = Fixed { raw: -t.raw };
    match integrate_simple(back, pose, body, context) {
        Err(e) => {
            return Err(e);
        },
        Ok(()) => {},
    }
    match impact(body, radius, restitution, kinetic_friction) {
        Err(e) => {
            return Err(e);
        },
        Ok(()) => {},
    }
    integrate_simple(t, pose, body, context)
}

/// Signed height of the lowest point of the disc above the floor.
fn height(pose: &Pose, radius: Fixed) -> (s: i128)
    requires
        pose.wf(),
        in_range(radius@),
    ensures
        s == height_above_floor(pose@, radius@),
{
    pose.position.y.raw - radius.raw - FLOOR_Y
}

/// Resolves a contact from the middle of the tick. On failure the pose
/// and the body are left in an intermediate state.
fn bounce_from_midpoint(
    dt: Fixed,
    pose: &mut Pose,
    body: &mut Body,
    radius: Fixed,
    restitution: Fixed,
    kinetic_friction: Fixed,
) -> (r: Result<(), StepError>)
    requires
        0 <= dt@ <= LIMIT,
        old(pose).wf(),
        old(body).wf(),
        0 < radius@ <= LIMIT,
        0 <= restitution@ <= SCALE,
        in_range(kinetic_friction@),
    ensures
        r is Ok ==> bounce_from_midpoint_spec(old(pose)@, old(body)@, radius@, restitution@,
            kinetic_friction@, dt@) == Ok::<(PoseModel, BodyModel), StepError>(
            (final(pose)@, final(body)@),
        ) && final(pose).wf() && final(body).wf(),
        r matches Err(e) ==> bounce_from_midpoint_spec(old(pose)@, old(body)@, radius@,
            restitution@, kinetic_friction@, dt@) == Err::<(PoseModel, BodyModel), StepError>(e),
{
    let half: Fixed = Fixed { raw: dt.raw / 2 };
    let back: Fixed = Fixed { raw: -half.raw };
    match integrate_simple(back, pose, body, AccelContext::Current) {
        Err(e) => {
            return Err(e);
        },
        Ok(()) => {},
    }
    let s: i128 = height(pose, radius);
    if !fits(s) {
        return Err(StepError::OutOfRange);
    }
    match calculate_collision_dt(Fixed::from_raw(s), body.vel.y, body.acc_prev.y) {
        None => Err(StepError::NegativeCollisionTime),
        Some(t) => {
            if t.raw < 0 {
                Err(StepError::NegativeCollisionTime)
            } else if !t.is_in_range() {
                Err(StepError::OutOfRange)
            } else {
                match rewind_replay(t, pose, body, radius, restitution, kinetic_friction,
                    AccelContext::Previous) {
                    Err(e) => Err(e),
                    Ok(()) => integrate_simple(half, pose, body, AccelContext::Current),
                }
            }
        },
    }
}

/// Resolves one bounce where the solver applies, and says so where it
/// does not. Fails without changing anything.
fn bounce_checked(
    dt: Fixed,
    pose: &mut Pose,
    body: &mut Body,
    radius: Fixed,
    restitution: Fixed,
    kinetic_friction: Fixed,
) -> (r: Result<(), StepError>)
    requires
        0 <= dt@ <= LIMIT,
        old(pose).wf(),
        old(body).wf(),
        0 < radius@ <= LIMIT,
        0 <= restitution@ <= SCALE,
        in_range(kinetic_friction@),
    ensures
        r is Ok ==> bounce_spec(old(pose)@, old(body)@, radius@, restitution@, kinetic_friction@,
            dt@) == Ok::<(PoseModel, BodyModel), StepError>((final(pose)@, final(body)@))
            && final(pose).wf() && final(body).wf(),
        r matches Err(e) ==> bounce_spec(old(pose)@, old(body)@, radius@, restitution@,
            kinetic_friction@, dt@) == Err::<(PoseModel, BodyModel), StepError>(e)
            && *final(pose) == *old(pose) && *final(body) == *old(body),
{
    let mut p: Pose = *pose;
    let mut b: Body = *body;
    let s: i128 = height(&p, radius);
    if !fits(s) {
        return Err(StepError::OutOfRange);
    }
    let half: i128 = dt.raw / 2;
    let outcome: Result<(), StepError> = match calculate_collision_dt(Fixed::from_raw(s), b.vel.y, b.acc.y) {
        Some(t) => {
            if t.raw <= half {
                if t.raw < 0 {
                    Err(StepError::NegativeCollisionTime)
                } else {
                    rewind_replay(t, &mut p, &mut b, radius, restitution, kinetic_friction,
                        AccelContext::Current)
                }
            } else {
                bounce_from_midpoint(dt, &mut p, &mut b, radius, restitution, kinetic_friction)
            }
        },
        None => bounce_from_midpoint(dt, &mut p, &mut b, radius, restitution, kinetic_friction),
    };
    match outcome {
        Ok(()) => {
            *pose = p;
            *body = b;
            Ok(())
        },
        Err(e) => Err(e),
    }
}

/// The disc set down on the floor: its lowest point at floor height, its
/// vertical velocity zero.
pub open spec fn settled(d: DiscModel) -> DiscModel {
    DiscModel {
        pose: PoseModel {
            position: Vec2Model { x: d.pose.position.x, y: FLOOR_Y + d.collider.radius },
            ..d.pose
        },
        body: BodyModel { vel: Vec2Model { x: d.body.vel.x, y: 0 }, ..d.body },
        collider: d.collider,
    }
}

/// What resolving a contact does: a disc that was on the floor already is
/// set down on it; one that arrives from the air bounces once and is on
/// the floor from then on.
pub open spec fn resolve_collision_spec(d: DiscModel, dt: int) -> Result<DiscModel, StepError> {
    if d.collider.touching_ground {
        Ok(settled(d))
    } else {
        match bounce_spec(d.pose, d.body, d.collider.radius, d.collider.restitution,
            d.collider.kinetic_friction, dt) {
            Err(e) => Err(e),
            Ok(motion) => Ok(
                DiscModel {
                    pose: motion.0,
                    body: motion.1,
                    collider: ColliderModel { touching_ground: true, ..d.collider },
                },
            ),
        }
    }
}

/// What the collision stage does: a disc that touches or has sunk into
/// the floor has its contact resolved; one that is clear of the floor is
/// in the air.
pub open spec fn collision_spec(d: DiscModel, dt: int) -> Result<DiscModel, StepError> {
    if penetrating(d.pose, d.collider.radius) {
        resolve_collision_spec(d, dt)
    } else {
        Ok(DiscModel { collider: ColliderModel { touching_ground: false, ..d.collider }, ..d })
    }
}

/// Resolves a contact where the solver applies, and says so where it
/// does not. Fails without changing anything.
fn resolve_collision_checked(dt: Fixed, pose: &mut Pose, body: &mut Body, collider: &mut Collider) -> (r:
    Result<(), StepError>)
    requires
        0 <= dt@ <= LIMIT,
        old(pose).wf(),
        old(body).wf(),
        old(collider).wf(),
    ensures
        r is Ok ==> resolve_collision_spec(disc(old(pose)@, old(body)@, old(collider)@), dt@)
            == Ok::<DiscModel, StepError>(disc(final(pose)@, final(body)@, final(collider)@))
            && final(pose).wf() && final(body).wf() && final(collider).wf(),
        r matches Err(e) ==> resolve_collision_spec(disc(old(pose)@, old(body)@, old(collider)@),
            dt@) == Err::<DiscModel, StepError>(e) && *final(pose) == *old(pose) && *final(body)
            == *old(body) && *final(collider) == *old(collider),
{
    if collider.touching_ground {
        pose.position = Vec2 {
            x: pose.position.x,
            y: Fixed { raw: FLOOR_Y + collider.radius.raw },
        };
        body.vel = Vec2 { x: body.vel.x, y: Fixed::zero() };
        Ok(())
    } else {
        match bounce_checked(dt, pose, body, collider.radius, collider.restitution,
            collider.kinetic_friction) {
            Err(e) => Err(e),
            Ok(()) => {
                collider.touching_ground = true;
                Ok(())
            },
        }
    }
}

/// Runs the collision stage where the solver applies, and says so where
/// it does not. Fails without changing anything.
pub(crate) fn collision_checked(dt: Fixed, pose: &mut Pose, body: &mut Body, collider: &mut Collider) -> (r:
    Result<(), StepError>)
    requires
        0 <= dt@ <= LIMIT,
        old(pose).wf(),
        old(body).wf(),
        old(collider).wf(),
    ensures
        r is Ok ==> collision_spec(disc(old(pose)@, old(body)@, old(collider)@), dt@)
            == Ok::<DiscModel, StepError>(disc(final(pose)@, final(body)@, final(collider)@))
            && final(pose).wf() && final(body).wf() && final(collider).wf(),
        r matches Err(e) ==> collision_spec(disc(old(pose)@, old(body)@, old(collider)@), dt@)
            == Err::<DiscModel, StepError>(e) && *final(pose) == *old(pose) && *final(body)
            == *old(body) && *final(collider) == *old(collider),
{
    if height(pose, collider.radius) <= 0 {
        resolve_collision_checked(dt, pose, body, collider)
    } else {
        collider.touching_ground = false;
        Ok(())
    }
}

/// Whether the solver applies to a bounce: the time since contact, where
/// the solver needs it, is defined and not negative.
pub open spec fn bounce_applies_spec(
    pose: PoseModel,
    body: BodyModel,
    radius: int,
    restitution: int,
    kinetic_friction: int,
    dt: int,
) -> bool {
    !(bounce_spec(pose, body, radius, restitution, kinetic_friction, dt) matches Err(
        StepError::NegativeCollisionTime,
    ))
}

/// Whether the solver applies to the contact of a disc.
pub open spec fn resolve_collision_applies_spec(d: DiscModel, dt: int) -> bool {
    !(resolve_collision_spec(d, dt) matches Err(StepError::NegativeCollisionTime))
}

/// Whether the solver applies to the collision stage of a disc.
pub open spec fn collision_applies_spec(d: DiscModel, dt: int) -> bool {
    !(collision_spec(d, dt) matches Err(StepError::NegativeCollisionTime))
}

/// Tests whether `bounce` may be called on this state.
pub fn bounce_applies(
    dt: Fixed,
    pose: &Pose,
    body: &Body,
    radius: Fixed,
    restitution: Fixed,
    kinetic_friction: Fixed,
) -> (b: bool)
    requires
        0 <= dt@ <= LIMIT,
        pose.wf(),
        body.wf(),
        0 < radius@ <= LIMIT,
        0 <= restitution@ <= SCALE,
        in_range(kinetic_friction@),
    ensures
        b == bounce_applies_spec(pose@, body@, radius@, restitution@, kinetic_friction@, dt@),
{
    let mut p: Pose = *pose;
    let mut q: Body = *body;
    match bounce_checked(dt, &mut p, &mut q, radius, restitution, kinetic_friction) {
        Err(StepError::NegativeCollisionTime) => false,
        _ => true,
    }
}

/// Resolves one bounce of a disc that has sunk into the floor during the
/// tick that `dt` ends. A single bounce is resolved; a disc that would
/// bounce again within the same tick is left to the following ticks.
///
/// The solver must apply to the state: a disc whose contact with the
/// floor lies ahead, or cannot be found, is not one to bounce. Fails,
/// changing nothing, exactly when a result leaves the range.
pub fn bounce(
    dt: Fixed,
    pose: &mut Pose,
    body: &mut Body,
    radius: Fixed,
    restitution: Fixed,
    kinetic_friction: Fixed,
) -> (r: Result<(), StepError>)
    requires
        0 <= dt@ <= LIMIT,
        old(pose).wf(),
        old(body).wf(),
        0 < radius@ <= LIMIT,
        0 <= restitution@ <= SCALE,
        in_range(kinetic_friction@),
        bounce_applies_spec(old(pose)@, old(body)@, radius@, restitution@, kinetic_friction@, dt@),
    ensures
        r is Ok ==> bounce_spec(old(pose)@, old(body)@, radius@, restitution@, kinetic_friction@,
            dt@) == Ok::<(PoseModel, BodyModel), StepError>((final(pose)@, final(body)@))
            && final(pose).wf() && final(body).wf(),
        r matches Err(e) ==> e == StepError::OutOfRange && bounce_spec(old(pose)@, old(body)@,
            radius@, restitution@, kinetic_friction@, dt@) == Err::<
            (PoseModel, BodyModel),
            StepError,
        >(e) && *final(pose) == *old(pose) && *final(body) == *old(body),
{
    bounce_checked(dt, pose, body, radius, restitution, kinetic_friction)
}

/// Tests whether `resolve_collision` may be called on this state.
pub fn resolve_collision_applies(dt: Fixed, pose: &Pose, body: &Body, collider: &Collider) -> (b:
    bool)
    requires
        0 <= dt@ <= LIMIT,
        pose.wf(),
        body.wf(),
        collider.wf(),
    ensures
        b == resolve_collision_applies_spec(disc(pose@, body@, collider@), dt@),
{
    let mut p: Pose = *pose;
    let mut q: Body = *body;
    let mut c: Collider = *collider;
    match resolve_collision_checked(dt, &mut p, &mut q, &mut c) {
        Err(StepError::NegativeCollisionTime) => false,
        _ => true,
    }
}

/// Resolves the contact of a disc that touches or has sunk into the
/// floor.
///
/// The solver must apply to the state. Fails, changing nothing, exactly
/// when a result leaves the range.
pub fn resolve_collision(dt: Fixed, pose: &mut Pose, body: &mut Body, collider: &mut Collider) -> (r:
    Result<(), StepError>)
    requires
        0 <= dt@ <= LIMIT,
        old(pose).wf(),
        old(body).wf(),
        old(collider).wf(),
        resolve_collision_applies_spec(disc(old(pose)@, old(body)@, old(collider)@), dt@),
    ensures
        r is Ok ==> resolve_collision_spec(disc(old(pose)@, old(body)@, old(collider)@), dt@)
            == Ok::<DiscModel, StepError>(disc(final(pose)@, final(body)@, final(collider)@))
            && final(pose).wf() && final(body).wf() && final(collider).wf(),
        r matches Err(e) ==> e == StepError::OutOfRange && resolve_collision_spec(
            disc(old(pose)@, old(body)@, old(collider)@),
            dt@,
        ) == Err::<DiscModel, StepError>(e) && *final(pose) == *old(pose) && *final(body)
            == *old(body) && *final(collider) == *old(collider),
{
    resolve_collision_checked(dt, pose, body, collider)
}

/// Tests whether `collision` may be called on this state.
pub fn collision_applies(dt: Fixed, pose: &Pose, body: &Body, collider: &Collider) -> (b: bool)
    requires
        0 <= dt@ <= LIMIT,
        pose.wf(),
        body.wf(),
        collider.wf(),
    ensures
        b == collision_applies_spec(disc(pose@, body@, collider@), dt@),
{
    let mut p: Pose = *pose;
    let mut q: Body = *body;
    let mut c: Collider = *collider;
    match collision_checked(dt, &mut p, &mut q, &mut c) {
        Err(StepError::NegativeCollisionTime) => false,
        _ => true,
    }
}

/// The collision stage of a tick. It runs after the second half of the
/// integrator.
///
/// The solver must apply to the state. Fails, changing nothing, exactly
/// when a result leaves the range.
pub fn collision(dt: Fixed, pose: &mut Pose, body: &mut Body, collider: &mut Collider) -> (r:
    Result<(), StepError>)
    requires
        0 <= dt@ <= LIMIT,
        old(pose).wf(),
        old(body).wf(),
        old(collider).wf(),
        collision_applies_spec(disc(old(pose)@, old(body)@, old(collider)@), dt@),
    ensures
        r is Ok ==> collision_spec(disc(old(pose)@, old(body)@, old(collider)@), dt@)
            == Ok::<DiscModel, StepError>(disc(final(pose)@, final(body)@, final(collider)@))
            && final(pose).wf() && final(body).wf() && final(collider).wf(),
        r matches Err(e) ==> e == StepError::OutOfRange && collision_spec(
            disc(old(pose)@, old(body)@, old(collider)@),
            dt@,
        ) == Err::<DiscModel, StepError>(e) && *final(pose) == *old(pose) && *final(body)
            == *old(body) && *final(collider) == *old(collider),
{
    collision_checked(dt, pose, body, collider)
}

/// A bounce reverses the vertical velocity and keeps the fraction of it
/// that the restitution names: the velocity after the impact has the
/// opposite sign, or is zero; it is `restitution * -v`, rounded down to
/// a raw unit, and no larger in magnitude than before.
pub proof fn lemma_bounce_reverses(
    body: BodyModel,
    radius: int,
    restitution: int,
    kinetic_friction: int,
)
    requires
        0 <= restitution <= SCALE,
    ensures
        ({
            let v_in = body.vel.y;
            let v_out = impact_spec(body, radius, restitution, kinetic_friction).vel.y;
            &&& v_in <= 0 ==> 0 <= v_out <= -v_in
            &&& v_in >= 0 ==> -v_in <= v_out <= 0
            &&& v_out * SCALE <= restitution * -v_in < v_out * SCALE + SCALE
        }),
{
    let v_in = body.vel.y;
    let v_out = rebound(v_in, restitution);
    lemma_div_brackets(v_in * -restitution, SCALE as int);
    assert(v_in * -restitution == restitution * -v_in) by (nonlinear_arith);
    assert(v_in <= 0 ==> 0 <= restitution * -v_in <= -v_in * SCALE) by (nonlinear_arith)
        requires
            0 <= restitution <= SCALE,
    ;
    assert(v_in >= 0 ==> -v_in * SCALE <= restitution * -v_in <= 0) by (nonlinear_arith)
        requires
            0 <= restitution <= SCALE,
    ;
}

/// A disc that has fallen into the floor touched it in the past: for a
/// height at or below the floor and a downward velocity, the time since
/// contact, where there is one, is not negative.
pub proof fn lemma_contact_of_a_falling_disc_lies_behind(s: int, v: int, a: int)
    requires
        s <= 0,
        v < 0,
    ensures
        collision_time(s, v, a) matches Some(t) ==> t >= 0,
{
    let scale = SCALE as int;
    if a == 0 {
        assert((-s) * scale >= 0) by (nonlinear_arith)
            requires
                s <= 0,
                scale > 0,
        ;
        lemma_round_div_sign((-s) * scale, -v);
    } else {
        let discriminant = v * v - 2 * a * s;
        if discriminant >= 0 {
            let root = isqrt(discriminant as nat) as int;
            lemma_isqrt_bounds(discriminant as nat);
            let gap = v + root;
            if a < 0 {
                // The discriminant is at most v^2, so the root at most |v|.
                assert(gap <= 0) by (nonlinear_arith)
                    requires
                        gap == v + root,
                        root >= 0,
                        v < 0,
                        root * root <= discriminant,
                        discriminant == v * v - 2 * a * s,
                        a < 0,
                        s <= 0,
                ;
                assert((-gap) * scale >= 0) by (nonlinear_arith)
                    requires
                        gap <= 0,
                        scale > 0,
                ;
                lemma_round_div_sign((-gap) * scale, -a);
            } else {
                // The discriminant is at least v^2, so the root at least |v|.
                assert(gap >= 0) by (nonlinear_arith)
                    requires
                        gap == v + root,
                        root >= 0,
                        v < 0,
                        discriminant < (root + 1) * (root + 1),
                        discriminant == v * v - 2 * a * s,
                        a > 0,
                        s <= 0,
                ;
                assert(gap * scale >= 0) by (nonlinear_arith)
                    requires
                        gap >= 0,
                        scale > 0,
                ;
                lemma_round_div_sign(gap * scale, a);
            }
        }
    }
}

/// Twice the energy of the vertical motion per unit of mass, in raw
/// units squared: `v^2 + 2 * g * y`.
pub open spec fn vertical_energy(pose: PoseModel, body: BodyModel, g: int) -> int {
    body.vel.y * body.vel.y + 2 * (g * pose.position.y)
}

/// An elastic impact without friction turns the vertical velocity round
/// and changes nothing else.
pub proof fn lemma_elastic_impact(body: BodyModel, radius: int)
    requires
        body.mass > 0,
        body.moment_of_inertia > 0,
        radius > 0,
    ensures
        impact_spec(body, radius, SCALE as int, 0) == (BodyModel {
            vel: Vec2Model { x: body.vel.x, y: -body.vel.y },
            ..body
        }),
{
    let v = body.vel.y;
    lemma_no_friction_without_grip(body, radius, body.vel.x, body.angular_vel,
        normal_impulse(v, SCALE as int));
    assert(v * -(SCALE as int) == (-v) * SCALE + 0) by (nonlinear_arith);
    lemma_fundamental_div_mod_converse(v * -(SCALE as int), SCALE as int, -v, 0);
}

/// An elastic bounce without friction keeps the energy, up to rounding.
/// Where the solver rewinds by `t` to the contact, turns the vertical
/// velocity `v` round and replays `t`, all under gravity `g` alone, the
/// horizontal and the angular velocity are as before, and `v^2 + 2 * g *
/// y` has changed by no more than `4 * |v| + 4 * g * t + 4 * g + 1` raw
/// units.
pub proof fn lemma_elastic_bounce_keeps_energy(
    pose: PoseModel,
    body: BodyModel,
    radius: int,
    t: int,
    context: AccelContext,
    g: int,
)
    requires
        body.mass > 0,
        body.moment_of_inertia > 0,
        radius > 0,
        g >= 0,
        t >= 0,
        context_acc(body, context) == (Vec2Model { x: 0, y: -g }),
        context_angular_acc(body, context) == 0,
        rewind_replay_spec(pose, body, radius, SCALE as int, 0, t, context) is Ok,
    ensures
        ({
            let after = rewind_replay_spec(pose, body, radius, SCALE as int, 0, t, context)->Ok_0;
            let change = vertical_energy(after.0, after.1, g) - vertical_energy(pose, body, g);
            &&& after.1.vel.x == body.vel.x
            &&& after.1.angular_vel == body.angular_vel
            &&& abs(change) <= 4 * abs(body.vel.y) + 4 * scaled_mul(g, t) + 4 * g + 1
            &&& abs(after.1.vel.y) <= abs(body.vel.y) + 2 * scaled_mul(g, t) + 1
            &&& scaled_mul(g, t) >= 0
            &&& after.1.acc == body.acc
            &&& after.1.acc_prev == body.acc_prev
            &&& after.1.angular_acc == body.angular_acc
            &&& after.1.angular_acc_prev == body.angular_acc_prev
        }),
{
    let y0 = pose.position.y;
    let v0 = body.vel.y;
    let back = integrate_simple_spec(pose, body, -t, context);
    let y1 = back.0.position.y;
    let v1 = back.1.vel.y;
    assert(0 * (-t) == 0 && 0 * t == 0) by (nonlinear_arith);
    assert(back.1.vel.x == body.vel.x && back.1.angular_vel == body.angular_vel);
    assert(v1 == advanced_velocity(v0, -g, -t) && y1 == advanced_position(y0, v0, -g, -t));
    lemma_sub_step_keeps_energy(y0, v0, g, -t);
    lemma_elastic_impact(back.1, radius);
    let hit = impact_spec(back.1, radius, SCALE as int, 0);
    assert(hit.vel.y == -v1);
    assert(context_acc(hit, context) == context_acc(body, context));
    assert(context_angular_acc(hit, context) == 0);
    let after = integrate_simple_spec(back.0, hit, t, context);
    let y3 = after.0.position.y;
    let v3 = after.1.vel.y;
    assert(v3 == advanced_velocity(-v1, -g, t) && y3 == advanced_position(y1, -v1, -g, t));
    assert(after.1.vel.x == body.vel.x && after.1.angular_vel == body.angular_vel);
    lemma_sub_step_keeps_energy(y1, -v1, g, t);
    assert((-v1) * (-v1) == v1 * v1) by (nonlinear_arith);
    // The speeds along the way.
    let a = scaled_mul(g, t);
    let b = scaled_mul(-g, t);
    assert((-g) * (-t) == g * t && (-g) * t == -(g * t)) by (nonlinear_arith);
    assert(g * t >= 0) by (nonlinear_arith)
        requires
            g >= 0,
            t >= 0,
    ;
    lemma_div_brackets(g * t, SCALE as int);
    lemma_div_brackets(-(g * t), SCALE as int);
    assert(v1 == v0 + a);
    assert(v3 == -v1 + b);
    assert(a >= 0 && -a - 1 <= b <= -a) by (nonlinear_arith)
        requires
            a * SCALE <= g * t < a * SCALE + SCALE,
            b * SCALE <= -(g * t) < b * SCALE + SCALE,
            g * t >= 0,
            SCALE > 0,
    ;
    assert(rewind_replay_spec(pose, body, radius, SCALE as int, 0, t, context)->Ok_0 == after);
}

/// The time since contact found from the middle of the tick, or zero
/// where there is none.
pub open spec fn contact_time_from_midpoint(
    pose: PoseModel,
    body: BodyModel,
    radius: int,
    dt: int,
) -> int {
    let mid = integrate_simple_spec(pose, body, -(dt / 2), AccelContext::Current);
    match collision_time(height_above_floor(mid.0, radius), mid.1.vel.y, mid.1.acc_prev.y) {
        Some(t) => t,
        None => 0,
    }
}

/// Half a sub-step of gravity changes the velocity by `g * t`, rounded.
proof fn lemma_gravity_sub_step(g: int, t: int)
    requires
        g >= 0,
        t >= 0,
    ensures
        scaled_mul(g, t) >= 0,
        scaled_mul(-g, -t) == scaled_mul(g, t),
        -scaled_mul(g, t) - 1 <= scaled_mul(-g, t) <= -scaled_mul(g, t),
        scaled_mul(0, t) == 0,
        scaled_mul(0, -t) == 0,
{
    let a = scaled_mul(g, t);
    let b = scaled_mul(-g, t);
    assert((-g) * (-t) == g * t && (-g) * t == -(g * t) && 0 * t == 0 && 0 * (-t) == 0)
        by (nonlinear_arith);
    assert(g * t >= 0) by (nonlinear_arith)
        requires
            g >= 0,
            t >= 0,
    ;
    lemma_div_brackets(g * t, SCALE as int);
    lemma_div_brackets(-(g * t), SCALE as int);
    assert(a >= 0 && -a - 1 <= b <= -a) by (nonlinear_arith)
        requires
            a * SCALE <= g * t < a * SCALE + SCALE,
            b * SCALE <= -(g * t) < b * SCALE + SCALE,
            g * t >= 0,
            SCALE > 0,
    ;
}

/// The elastic bounce from the middle of the tick keeps the energy, up
/// to rounding.
proof fn lemma_elastic_bounce_from_midpoint(
    pose: PoseModel,
    body: BodyModel,
    radius: int,
    dt: int,
    g: int,
)
    requires
        body.mass > 0,
        body.moment_of_inertia > 0,
        radius > 0,
        g >= 0,
        dt >= 0,
        body.acc == (Vec2Model { x: 0, y: -g }),
        body.acc_prev == (Vec2Model { x: 0, y: -g }),
        body.angular_acc == 0,
        body.angular_acc_prev == 0,
        bounce_from_midpoint_spec(pose, body, radius, SCALE as int, 0, dt) is Ok,
    ensures
        ({
            let after = bounce_from_midpoint_spec(pose, body, radius, SCALE as int, 0, dt)->Ok_0;
            let change = vertical_energy(after.0, after.1, g) - vertical_energy(pose, body, g);
            let t = contact_time_from_midpoint(pose, body, radius, dt);
            &&& after.1.vel.x == body.vel.x
            &&& after.1.angular_vel == body.angular_vel
            &&& abs(change) <= 8 * abs(body.vel.y) + 8 * scaled_mul(g, dt / 2) + 8 * scaled_mul(
                g,
                t,
            ) + 8 * g + 4
        }),
{
    let half = dt / 2;
    let v0 = body.vel.y;
    let y0 = pose.position.y;
    lemma_gravity_sub_step(g, half);
    // Back to the middle of the tick.
    let mid = integrate_simple_spec(pose, body, -half, AccelContext::Current);
    lemma_sub_step_keeps_energy(y0, v0, g, -half);
    let v1 = mid.1.vel.y;
    assert(v1 == advanced_velocity(v0, -g, -half));
    assert(mid.0.position.y == advanced_position(y0, v0, -g, -half));
    assert(mid.1.vel.x == body.vel.x && mid.1.angular_vel == body.angular_vel);
    let e0 = vertical_energy(pose, body, g);
    let e1 = vertical_energy(mid.0, mid.1, g);
    assert(abs(e1 - e0) <= 2 * abs(v0) + scaled_mul(g, half) + 2 * g);
    // The bounce under the previous acceleration.
    let t = contact_time_from_midpoint(pose, body, radius, dt);
    lemma_elastic_bounce_keeps_energy(mid.0, mid.1, radius, t, AccelContext::Previous, g);
    let done = rewind_replay_spec(mid.0, mid.1, radius, SCALE as int, 0, t,
        AccelContext::Previous)->Ok_0;
    let v2 = done.1.vel.y;
    let e2 = vertical_energy(done.0, done.1, g);
    assert(abs(e2 - e1) <= 4 * abs(v1) + 4 * scaled_mul(g, t) + 4 * g + 1);
    assert(abs(v2) <= abs(v1) + 2 * scaled_mul(g, t) + 1);
    // The second half of the tick again.
    let last = integrate_simple_spec(done.0, done.1, half, AccelContext::Current);
    lemma_sub_step_keeps_energy(done.0.position.y, v2, g, half);
    assert(last.1.vel.y == advanced_velocity(v2, -g, half));
    assert(last.0.position.y == advanced_position(done.0.position.y, v2, -g, half));
    assert(last.1.vel.x == body.vel.x && last.1.angular_vel == body.angular_vel);
    let e3 = vertical_energy(last.0, last.1, g);
    assert(abs(e3 - e2) <= 2 * abs(v2) + scaled_mul(g, half) + 1 + 2 * g);
    assert(bounce_from_midpoint_spec(pose, body, radius, SCALE as int, 0, dt)->Ok_0 == last);
}

/// The time since contact that a bounce works with: the one found at the
/// end of the tick, if it lies within the second half of the tick, else
/// the one found from the middle of the tick.
pub open spec fn contact_time_used(pose: PoseModel, body: BodyModel, radius: int, dt: int) -> int {
    match collision_time(height_above_floor(pose, radius), body.vel.y, body.acc.y) {
        Some(t) if t <= dt / 2 => t,
        _ => contact_time_from_midpoint(pose, body, radius, dt),
    }
}

/// Across an elastic bounce without friction the energy is kept, up to
/// rounding, whichever half of the tick the contact fell into. For a disc
/// that gravity `g` alone has acted on, a bounce that succeeds leaves the
/// horizontal and the angular velocity as they were, and changes `v^2 +
/// 2 * g * y` by no more than `8 * |v| + 8 * g * (dt / 2 + t) + 8 * g + 4`
/// raw units, with `v` the vertical velocity before and `t` the time
/// since contact that the bounce works with.
pub proof fn lemma_elastic_bounce_energy(
    pose: PoseModel,
    body: BodyModel,
    radius: int,
    dt: int,
    g: int,
)
    requires
        body.mass > 0,
        body.moment_of_inertia > 0,
        radius > 0,
        g >= 0,
        dt >= 0,
        body.acc == (Vec2Model { x: 0, y: -g }),
        body.acc_prev == (Vec2Model { x: 0, y: -g }),
        body.angular_acc == 0,
        body.angular_acc_prev == 0,
        bounce_spec(pose, body, radius, SCALE as int, 0, dt) is Ok,
    ensures
        ({
            let after = bounce_spec(pose, body, radius, SCALE as int, 0, dt)->Ok_0;
            let change = vertical_energy(after.0, after.1, g) - vertical_energy(pose, body, g);
            let t = contact_time_used(pose, body, radius, dt);
            &&& after.1.vel.x == body.vel.x
            &&& after.1.angular_vel == body.angular_vel
            &&& abs(change) <= 8 * abs(body.vel.y) + 8 * scaled_mul(g, dt / 2) + 8 * scaled_mul(
                g,
                t,
            ) + 8 * g + 4
        }),
{
    lemma_gravity_sub_step(g, dt / 2);
    let first = collision_time(height_above_floor(pose, radius), body.vel.y, body.acc.y);
    if first is Some && first->Some_0 <= dt / 2 {
        lemma_elastic_bounce_keeps_energy(pose, body, radius, first->Some_0,
            AccelContext::Current, g);
    } else {
        lemma_elastic_bounce_from_midpoint(pose, body, radius, dt, g);
    }
}

} // verus!
