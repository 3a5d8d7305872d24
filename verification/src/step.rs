//! One tick of the simulation: the stages in their fixed order.

use vstd::prelude::*;
use crate::arith::{abs, lemma_div_brackets, min};
use crate::body::{disc, Body, BodyModel, Collider, ColliderModel, DiscModel, Pose, PoseModel,
    Vec2Model, FLOOR_Y};
use crate::collision::{collision_checked, collision_spec, penetrating, settled};
use crate::error::StepError;
use crate::fixed::{half_mul, in_range, scaled_mul, Fixed, LIMIT, SCALE};
use crate::forces::{apply_gravity, gravity_spec, player_force, player_force_spec, player_impulse,
    player_impulse_spec, Gravity, InputSnapshot, Player};
use crate::friction::{coupled_inertia, delivered_friction, friction, friction_change,
    friction_force, friction_force_spec, friction_impulse, friction_impulse_acts,
    friction_impulse_fits, friction_impulse_spec, friction_limit, friction_spin,
    lemma_coupled_inertia_positive, lemma_friction_closed_form,
    lemma_friction_never_reverses_slip, resting_normal_impulse,
    stopping_friction, surface_slip};
use crate::integrator::{integrate_after, integrate_after_spec, integrate_before,
    integrate_before_spec, kicked};

verus! {

/// A disc, if it is in range.
pub open spec fn checked_disc(d: DiscModel) -> Result<DiscModel, StepError> {
    if d.in_range() {
        Ok(d)
    } else {
        Err(StepError::OutOfRange)
    }
}

/// The stages that run before the forces of the tick are gathered: the
/// jump of the player, then the first half of the integrator.
pub open spec fn before_forces_spec(
    d: DiscModel,
    dt: int,
    jump_impulse: int,
    input: InputSnapshot,
) -> Result<DiscModel, StepError> {
    match checked_disc(
        DiscModel { body: player_impulse_spec(d.body, d.collider, jump_impulse, input), ..d },
    ) {
        Err(e) => Err(e),
        Ok(d1) => {
            let moved = integrate_before_spec(d1.pose, d1.body, dt);
            checked_disc(DiscModel { pose: moved.0, body: moved.1, ..d1 })
        },
    }
}

/// The force contributors of the tick: gravity where a source is
/// attached, the torque of the player, and last the continuous friction,
/// which answers to what the others gathered.
pub open spec fn forces_spec(
    d: DiscModel,
    torque: int,
    gravity: int,
    input: InputSnapshot,
    gravity_enabled: bool,
) -> Result<DiscModel, StepError> {
    match checked_disc(
        if gravity_enabled {
            DiscModel { body: gravity_spec(d.body, gravity), ..d }
        } else {
            d
        },
    ) {
        Err(e) => Err(e),
        Ok(d1) => match checked_disc(
            DiscModel { body: player_force_spec(d1.body, torque, input), ..d1 },
        ) {
            Err(e) => Err(e),
            Ok(d2) => {
                let rubbed = friction_force_spec(d2.body, d2.collider);
                checked_disc(DiscModel { body: rubbed.0, collider: rubbed.1, ..d2 })
            },
        },
    }
}

/// The stages that run after the forces of the tick are gathered: the
/// second half of the integrator, the collision solver, and the friction
/// impulse of a disc at rest.
pub open spec fn after_forces_spec(d: DiscModel, dt: int) -> Result<DiscModel, StepError> {
    match checked_disc(DiscModel { body: integrate_after_spec(d.body, dt), ..d }) {
        Err(e) => Err(e),
        Ok(d1) => match collision_spec(d1, dt) {
            Err(e) => Err(e),
            Ok(d2) => if friction_impulse_fits(d2.body, d2.collider, dt) {
                Ok(DiscModel { body: friction_impulse_spec(d2.body, d2.collider, dt), ..d2 })
            } else {
                Err(StepError::OutOfRange)
            },
        },
    }
}

/// The disc after one tick of length `dt`, or why the tick cannot run.
pub open spec fn step_spec(
    d: DiscModel,
    dt: int,
    jump_impulse: int,
    torque: int,
    gravity: int,
    input: InputSnapshot,
    gravity_enabled: bool,
) -> Result<DiscModel, StepError> {
    match before_forces_spec(d, dt, jump_impulse, input) {
        Err(e) => Err(e),
        Ok(d1) => match forces_spec(d1, torque, gravity, input, gravity_enabled) {
            Err(e) => Err(e),
            Ok(d2) => after_forces_spec(d2, dt),
        },
    }
}

/// Runs the stages before the forces. On failure the disc is left in an
/// intermediate state.
fn before_forces(
    dt: Fixed,
    body: &mut Body,
    collider: &Collider,
    pose: &mut Pose,
    player: &Player,
    input: &InputSnapshot,
) -> (r: Result<(), StepError>)
    requires
        in_range(dt@),
        old(body).wf(),
        collider.wf(),
        old(pose).wf(),
        in_range(player.jump_impulse@),
    ensures
        r is Ok ==> before_forces_spec(disc(old(pose)@, old(body)@, collider@), dt@,
            player.jump_impulse@, *input) == Ok::<DiscModel, StepError>(
            disc(final(pose)@, final(body)@, collider@),
        ) && final(pose).wf() && final(body).wf(),
        r matches Err(e) ==> before_forces_spec(disc(old(pose)@, old(body)@, collider@), dt@,
            player.jump_impulse@, *input) == Err::<DiscModel, StepError>(e),
{
    match player_impulse(body, collider, player, input) {
        Err(e) => Err(e),
        Ok(()) => integrate_before(dt, pose, body),
    }
}

/// Runs the force contributors. On failure the disc is left in an
/// intermediate state.
fn forces(
    body: &mut Body,
    collider: &mut Collider,
    player: &Player,
    gravity: &Gravity,
    input: &InputSnapshot,
    gravity_enabled: bool,
    Ghost(pose): Ghost<PoseModel>,
) -> (r: Result<(), StepError>)
    requires
        old(body).wf(),
        old(collider).wf(),
        pose.in_range(),
        in_range(player.torque@),
        in_range(gravity.strength@),
    ensures
        r is Ok ==> forces_spec(disc(pose, old(body)@, old(collider)@), player.torque@,
            gravity.strength@, *input, gravity_enabled) == Ok::<DiscModel, StepError>(
            disc(pose, final(body)@, final(collider)@),
        ) && final(body).wf() && final(collider).wf(),
        r matches Err(e) ==> forces_spec(disc(pose, old(body)@, old(collider)@), player.torque@,
            gravity.strength@, *input, gravity_enabled) == Err::<DiscModel, StepError>(e),
{
    if gravity_enabled {
        match apply_gravity(body, gravity) {
            Err(e) => {
                return Err(e);
            },
            Ok(()) => {},
        }
    }
    match player_force(body, player, input) {
        Err(e) => Err(e),
        Ok(()) => friction_force(body, collider),
    }
}

/// Runs the stages after the forces. On failure the disc is left in an
/// intermediate state.
fn after_forces(dt: Fixed, body: &mut Body, collider: &mut Collider, pose: &mut Pose) -> (r:
    Result<(), StepError>)
    requires
        0 <= dt@ <= LIMIT,
        old(body).wf(),
        old(collider).wf(),
        old(pose).wf(),
    ensures
        r is Ok ==> after_forces_spec(disc(old(pose)@, old(body)@, old(collider)@), dt@)
            == Ok::<DiscModel, StepError>(disc(final(pose)@, final(body)@, final(collider)@))
            && final(pose).wf() && final(body).wf() && final(collider).wf(),
        r matches Err(e) ==> after_forces_spec(disc(old(pose)@, old(body)@, old(collider)@), dt@)
            == Err::<DiscModel, StepError>(e),
{
    match integrate_after(dt, body) {
        Err(e) => {
            return Err(e);
        },
        Ok(()) => {},
    }
    match collision_checked(dt, pose, body, collider) {
        Err(e) => Err(e),
        Ok(()) => friction_impulse(dt, body, collider),
    }
}

/// Runs one tick where the collision solver applies, and says so where
/// it does not. Fails without changing anything.
fn step_checked(
    dt: Fixed,
    body: &mut Body,
    collider: &mut Collider,
    pose: &mut Pose,
    player: &Player,
    gravity: &Gravity,
    input: &InputSnapshot,
    gravity_enabled: bool,
) -> (r: Result<(), StepError>)
    requires
        0 <= dt@ <= LIMIT,
        old(body).wf(),
        old(collider).wf(),
        old(pose).wf(),
        in_range(player.jump_impulse@),
        in_range(player.torque@),
        in_range(gravity.strength@),
    ensures
        r is Ok ==> step_spec(disc(old(pose)@, old(body)@, old(collider)@), dt@,
            player.jump_impulse@, player.torque@, gravity.strength@, *input, gravity_enabled)
            == Ok::<DiscModel, StepError>(disc(final(pose)@, final(body)@, final(collider)@))
            && final(pose).wf() && final(body).wf() && final(collider).wf(),
        r matches Err(e) ==> step_spec(disc(old(pose)@, old(body)@, old(collider)@), dt@,
            player.jump_impulse@, player.torque@, gravity.strength@, *input, gravity_enabled)
            == Err::<DiscModel, StepError>(e) && *final(pose) == *old(pose) && *final(body)
            == *old(body) && *final(collider) == *old(collider),
{
    let mut p: Pose = *pose;
    let mut b: Body = *body;
    let mut c: Collider = *collider;
    match before_forces(dt, &mut b, &c, &mut p, player, input) {
        Err(e) => {
            return Err(e);
        },
        Ok(()) => {},
    }
    match forces(&mut b, &mut c, player, gravity, input, gravity_enabled, Ghost(p@)) {
        Err(e) => {
            return Err(e);
        },
        Ok(()) => {},
    }
    match after_forces(dt, &mut b, &mut c, &mut p) {
        Err(e) => {
            return Err(e);
        },
        Ok(()) => {},
    }
    *pose = p;
    *body = b;
    *collider = c;
    Ok(())
}

/// Whether the collision solver applies to the tick: where the disc
/// arrives on the floor from the air, the time since contact is defined
/// and not negative.
pub open spec fn step_applies_spec(
    d: DiscModel,
    dt: int,
    jump_impulse: int,
    torque: int,
    gravity: int,
    input: InputSnapshot,
    gravity_enabled: bool,
) -> bool {
    !(step_spec(d, dt, jump_impulse, torque, gravity, input, gravity_enabled) matches Err(
        StepError::NegativeCollisionTime,
    ))
}

/// Tests whether `step` may be called on this state.
pub fn step_applies(
    dt: Fixed,
    body: &Body,
    collider: &Collider,
    pose: &Pose,
    player: &Player,
    gravity: &Gravity,
    input: &InputSnapshot,
    gravity_enabled: bool,
) -> (b: bool)
    requires
        0 <= dt@ <= LIMIT,
        body.wf(),
        collider.wf(),
        pose.wf(),
        in_range(player.jump_impulse@),
        in_range(player.torque@),
        in_range(gravity.strength@),
    ensures
        b == step_applies_spec(disc(pose@, body@, collider@), dt@, player.jump_impulse@,
            player.torque@, gravity.strength@, *input, gravity_enabled),
{
    let mut p: Pose = *pose;
    let mut q: Body = *body;
    let mut c: Collider = *collider;
    match step_checked(dt, &mut q, &mut c, &mut p, player, gravity, input, gravity_enabled) {
        Err(StepError::NegativeCollisionTime) => false,
        _ => true,
    }
}

/// Advances the disc by one tick of length `dt`.
///
/// The stages run in this order: the jump of the player; the first half
/// of the integrator; gravity, the torque of the player and continuous
/// friction; the second half of the integrator; the collision solver; the
/// friction impulse of a disc at rest.
///
/// The collision solver must apply to the tick. Fails, changing nothing,
/// exactly when a stage would leave the range of simulation state.
pub fn step(
    dt: Fixed,
    body: &mut Body,
    collider: &mut Collider,
    pose: &mut Pose,
    player: &Player,
    gravity: &Gravity,
    input: &InputSnapshot,
    gravity_enabled: bool,
) -> (r: Result<(), StepError>)
    requires
        0 <= dt@ <= LIMIT,
        old(body).wf(),
        old(collider).wf(),
        old(pose).wf(),
        in_range(player.jump_impulse@),
        in_range(player.torque@),
        in_range(gravity.strength@),
        step_applies_spec(disc(old(pose)@, old(body)@, old(collider)@), dt@,
            player.jump_impulse@, player.torque@, gravity.strength@, *input, gravity_enabled),
    ensures
        r is Ok ==> step_spec(disc(old(pose)@, old(body)@, old(collider)@), dt@,
            player.jump_impulse@, player.torque@, gravity.strength@, *input, gravity_enabled)
            == Ok::<DiscModel, StepError>(disc(final(pose)@, final(body)@, final(collider)@))
            && final(pose).wf() && final(body).wf() && final(collider).wf(),
        r matches Err(e) ==> e == StepError::OutOfRange && step_spec(
            disc(old(pose)@, old(body)@, old(collider)@),
            dt@,
            player.jump_impulse@,
            player.torque@,
            gravity.strength@,
            *input,
            gravity_enabled,
        ) == Err::<DiscModel, StepError>(e) && *final(pose) == *old(pose) && *final(body)
            == *old(body) && *final(collider) == *old(collider),
{
    step_checked(dt, body, collider, pose, player, gravity, input, gravity_enabled)
}

/// A disc at rest on the floor under gravity alone: in contact, its
/// lowest point at floor height, no vertical velocity, and nothing left
/// from the tick before but the pull of gravity.
pub open spec fn at_rest(d: DiscModel, gravity: int) -> bool {
    &&& d.collider.touching_ground
    &&& d.pose.position.y == FLOOR_Y + d.collider.radius
    &&& d.body.vel.y == 0
    &&& d.body.acc == (Vec2Model { x: 0, y: -gravity })
    &&& d.body.angular_acc == 0
    &&& d.collider.friction_acc == 0
    &&& d.collider.friction_acc_prev == 0
}

/// Tangential speed of the point of the disc that touches the floor.
pub open spec fn slip_speed(d: DiscModel) -> int {
    surface_slip(d.body.vel.x, d.body.angular_vel, d.collider.radius)
}

/// Zero times anything, scaled or halved, is zero.
proof fn lemma_zero_products(b: int)
    ensures
        half_mul(0, b) == 0,
        scaled_mul(0, b) == 0,
{
    assert(0 * b == 0) by (nonlinear_arith);
}

/// The product of two non-negative numbers, halved or scaled, is not
/// negative; with one factor non-positive it is not positive.
proof fn lemma_product_signs(a: int, b: int)
    requires
        b >= 0,
    ensures
        a >= 0 ==> half_mul(a, b) >= 0 && scaled_mul(a, b) >= 0,
        a <= 0 ==> half_mul(a, b) <= 0 && scaled_mul(a, b) <= 0,
{
    lemma_div_brackets(a * b, 2 * SCALE);
    lemma_div_brackets(a * b, SCALE as int);
    assert(a >= 0 ==> a * b >= 0) by (nonlinear_arith)
        requires
            b >= 0,
    ;
    assert(a <= 0 ==> a * b <= 0) by (nonlinear_arith)
        requires
            b >= 0,
    ;
}

/// Continuous friction on a disc whose gathered acceleration has no
/// tangential part does nothing.
proof fn lemma_no_slip_no_force(body: BodyModel, collider: ColliderModel)
    requires
        body.wf(),
        collider.wf(),
        body.acc.x == 0,
        body.angular_acc == 0,
        body.acc.y <= 0,
    ensures
        friction_change(body, collider.radius, 0, 0, -body.acc.y, collider.kinetic_friction, 0)
            == (0int, 0int),
{
    let radius = collider.radius;
    lemma_zero_products(radius);
    assert(surface_slip(0, 0, radius) == 0);
    lemma_product_signs(-body.acc.y, collider.kinetic_friction);
    let limit = friction_limit(-body.acc.y, collider.kinetic_friction, 0, 0);
    assert(limit >= 0);
    lemma_friction_never_reverses_slip(body, radius, 0, 0, limit);
    assert(body.moment_of_inertia * 0 == 0) by (nonlinear_arith);
    assert(stopping_friction(body, radius, 0) == 0) by {
        lemma_coupled_inertia_positive(body, radius);
        let coupled = coupled_inertia(body, radius);
        assert(0int / coupled == 0) by (nonlinear_arith)
            requires
                coupled > 0,
        ;
    }
    assert(friction(body, radius, 0, limit) == 0);
    lemma_zero_products(body.mass);
    assert(0 * radius == 0) by (nonlinear_arith);
    assert(0int / body.moment_of_inertia == 0) by (nonlinear_arith)
        requires
            body.moment_of_inertia > 0,
    ;
    assert(friction_spin(body, radius, 0) == 0);
}

/// A disc at rest stays at rest, and friction wears its slip down
/// without reversing it. For a disc at rest on the floor under gravity,
/// with no key held, a tick that succeeds leaves the disc at rest; the
/// slip of its contact point keeps its sign, or becomes zero, and does
/// not grow; it shrinks strictly wherever the friction of the tick, the
/// smaller of the Coulomb limit `g * dt * kinetic_friction` and the
/// stopping friction, is at least one raw unit.
pub proof fn lemma_rest_persists_and_slip_decays(
    d: DiscModel,
    dt: int,
    jump_impulse: int,
    torque: int,
    gravity: int,
    input: InputSnapshot,
)
    requires
        d.wf(),
        at_rest(d, gravity),
        gravity >= 0,
        dt >= 0,
        !input.jump_held,
        !input.rotate_left_held,
        !input.rotate_right_held,
        step_spec(d, dt, jump_impulse, torque, gravity, input, true) is Ok,
    ensures
        ({
            let after = step_spec(d, dt, jump_impulse, torque, gravity, input, true)->Ok_0;
            &&& at_rest(after, gravity)
            &&& slip_speed(d) >= 0 ==> 0 <= slip_speed(after) <= slip_speed(d)
            &&& slip_speed(d) <= 0 ==> slip_speed(d) <= slip_speed(after) <= 0
            &&& min(
                scaled_mul(half_mul(2 * gravity, dt), d.collider.kinetic_friction),
                stopping_friction(d.body, d.collider.radius, slip_speed(d)),
            ) >= 1 ==> abs(slip_speed(after)) < abs(slip_speed(d))
        }),
{
    let radius = d.collider.radius;
    // Before the forces: no jump, and a kick from gravity alone.
    let d1 = before_forces_spec(d, dt, jump_impulse, input)->Ok_0;
    lemma_zero_products(dt);
    let fall = half_mul(-gravity, dt);
    lemma_product_signs(-gravity, dt);
    lemma_product_signs(fall, dt);
    assert(d1.body.vel == (Vec2Model { x: d.body.vel.x, y: fall }));
    assert(d1.body.angular_vel == d.body.angular_vel);
    assert(d1.pose.position.y <= d.pose.position.y);
    assert(d1.body.acc == (Vec2Model { x: 0, y: 0 }));
    assert(d1.body.acc_prev == (Vec2Model { x: 0, y: -gravity }));
    assert(d1.collider == d.collider);
    // The forces: gravity, no torque, and friction with nothing to answer.
    let d2 = forces_spec(d1, torque, gravity, input, true)->Ok_0;
    let pulled = DiscModel { body: gravity_spec(d1.body, gravity), ..d1 };
    let turned = DiscModel { body: player_force_spec(pulled.body, torque, input), ..pulled };
    assert(turned.body == pulled.body);
    lemma_no_slip_no_force(turned.body, turned.collider);
    assert(d2.body == turned.body);
    assert(d2.collider == d.collider);
    assert(d2.pose == d1.pose);
    // After the forces: the second kick, then the floor holds the disc.
    let d3 = DiscModel { body: integrate_after_spec(d2.body, dt), ..d2 };
    assert(d3.body.vel.x == d.body.vel.x);
    assert(d3.body.angular_vel == d.body.angular_vel);
    assert(penetrating(d3.pose, radius));
    let d4 = settled(d3);
    assert(collision_spec(d3, dt) == Ok::<DiscModel, StepError>(d4));
    assert(friction_impulse_acts(d4.body, d4.collider));
    let after = DiscModel { body: friction_impulse_spec(d4.body, d4.collider, dt), ..d4 };
    assert(step_spec(d, dt, jump_impulse, torque, gravity, input, true) == Ok::<
        DiscModel,
        StepError,
    >(after));
    // The friction impulse of the tick.
    let push = resting_normal_impulse(d4.body, dt);
    lemma_product_signs(-(d4.body.acc.y + d4.body.acc_prev.y), dt);
    lemma_product_signs(push, d4.collider.kinetic_friction);
    assert(delivered_friction(d4.collider, dt) == 0);
    let slip = slip_speed(d);
    assert(slip == surface_slip(d4.body.vel.x, d4.body.angular_vel, radius));
    let limit = friction_limit(push, d4.collider.kinetic_friction, 0, slip);
    assert(limit >= 0);
    lemma_friction_never_reverses_slip(d4.body, radius, d4.body.vel.x, d4.body.angular_vel, limit);
    lemma_friction_closed_form(d4.body, radius, d4.body.vel.x, d4.body.angular_vel, limit);
    assert(push == half_mul(2 * gravity, dt));
    assert(stopping_friction(d4.body, radius, slip) == stopping_friction(d.body, radius, slip));
}

/// Twice the mechanical energy of the disc, in raw units cubed: the
/// kinetic energy of its linear and of its angular motion, and its
/// potential energy under the given gravity, counted from the floor.
pub open spec fn twice_energy(d: DiscModel, gravity: int) -> int {
    d.body.mass * (d.body.vel.x * d.body.vel.x + d.body.vel.y * d.body.vel.y)
        + d.body.moment_of_inertia * (d.body.angular_vel * d.body.angular_vel) + 2 * (d.body.mass
        * (gravity * (d.pose.position.y - FLOOR_Y)))
}

/// A disc under gravity alone: nothing is left from the tick before but
/// the pull of gravity.
pub open spec fn under_gravity_alone(d: DiscModel, gravity: int) -> bool {
    &&& d.body.acc == (Vec2Model { x: 0, y: -gravity })
    &&& d.body.angular_acc == 0
}

/// Multiplication distributes over a difference.
proof fn lemma_distribute(m: int, a: int, b: int)
    by (nonlinear_arith)
    ensures
        m * a - m * b == m * (a - b),
{
}

/// The arithmetic of one tick of free fall: with `h` the half kick and
/// `rise` the drift at the velocity `mid` of the middle of the tick, the
/// change `4 * mid * h + 2 * g * rise` of twice the energy per mass is
/// not positive while the disc rises, and below `4 * |mid|` while it
/// falls.
proof fn lemma_fall_energy(g: int, dt: int, mid: int, h: int, rise: int)
    requires
        g >= 0,
        dt >= 0,
        h == half_mul(-g, dt),
        rise == scaled_mul(mid, dt),
    ensures
        mid >= 0 ==> 4 * (mid * h) + 2 * (g * rise) <= 0,
        mid < 0 ==> 4 * (mid * h) + 2 * (g * rise) < -4 * mid,
        h <= 0,
{
    let s = SCALE as int;
    lemma_div_brackets((-g) * dt, 2 * s);
    lemma_div_brackets(mid * dt, s);
    let p = g * dt;
    assert((-g) * dt == -p) by (nonlinear_arith)
        requires
            p == g * dt,
    ;
    assert(p >= 0) by (nonlinear_arith)
        requires
            p == g * dt,
            g >= 0,
            dt >= 0,
    ;
    let slack = 2 * s * h + p;
    assert(-2 * s < slack <= 0);
    let q = 4 * (mid * h) + 2 * (g * rise);
    let lifted = g * (rise * s);
    let carried = g * (mid * dt);
    assert(lifted <= carried) by (nonlinear_arith)
        requires
            lifted == g * (rise * s),
            carried == g * (mid * dt),
            rise * s <= mid * dt,
            g >= 0,
    ;
    assert(s * q == 4 * (s * (mid * h)) + 2 * lifted) by (nonlinear_arith)
        requires
            q == 4 * (mid * h) + 2 * (g * rise),
            lifted == g * (rise * s),
    ;
    assert(2 * (mid * slack) == 4 * (s * (mid * h)) + 2 * carried) by (nonlinear_arith)
        requires
            slack == 2 * s * h + p,
            p == g * dt,
            carried == g * (mid * dt),
    ;
    assert(s * q <= 2 * (mid * slack));
    if mid >= 0 {
        assert(q <= 0) by (nonlinear_arith)
            requires
                s * q <= 2 * (mid * slack),
                mid >= 0,
                slack <= 0,
                s > 0,
        ;
    } else {
        assert(q < -4 * mid) by (nonlinear_arith)
            requires
                s * q <= 2 * (mid * slack),
                mid < 0,
                -2 * s < slack,
                s > 0,
        ;
    }
}

/// In free flight the energy does not grow beyond rounding. For a disc
/// under gravity alone, with no turn key held and no jump, a tick that
/// succeeds and leaves the disc in the air changes twice its energy by
/// less than `4 * mass * |v|`, with `v` the vertical velocity after the
/// tick, and does not raise it at all if the disc is still rising then.
/// The disc is then under gravity alone for the next tick.
pub proof fn lemma_free_flight_energy(
    d: DiscModel,
    dt: int,
    jump_impulse: int,
    torque: int,
    gravity: int,
    input: InputSnapshot,
)
    requires
        d.wf(),
        under_gravity_alone(d, gravity),
        gravity >= 0,
        dt >= 0,
        !input.rotate_left_held,
        !input.rotate_right_held,
        d.collider.touching_ground ==> !input.jump_held,
        step_spec(d, dt, jump_impulse, torque, gravity, input, true) is Ok,
        !step_spec(d, dt, jump_impulse, torque, gravity, input, true)->Ok_0.collider.touching_ground,
    ensures
        ({
            let after = step_spec(d, dt, jump_impulse, torque, gravity, input, true)->Ok_0;
            &&& under_gravity_alone(after, gravity)
            &&& twice_energy(after, gravity) - twice_energy(d, gravity) <= 4 * (d.body.mass * abs(
                after.body.vel.y,
            ))
            &&& after.body.vel.y >= 0 ==> twice_energy(after, gravity) <= twice_energy(d, gravity)
        }),
{
    let m = d.body.mass;
    let v = d.body.vel.y;
    let h = half_mul(-gravity, dt);
    let mid = v + h;
    let rise = scaled_mul(mid, dt);
    lemma_zero_products(dt);
    // Before the forces, the forces, and the second kick.
    let d1 = before_forces_spec(d, dt, jump_impulse, input)->Ok_0;
    assert(d1.body.vel == (Vec2Model { x: d.body.vel.x, y: mid }));
    assert(d1.pose.position.y == d.pose.position.y + rise);
    let d2 = forces_spec(d1, torque, gravity, input, true)->Ok_0;
    let pulled = DiscModel { body: gravity_spec(d1.body, gravity), ..d1 };
    let turned = DiscModel { body: player_force_spec(pulled.body, torque, input), ..pulled };
    assert(turned.body == pulled.body);
    if turned.collider.touching_ground {
        lemma_no_slip_no_force(turned.body, turned.collider);
    }
    assert(d2.body == turned.body);
    assert(d2.pose == d1.pose);
    let d3 = DiscModel { body: integrate_after_spec(d2.body, dt), ..d2 };
    // A contact would have left the disc on the floor.
    assert(!penetrating(d3.pose, d3.collider.radius));
    let after = step_spec(d, dt, jump_impulse, torque, gravity, input, true)->Ok_0;
    assert(after.body == d3.body);
    assert(after.pose == d3.pose);
    assert(after.body.vel.y == mid + h);
    assert(after.body.vel.x == d.body.vel.x);
    assert(after.body.angular_vel == d.body.angular_vel);
    // The energy.
    lemma_fall_energy(gravity, dt, mid, h, rise);
    let q = 4 * (mid * h) + 2 * (gravity * rise);
    let y = d.pose.position.y;
    let side = d.body.vel.x * d.body.vel.x;
    let up1 = (mid + h) * (mid + h);
    let up0 = (mid - h) * (mid - h);
    let lift1 = gravity * (y + rise - FLOOR_Y);
    let lift0 = gravity * (y - FLOOR_Y);
    assert(up1 - up0 == 4 * (mid * h)) by (nonlinear_arith)
        requires
            up1 == (mid + h) * (mid + h),
            up0 == (mid - h) * (mid - h),
    ;
    assert(lift1 - lift0 == gravity * rise) by (nonlinear_arith)
        requires
            lift1 == gravity * (y + rise - FLOOR_Y),
            lift0 == gravity * (y - FLOOR_Y),
    ;
    lemma_distribute(m, side + up1, side + up0);
    lemma_distribute(m, lift1, lift0);
    lemma_distribute(m, 4 * (mid * h), -2 * (gravity * rise));
    assert(m * (-2 * (gravity * rise)) == -2 * (m * (gravity * rise))) by (nonlinear_arith);
    assert(twice_energy(after, gravity) - twice_energy(d, gravity) == m * q);
    if mid >= 0 {
        assert(m * q <= 0) by (nonlinear_arith)
            requires
                m > 0,
                q <= 0,
        ;
        assert(m * abs(after.body.vel.y) >= 0) by (nonlinear_arith)
            requires
                m > 0,
                abs(after.body.vel.y) >= 0,
        ;
    } else {
        assert(m * q <= 4 * (m * abs(mid + h))) by (nonlinear_arith)
            requires
                m > 0,
                q < -4 * mid,
                mid < 0,
                h <= 0,
                abs(mid + h) == -(mid + h),
        ;
    }
}

/// Contact, once made, lasts until the player jumps. For a disc on the
/// floor that does not move or accelerate upwards, under a gravity that
/// does not push upwards, a tick without a jump that succeeds leaves the
/// disc on the floor: in contact, its lowest point at floor height, its
/// vertical velocity zero. The disc then meets the same conditions for
/// the next tick.
pub proof fn lemma_contact_persists(
    d: DiscModel,
    dt: int,
    jump_impulse: int,
    torque: int,
    gravity: int,
    input: InputSnapshot,
    gravity_enabled: bool,
)
    requires
        d.wf(),
        d.collider.touching_ground,
        penetrating(d.pose, d.collider.radius),
        d.body.vel.y <= 0,
        d.body.acc.y <= 0,
        gravity >= 0,
        dt >= 0,
        !input.jump_held,
        step_spec(d, dt, jump_impulse, torque, gravity, input, gravity_enabled) is Ok,
    ensures
        ({
            let after = step_spec(d, dt, jump_impulse, torque, gravity, input, gravity_enabled)->Ok_0;
            &&& after.collider.touching_ground
            &&& after.pose.position.y == FLOOR_Y + after.collider.radius
            &&& penetrating(after.pose, after.collider.radius)
            &&& after.body.vel.y == 0
            &&& after.body.acc.y <= 0
            &&& after.collider.radius == d.collider.radius
        }),
{
    // Before the forces: a kick and a drift, neither upwards.
    let d1 = before_forces_spec(d, dt, jump_impulse, input)->Ok_0;
    lemma_product_signs(d.body.acc.y, dt);
    let fall = kicked(d.body.vel.y, d.body.acc.y, dt);
    lemma_product_signs(fall, dt);
    assert(d1.body.vel.y == fall);
    assert(d1.pose.position.y <= d.pose.position.y);
    assert(d1.body.acc.y == 0);
    assert(d1.collider == d.collider);
    // The forces leave the pose alone, and pull down if at all.
    let d2 = forces_spec(d1, torque, gravity, input, gravity_enabled)->Ok_0;
    let pulled = if gravity_enabled {
        DiscModel { body: gravity_spec(d1.body, gravity), ..d1 }
    } else {
        d1
    };
    let turned = DiscModel { body: player_force_spec(pulled.body, torque, input), ..pulled };
    let rubbed = friction_force_spec(turned.body, turned.collider);
    assert(d2 == (DiscModel { body: rubbed.0, collider: rubbed.1, ..turned }));
    assert(d2.body.acc.y == pulled.body.acc.y);
    assert(d2.body.vel.y == fall);
    assert(d2.pose == d1.pose);
    assert(d2.collider.touching_ground);
    assert(d2.collider.radius == d.collider.radius);
    // After the forces: still in the floor, so the disc is set down.
    let d3 = DiscModel { body: integrate_after_spec(d2.body, dt), ..d2 };
    assert(penetrating(d3.pose, d3.collider.radius));
    assert(collision_spec(d3, dt) == Ok::<DiscModel, StepError>(settled(d3)));
}

} // verus!
