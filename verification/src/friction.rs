//! Coulomb friction between the disc and the floor, as a force while the
//! disc rests and as an impulse at the moment of an impact. Both couple
//! the linear and the angular motion, and both are clamped so that
//! friction stops the slip of the contact point without reversing it.

use vstd::prelude::*;
use crate::arith::{abs, ceil_div, ceil_div_wide, floor_div, lemma_div_bound, lemma_div_bound_by,
    lemma_div_brackets, lemma_mul_bound, min, HALF_MAX};
use crate::body::{Body, BodyModel, Collider, ColliderModel, Vec2, Vec2Model};
use crate::error::StepError;
use crate::fixed::{fits, half_mul, half_mul_wide, in_range, lemma_scaled_mul_bound, mul_wide,
    scaled_mul, Fixed, LIMIT, PRODUCT_LIMIT, SCALE};

verus! {

/// Tangential speed (or acceleration) of the point of the disc that
/// touches the floor: the linear part plus the angular part times the
/// radius.
pub open spec fn surface_slip(linear: int, angular: int, radius: int) -> int {
    linear + scaled_mul(angular, radius)
}

/// `mass * radius^2 + moment_of_inertia`, each product of the first
/// term rounded up so that the stopping friction is never overestimated.
pub open spec fn coupled_inertia(body: BodyModel, radius: int) -> int {
    ceil_div(ceil_div(body.mass * radius, SCALE as int) * radius, SCALE as int)
        + body.moment_of_inertia
}

/// The friction that would bring the slip exactly to zero, rounded down:
/// `moment_of_inertia * |slip| / (mass * radius^2 + moment_of_inertia)`.
pub open spec fn stopping_friction(body: BodyModel, radius: int, slip: int) -> int {
    (body.moment_of_inertia * abs(slip)) / coupled_inertia(body, radius)
}

/// The Coulomb limit: the normal force (or impulse) times the friction
/// coefficient, plus what friction already applied this tick, counted
/// along the slip.
pub open spec fn friction_limit(normal: int, kinetic_friction: int, applied: int, slip: int) -> int {
    scaled_mul(normal, kinetic_friction) + (if slip >= 0 { applied } else { -applied })
}

/// The friction applied: the smaller of the limit and the stopping
/// friction in magnitude, directed against the slip. A slip of zero
/// counts as positive.
pub open spec fn friction(body: BodyModel, radius: int, slip: int, limit: int) -> int {
    let magnitude = abs(min(limit, stopping_friction(body, radius, slip)));
    if slip >= 0 { -magnitude } else { magnitude }
}

/// The angular change that goes with a linear friction `f`:
/// `f * mass * radius / moment_of_inertia`, rounded towards zero.
pub open spec fn friction_spin(body: BodyModel, radius: int, f: int) -> int {
    if f >= 0 {
        (scaled_mul(f, body.mass) * radius) / body.moment_of_inertia
    } else {
        -((scaled_mul(-f, body.mass) * radius) / body.moment_of_inertia)
    }
}

/// The linear and the angular change that friction makes to a motion
/// with the given linear and angular parts.
pub open spec fn friction_change(
    body: BodyModel,
    radius: int,
    linear: int,
    angular: int,
    normal: int,
    kinetic_friction: int,
    applied: int,
) -> (int, int) {
    let slip = surface_slip(linear, angular, radius);
    let f = friction(body, radius, slip, friction_limit(normal, kinetic_friction, applied, slip));
    (f, friction_spin(body, radius, f))
}

/// Computes `friction_change`, unless the friction is more than twice
/// as large as any stored value, and so takes whatever it is added to out
/// of range.
pub(crate) fn friction_change_wide(
    body: &Body,
    radius: Fixed,
    linear: Fixed,
    angular: Fixed,
    normal: i128,
    kinetic_friction: Fixed,
    applied: Fixed,
) -> (r: Option<(i128, i128)>)
    requires
        body.wf(),
        0 < radius@ <= LIMIT,
        in_range(linear@),
        in_range(angular@),
        -4 * LIMIT <= normal <= 4 * LIMIT,
        in_range(kinetic_friction@),
        in_range(applied@),
    ensures
        r is None <==> abs(friction_change(body@, radius@, linear@, angular@, normal as int,
            kinetic_friction@, applied@).0) > 2 * LIMIT,
        r matches Some(change) ==> change.0 == friction_change(body@, radius@, linear@, angular@,
            normal as int, kinetic_friction@, applied@).0 && change.1 == friction_change(body@,
            radius@, linear@, angular@, normal as int, kinetic_friction@, applied@).1
            && -HALF_MAX <= change.1 <= HALF_MAX,
{
    let m: i128 = body.mass.raw;
    let i: i128 = body.moment_of_inertia.raw;
    let rad: i128 = radius.raw;
    proof {
        lemma_scaled_mul_bound(angular@, radius@, 1);
    }
    let slip: i128 = linear.raw + mul_wide(angular.raw, rad);
    let slip_abs: i128 = if slip >= 0 { slip } else { -slip };
    // Coupled inertia.
    proof {
        lemma_scaled_mul_bound(m as int, rad as int, 1);
        assert(m * rad >= 0) by (nonlinear_arith)
            requires
                m > 0,
                rad > 0,
        ;
        lemma_div_brackets(-(m * rad), SCALE as int);
        lemma_div_bound_by(-(m * rad), SCALE as int, PRODUCT_LIMIT as int);
    }
    let once: i128 = ceil_div_wide(m * rad, SCALE);
    assert(0 <= once <= PRODUCT_LIMIT);
    proof {
        lemma_mul_bound(once as int, rad as int, PRODUCT_LIMIT as int, LIMIT as int);
        assert(once * rad >= 0) by (nonlinear_arith)
            requires
                once >= 0,
                rad > 0,
        ;
        lemma_div_brackets(-(once * rad), SCALE as int);
    }
    let coupled: i128 = ceil_div_wide(once * rad, SCALE) + i;
    assert(coupled >= i);
    // Stopping friction.
    proof {
        lemma_mul_bound(i as int, slip_abs as int, LIMIT as int, 2 * PRODUCT_LIMIT);
        assert(i * slip_abs >= 0) by (nonlinear_arith)
            requires
                i > 0,
                slip_abs >= 0,
        ;
        lemma_div_brackets(i * slip_abs, coupled as int);
    }
    let stopping: i128 = floor_div(i * slip_abs, coupled);
    assert(0 <= stopping <= slip_abs) by (nonlinear_arith)
        requires
            stopping * coupled <= i * slip_abs < stopping * coupled + coupled,
            coupled >= i,
            i > 0,
            slip_abs >= 0,
    ;
    // Coulomb limit.
    proof {
        lemma_scaled_mul_bound(kinetic_friction@, normal as int, 4);
        assert(kinetic_friction@ * normal == normal * kinetic_friction@) by (nonlinear_arith);
    }
    let along: i128 = if slip >= 0 { applied.raw } else { -applied.raw };
    let limit: i128 = mul_wide(normal, kinetic_friction.raw) + along;
    let smaller: i128 = if limit <= stopping { limit } else { stopping };
    let magnitude: i128 = if smaller >= 0 { smaller } else { -smaller };
    if magnitude > 2 * LIMIT {
        return None;
    }
    // Angular coupling.
    proof {
        lemma_scaled_mul_bound(m as int, magnitude as int, 2);
        assert(m * magnitude == magnitude * m) by (nonlinear_arith);
        assert(magnitude * m >= 0) by (nonlinear_arith)
            requires
                magnitude >= 0,
                m > 0,
        ;
        lemma_div_brackets(magnitude * m, SCALE as int);
    }
    let carried: i128 = mul_wide(magnitude, m);
    assert(0 <= carried <= 2 * PRODUCT_LIMIT);
    proof {
        lemma_mul_bound(carried as int, rad as int, 2 * PRODUCT_LIMIT, LIMIT as int);
        lemma_div_bound(carried * rad, i as int, 2 * PRODUCT_LIMIT * LIMIT);
        assert(carried * rad >= 0) by (nonlinear_arith)
            requires
                carried >= 0,
                rad > 0,
        ;
        lemma_div_brackets(carried * rad, i as int);
    }
    let spin: i128 = floor_div(carried * rad, i);
    assert(spin >= 0) by (nonlinear_arith)
        requires
            spin * i + i > carried * rad,
            carried * rad >= 0,
            i > 0,
    ;
    if slip >= 0 {
        proof {
            if magnitude == 0 {
                assert(magnitude * m == 0) by (nonlinear_arith)
                    requires
                        magnitude == 0,
                ;
                assert(carried * rad == 0) by (nonlinear_arith)
                    requires
                        carried == 0,
                ;
            }
        }
        Some((-magnitude, -spin))
    } else {
        Some((magnitude, spin))
    }
}

/// Body after an impulse of friction against the slip of its velocity.
pub open spec fn apply_friction_impulse_spec(
    body: BodyModel,
    radius: int,
    normal_impulse: int,
    kinetic_friction: int,
    applied_friction: int,
) -> BodyModel {
    let change = friction_change(body, radius, body.vel.x, body.angular_vel, normal_impulse,
        kinetic_friction, applied_friction);
    BodyModel {
        vel: Vec2Model { x: body.vel.x + change.0, y: body.vel.y },
        angular_vel: body.angular_vel + change.1,
        ..body
    }
}

/// Body and collider after a force of friction against the slip of the
/// acceleration gathered so far; the collider records the friction.
pub open spec fn apply_friction_force_spec(
    body: BodyModel,
    collider: ColliderModel,
    normal_force: int,
) -> (BodyModel, ColliderModel) {
    let change = friction_change(body, collider.radius, body.acc.x, body.angular_acc,
        normal_force, collider.kinetic_friction, 0);
    (
        BodyModel {
            acc: Vec2Model { x: body.acc.x + change.0, y: body.acc.y },
            angular_acc: body.angular_acc + change.1,
            ..body
        },
        ColliderModel {
            friction_acc: change.0,
            friction_acc_prev: collider.friction_acc,
            ..collider
        },
    )
}

/// What the continuous friction stage does: nothing in the air, a force
/// of friction under the normal force `-acc.y` on the floor.
pub open spec fn friction_force_spec(body: BodyModel, collider: ColliderModel) -> (
    BodyModel,
    ColliderModel,
) {
    if collider.touching_ground {
        apply_friction_force_spec(body, collider, -body.acc.y)
    } else {
        (body, collider)
    }
}

/// Whether the friction impulse stage acts: the disc rests on the floor.
pub open spec fn friction_impulse_acts(body: BodyModel, collider: ColliderModel) -> bool {
    collider.touching_ground && body.vel.y == 0
}

/// Normal impulse of a tick at rest: the mean of the two vertical
/// accelerations over `dt`, directed into the floor.
pub open spec fn resting_normal_impulse(body: BodyModel, dt: int) -> int {
    half_mul(-(body.acc.y + body.acc_prev.y), dt)
}

/// Friction impulse that the continuous stage has already delivered: the
/// mean of the two recorded friction accelerations over `dt`.
pub open spec fn delivered_friction(collider: ColliderModel, dt: int) -> int {
    half_mul(collider.friction_acc + collider.friction_acc_prev, dt)
}

/// What the friction impulse stage does: nothing unless the disc rests,
/// else an impulse of friction under the resting normal impulse, less
/// what was delivered already.
pub open spec fn friction_impulse_spec(body: BodyModel, collider: ColliderModel, dt: int) -> BodyModel {
    if friction_impulse_acts(body, collider) {
        apply_friction_impulse_spec(body, collider.radius, resting_normal_impulse(body, dt),
            collider.kinetic_friction, delivered_friction(collider, dt))
    } else {
        body
    }
}

/// Whether the friction impulse stage stays in range.
pub open spec fn friction_impulse_fits(body: BodyModel, collider: ColliderModel, dt: int) -> bool {
    friction_impulse_acts(body, collider) ==> {
        &&& in_range(resting_normal_impulse(body, dt))
        &&& in_range(delivered_friction(collider, dt))
        &&& friction_impulse_spec(body, collider, dt).in_range()
    }
}

/// Applies an impulse of friction to the velocity of the body, given the
/// normal impulse of the contact and the friction impulse that was
/// applied earlier in the tick.
///
/// Fails, changing nothing, exactly when a result leaves the range.
pub fn apply_friction_impulse(
    body: &mut Body,
    radius: Fixed,
    normal_impulse: Fixed,
    kinetic_friction: Fixed,
    applied_friction: Fixed,
) -> (r: Result<(), StepError>)
    requires
        old(body).wf(),
        0 < radius@ <= LIMIT,
        in_range(normal_impulse@),
        in_range(kinetic_friction@),
        in_range(applied_friction@),
    ensures
        r is Ok <==> apply_friction_impulse_spec(old(body)@, radius@, normal_impulse@,
            kinetic_friction@, applied_friction@).in_range(),
        r is Ok ==> final(body)@ == apply_friction_impulse_spec(old(body)@, radius@,
            normal_impulse@, kinetic_friction@, applied_friction@) && final(body).wf(),
        r matches Err(e) ==> e == StepError::OutOfRange && *final(body) == *old(body),
{
    match friction_change_wide(body, radius, body.vel.x, body.angular_vel, normal_impulse.raw,
        kinetic_friction, applied_friction) {
        None => Err(StepError::OutOfRange),
        Some(change) => {
            let vx: i128 = body.vel.x.raw + change.0;
            let w: i128 = body.angular_vel.raw + change.1;
            if fits(vx) && fits(w) {
                body.vel = Vec2 { x: Fixed::from_raw(vx), y: body.vel.y };
                body.angular_vel = Fixed::from_raw(w);
                Ok(())
            } else {
                Err(StepError::OutOfRange)
            }
        },
    }
}

/// Adds a force of friction to the acceleration gathered so far, given
/// the normal force of the contact, and records it in the collider.
///
/// Fails, changing nothing, exactly when a result leaves the range.
pub fn apply_friction_force(body: &mut Body, collider: &mut Collider, normal_force: Fixed) -> (r:
    Result<(), StepError>)
    requires
        old(body).wf(),
        old(collider).wf(),
        in_range(normal_force@),
    ensures
        r is Ok <==> apply_friction_force_spec(old(body)@, old(collider)@, normal_force@).0.in_range()
            && apply_friction_force_spec(old(body)@, old(collider)@, normal_force@).1.in_range(),
        r is Ok ==> final(body)@ == apply_friction_force_spec(old(body)@, old(collider)@,
            normal_force@).0 && final(collider)@ == apply_friction_force_spec(old(body)@,
            old(collider)@, normal_force@).1 && final(body).wf() && final(collider).wf(),
        r matches Err(e) ==> e == StepError::OutOfRange && *final(body) == *old(body)
            && *final(collider) == *old(collider),
{
    match friction_change_wide(body, collider.radius, body.acc.x, body.angular_acc,
        normal_force.raw, collider.kinetic_friction, Fixed::zero()) {
        None => Err(StepError::OutOfRange),
        Some(change) => {
            let ax: i128 = body.acc.x.raw + change.0;
            let alpha: i128 = body.angular_acc.raw + change.1;
            if fits(ax) && fits(alpha) && fits(change.0) {
                collider.friction_acc_prev = collider.friction_acc;
                collider.friction_acc = Fixed::from_raw(change.0);
                body.acc = Vec2 { x: Fixed::from_raw(ax), y: body.acc.y };
                body.angular_acc = Fixed::from_raw(alpha);
                Ok(())
            } else {
                Err(StepError::OutOfRange)
            }
        },
    }
}

/// The continuous friction stage of a tick. It runs after the other
/// force contributors and before the second half of the integrator.
///
/// Fails, changing nothing, exactly when a result leaves the range.
pub fn friction_force(body: &mut Body, collider: &mut Collider) -> (r: Result<(), StepError>)
    requires
        old(body).wf(),
        old(collider).wf(),
    ensures
        r is Ok <==> friction_force_spec(old(body)@, old(collider)@).0.in_range()
            && friction_force_spec(old(body)@, old(collider)@).1.in_range(),
        r is Ok ==> final(body)@ == friction_force_spec(old(body)@, old(collider)@).0
            && final(collider)@ == friction_force_spec(old(body)@, old(collider)@).1
            && final(body).wf() && final(collider).wf(),
        r matches Err(e) ==> e == StepError::OutOfRange && *final(body) == *old(body)
            && *final(collider) == *old(collider),
{
    if collider.touching_ground {
        let normal_force: Fixed = Fixed { raw: -body.acc.y.raw };
        apply_friction_force(body, collider, normal_force)
    } else {
        Ok(())
    }
}

/// The friction impulse stage of a tick. It runs after the collision
/// solver and acts only on a disc that rests on the floor.
///
/// Fails, changing nothing, exactly when a result leaves the range.
pub fn friction_impulse(dt: Fixed, body: &mut Body, collider: &Collider) -> (r: Result<
    (),
    StepError,
>)
    requires
        in_range(dt@),
        old(body).wf(),
        collider.wf(),
    ensures
        r is Ok <==> friction_impulse_fits(old(body)@, collider@, dt@),
        r is Ok ==> final(body)@ == friction_impulse_spec(old(body)@, collider@, dt@)
            && final(body).wf(),
        r matches Err(e) ==> e == StepError::OutOfRange && *final(body) == *old(body),
{
    if collider.touching_ground && body.vel.y.raw == 0 {
        let push: i128 = -(body.acc.y.raw + body.acc_prev.y.raw);
        let drag: i128 = collider.friction_acc.raw + collider.friction_acc_prev.raw;
        proof {
            lemma_scaled_mul_bound(dt@, push as int, 2);
            lemma_scaled_mul_bound(dt@, drag as int, 2);
            assert(dt@ * push == push * dt@ && dt@ * drag == drag * dt@) by (nonlinear_arith);
        }
        let normal_impulse: i128 = half_mul_wide(push, dt.raw);
        let applied: i128 = half_mul_wide(drag, dt.raw);
        if fits(normal_impulse) && fits(applied) {
            apply_friction_impulse(body, collider.radius, Fixed::from_raw(normal_impulse),
                collider.kinetic_friction, Fixed::from_raw(applied))
        } else {
            Err(StepError::OutOfRange)
        }
    } else {
        Ok(())
    }
}

/// If `x * z <= y * z` for a positive `z`, then `x <= y`.
proof fn lemma_cancel(x: int, y: int, z: int)
    by (nonlinear_arith)
    requires
        z > 0,
        x * z <= y * z,
    ensures
        x <= y,
{
}

/// Scaling both sides of an inequality by a non-negative factor.
proof fn lemma_scale(x: int, y: int, z: int)
    by (nonlinear_arith)
    requires
        x <= y,
        z >= 0,
    ensures
        x * z <= y * z,
{
}

/// The heart of the clamp: what the angular change adds to the slip,
/// together with the linear friction, does not exceed the slip.
proof fn lemma_coupling_bound(
    m: int,
    r: int,
    i: int,
    s: int,
    up: int,
    slip_abs: int,
    mag: int,
    carried: int,
    spin: int,
)
    requires
        m > 0,
        r > 0,
        i > 0,
        s > 0,
        up * (s * s) >= m * r * r,
        0 <= mag,
        mag * (up + i) <= i * slip_abs,
        0 <= carried,
        carried * s <= mag * m,
        0 <= spin,
        spin * i <= carried * r,
    ensures
        spin * r <= (slip_abs - mag) * s,
{
    let rs = r * s;
    let rr = r * r;
    let ss = s * s;
    assert(rs > 0 && rr > 0 && ss > 0 && i * s > 0) by (nonlinear_arith)
        requires
            r > 0,
            s > 0,
            i > 0,
            rs == r * s,
            rr == r * r,
            ss == s * s,
    ;
    lemma_scale(spin * i, carried * r, rs);
    lemma_scale(carried * s, mag * m, rr);
    lemma_scale(m * r * r, up * ss, mag);
    lemma_scale(mag * (up + i), i * slip_abs, ss);
    let a = (spin * i) * rs;
    let b = (carried * r) * rs;
    let c = (mag * m) * rr;
    let d = (up * ss) * mag;
    let e = (i * slip_abs) * ss;
    assert(b == (carried * s) * rr) by (nonlinear_arith)
        requires
            b == (carried * r) * rs,
            rs == r * s,
            rr == r * r,
    ;
    assert(c == (m * r * r) * mag) by (nonlinear_arith)
        requires
            c == (mag * m) * rr,
            rr == r * r,
    ;
    assert((mag * (up + i)) * ss == d + mag * i * ss) by (nonlinear_arith)
        requires
            d == (up * ss) * mag,
    ;
    assert(a <= e - mag * i * ss);
    assert(a == (spin * r) * (i * s)) by (nonlinear_arith)
        requires
            a == (spin * i) * rs,
            rs == r * s,
    ;
    assert(e - mag * i * ss == ((slip_abs - mag) * s) * (i * s)) by (nonlinear_arith)
        requires
            e == (i * slip_abs) * ss,
            ss == s * s,
    ;
    lemma_cancel(spin * r, (slip_abs - mag) * s, i * s);
}

/// A quotient is at least `c` when the numerator is at least `c * d`.
proof fn lemma_div_at_least(n: int, d: int, c: int)
    requires
        d > 0,
        n >= c * d,
    ensures
        n / d >= c,
{
    lemma_div_brackets(n, d);
    assert(n / d >= c) by (nonlinear_arith)
        requires
            d > 0,
            n >= c * d,
            n < (n / d) * d + d,
    ;
}

/// A quotient is at most `c` when the numerator is below `(c + 1) * d`.
proof fn lemma_div_at_most(n: int, d: int, c: int)
    requires
        d > 0,
        n < c * d + d,
    ensures
        n / d <= c,
{
    lemma_div_brackets(n, d);
    assert(n / d <= c) by (nonlinear_arith)
        requires
            d > 0,
            n < c * d + d,
            (n / d) * d <= n,
    ;
}

/// Without grip there is no friction: with a friction coefficient of
/// zero, and nothing applied before, friction changes nothing.
pub proof fn lemma_no_friction_without_grip(
    body: BodyModel,
    radius: int,
    linear: int,
    angular: int,
    normal: int,
)
    requires
        body.mass > 0,
        body.moment_of_inertia > 0,
        radius > 0,
    ensures
        friction_change(body, radius, linear, angular, normal, 0, 0) == (0int, 0int),
{
    let slip = surface_slip(linear, angular, radius);
    assert(normal * 0 == 0) by (nonlinear_arith);
    assert(friction_limit(normal, 0, 0, slip) == 0);
    lemma_coupled_inertia_positive(body, radius);
    let coupled = coupled_inertia(body, radius);
    let top = body.moment_of_inertia * abs(slip);
    assert(top >= 0) by (nonlinear_arith)
        requires
            top == body.moment_of_inertia * abs(slip),
            body.moment_of_inertia > 0,
            abs(slip) >= 0,
    ;
    lemma_div_at_least(top, coupled, 0);
    assert(friction(body, radius, slip, 0) == 0);
    assert(0 * body.mass == 0) by (nonlinear_arith);
    assert(0 * radius == 0) by (nonlinear_arith);
    assert(0int / body.moment_of_inertia == 0) by (nonlinear_arith)
        requires
            body.moment_of_inertia > 0,
    ;
}

/// The coupled inertia is at least the moment of inertia.
pub proof fn lemma_coupled_inertia_positive(body: BodyModel, radius: int)
    requires
        body.mass > 0,
        body.moment_of_inertia > 0,
        radius > 0,
    ensures
        coupled_inertia(body, radius) >= body.moment_of_inertia,
{
    lemma_inertia_term_covers(body.mass, radius);
}

/// The rounded-up term `mass * radius^2` of the coupled inertia is not
/// below the exact one.
proof fn lemma_inertia_term_covers(m: int, radius: int)
    requires
        m > 0,
        radius > 0,
    ensures
        ({
            let s = SCALE as int;
            let up = ceil_div(ceil_div(m * radius, s) * radius, s);
            up > 0 && up * (s * s) >= m * radius * radius
        }),
{
    let s = SCALE as int;
    let once = ceil_div(m * radius, s);
    let up = ceil_div(once * radius, s);
    lemma_div_brackets(-(m * radius), s);
    lemma_div_brackets(-(once * radius), s);
    assert(m * radius > 0) by (nonlinear_arith)
        requires
            m > 0,
            radius > 0,
    ;
    assert(once * s >= m * radius);
    assert(once > 0) by (nonlinear_arith)
        requires
            once * s >= m * radius,
            m * radius > 0,
            s > 0,
    ;
    assert(once * radius > 0) by (nonlinear_arith)
        requires
            once > 0,
            radius > 0,
    ;
    assert(up * s >= once * radius);
    assert(up > 0) by (nonlinear_arith)
        requires
            up * s >= once * radius,
            once * radius > 0,
            s > 0,
    ;
    assert(up * (s * s) >= m * radius * radius) by (nonlinear_arith)
        requires
            up * s >= once * radius,
            once * s >= m * radius,
            radius > 0,
            s > 0,
    ;
}

/// Friction stops slip and never reverses it. Whatever the motion, if
/// the Coulomb limit is not negative, the slip of the contact point after
/// friction has acted has the sign of the slip before, or is zero, and
/// is no larger in magnitude.
pub proof fn lemma_friction_never_reverses_slip(
    body: BodyModel,
    radius: int,
    linear: int,
    angular: int,
    limit: int,
)
    requires
        body.mass > 0,
        body.moment_of_inertia > 0,
        radius > 0,
        limit >= 0,
    ensures
        ({
            let slip = surface_slip(linear, angular, radius);
            let f = friction(body, radius, slip, limit);
            let after = surface_slip(linear + f, angular + friction_spin(body, radius, f), radius);
            &&& slip >= 0 ==> 0 <= after <= slip
            &&& slip <= 0 ==> slip <= after <= 0
            &&& abs(f) <= limit
            &&& abs(f) <= stopping_friction(body, radius, slip)
        }),
{
    let m = body.mass;
    let i = body.moment_of_inertia;
    let s = SCALE as int;
    let slip = surface_slip(linear, angular, radius);
    let slip_abs = abs(slip);
    let up = ceil_div(ceil_div(m * radius, s) * radius, s);
    let coupled = coupled_inertia(body, radius);
    let stopping = stopping_friction(body, radius, slip);
    let mag = abs(min(limit, stopping));
    let f = friction(body, radius, slip, limit);
    let carried = scaled_mul(mag, m);
    let spin = (carried * radius) / i;
    let q = scaled_mul(angular, radius);

    // The rounded-up inertia term covers the exact one.
    lemma_inertia_term_covers(m, radius);
    assert(coupled == up + i);
    // The stopping friction, and with it the magnitude applied.
    assert(i * slip_abs >= 0) by (nonlinear_arith)
        requires
            i > 0,
            slip_abs >= 0,
    ;
    lemma_div_brackets(i * slip_abs, coupled);
    lemma_div_at_least(i * slip_abs, coupled, 0);
    assert(0 <= mag <= stopping && mag <= limit);
    lemma_scale(mag, stopping, coupled);
    assert(mag * (up + i) <= i * slip_abs);
    // The angular change.
    assert(mag * m >= 0) by (nonlinear_arith)
        requires
            mag >= 0,
            m > 0,
    ;
    lemma_div_brackets(mag * m, s);
    lemma_div_at_least(mag * m, s, 0);
    assert(carried * radius >= 0) by (nonlinear_arith)
        requires
            carried >= 0,
            radius > 0,
    ;
    lemma_div_brackets(carried * radius, i);
    lemma_div_at_least(carried * radius, i, 0);
    lemma_coupling_bound(m, radius, i, s, up, slip_abs, mag, carried, spin);
    let room = slip_abs - mag;
    assert(spin * radius <= room * s);
    assert(spin * radius >= 0) by (nonlinear_arith)
        requires
            spin >= 0,
            radius > 0,
    ;
    lemma_div_brackets(angular * radius, s);
    if mag == 0 {
        assert(mag * m == 0) by (nonlinear_arith)
            requires
                mag == 0,
        ;
        assert(carried * radius == 0) by (nonlinear_arith)
            requires
                carried == 0,
        ;
        assert(f == 0 && friction_spin(body, radius, f) == 0);
    } else if slip >= 0 {
        assert(f == -mag && friction_spin(body, radius, f) == -spin);
        assert((angular - spin) * radius == angular * radius - spin * radius)
            by (nonlinear_arith);
        assert((q - room) * s == q * s - room * s) by (nonlinear_arith);
        lemma_div_at_least((angular - spin) * radius, s, q - room);
        lemma_div_at_most((angular - spin) * radius, s, q);
    } else {
        assert(f == mag && friction_spin(body, radius, f) == spin);
        assert((angular + spin) * radius == angular * radius + spin * radius)
            by (nonlinear_arith);
        assert((q + room) * s + s == q * s + room * s + s) by (nonlinear_arith);
        lemma_div_at_least((angular + spin) * radius, s, q);
        lemma_div_at_most((angular + spin) * radius, s, q + room);
    }
}

/// What friction leaves of the slip, in closed form up to rounding. With
/// a Coulomb limit that is not negative:
/// the friction `f` is the smaller of the limit and the stopping friction,
/// against the slip; the angular change `k` is `f * mass * radius /
/// moment_of_inertia`, short of it by less than `1 + radius /
/// moment_of_inertia` raw units; the slip moves towards zero by `|f|` and
/// by `|k| * radius`, to within one raw unit; and it shrinks strictly
/// wherever the friction is at least one raw unit.
pub proof fn lemma_friction_closed_form(
    body: BodyModel,
    radius: int,
    linear: int,
    angular: int,
    limit: int,
)
    requires
        body.mass > 0,
        body.moment_of_inertia > 0,
        radius > 0,
        limit >= 0,
    ensures
        ({
            let slip = surface_slip(linear, angular, radius);
            let f = friction(body, radius, slip, limit);
            let k = friction_spin(body, radius, f);
            let after = surface_slip(linear + f, angular + k, radius);
            let turned = scaled_mul(abs(k), radius);
            &&& abs(f) == min(limit, stopping_friction(body, radius, slip))
            &&& slip >= 0 ==> f <= 0 && k <= 0
            &&& slip < 0 ==> f >= 0 && k >= 0
            &&& 0 <= abs(f) * body.mass * radius - abs(k) * body.moment_of_inertia * SCALE < (
            body.moment_of_inertia + radius) * SCALE
            &&& slip >= 0 ==> slip - abs(f) - turned - 1 <= after <= slip - abs(f) - turned
            &&& slip < 0 ==> slip + abs(f) + turned <= after <= slip + abs(f) + turned + 1
            &&& abs(f) >= 1 ==> abs(after) < abs(slip)
        }),
{
    let m = body.mass;
    let i = body.moment_of_inertia;
    let s = SCALE as int;
    let slip = surface_slip(linear, angular, radius);
    let stopping = stopping_friction(body, radius, slip);
    let mag = abs(min(limit, stopping));
    let f = friction(body, radius, slip, limit);
    let k = friction_spin(body, radius, f);
    let carried = scaled_mul(mag, m);
    let spin = (carried * radius) / i;
    let q = scaled_mul(angular, radius);
    lemma_friction_never_reverses_slip(body, radius, linear, angular, limit);
    // The magnitudes.
    lemma_coupled_inertia_positive(body, radius);
    assert(i * abs(slip) >= 0) by (nonlinear_arith)
        requires
            i > 0,
            abs(slip) >= 0,
    ;
    lemma_div_at_least(i * abs(slip), coupled_inertia(body, radius), 0);
    assert(mag == min(limit, stopping) && mag >= 0);
    assert(mag * m >= 0) by (nonlinear_arith)
        requires
            mag >= 0,
            m > 0,
    ;
    lemma_div_brackets(mag * m, s);
    lemma_div_at_least(mag * m, s, 0);
    assert(carried * radius >= 0) by (nonlinear_arith)
        requires
            carried >= 0,
            radius > 0,
    ;
    lemma_div_brackets(carried * radius, i);
    lemma_div_at_least(carried * radius, i, 0);
    if mag == 0 {
        assert(mag * m == 0) by (nonlinear_arith)
            requires
                mag == 0,
        ;
        assert(carried * radius == 0) by (nonlinear_arith)
            requires
                carried == 0,
        ;
    }
    assert(abs(k) == spin && abs(f) == mag);
    // The angular change against the exact one.
    assert(0 <= mag * m * radius - spin * i * s < (i + radius) * s) by (nonlinear_arith)
        requires
            carried * s <= mag * m < carried * s + s,
            spin * i <= carried * radius < spin * i + i,
            radius > 0,
            s > 0,
            i > 0,
    ;
    // The slip after against the slip before.
    let turned = scaled_mul(spin, radius);
    assert(spin * radius >= 0) by (nonlinear_arith)
        requires
            spin >= 0,
            radius > 0,
    ;
    lemma_div_brackets(spin * radius, s);
    lemma_div_brackets(angular * radius, s);
    if slip >= 0 {
        assert(f == -mag && k == -spin);
        assert((angular - spin) * radius == angular * radius - spin * radius)
            by (nonlinear_arith);
        assert((q - turned - 1) * s == q * s - turned * s - s && (q - turned) * s + s == q * s
            - turned * s + s) by (nonlinear_arith);
        lemma_div_at_least((angular - spin) * radius, s, q - turned - 1);
        lemma_div_at_most((angular - spin) * radius, s, q - turned);
    } else {
        assert(f == mag && k == spin);
        assert((angular + spin) * radius == angular * radius + spin * radius)
            by (nonlinear_arith);
        assert((q + turned) * s == q * s + turned * s && (q + turned + 1) * s + s == q * s
            + turned * s + s + s) by (nonlinear_arith);
        lemma_div_at_least((angular + spin) * radius, s, q + turned);
        lemma_div_at_most((angular + spin) * radius, s, q + turned + 1);
    }
}

} // verus!
