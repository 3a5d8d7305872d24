//! The time integrator: a velocity-Verlet step split into the half that
//! runs before the forces of a tick are gathered and the half that runs
//! after, and a constant-acceleration integrator for sub-steps.

use vstd::prelude::*;
use crate::arith::{lemma_div_brackets, lemma_mul_bound};
use crate::body::{Body, BodyModel, Pose, PoseModel, Vec2, Vec2Model};
use crate::error::StepError;
use crate::fixed::{fits, half_mul, half_mul_wide, in_range, lemma_scaled_mul_bound, mul_wide,
    scaled_mul, Fixed, LIMIT, PRODUCT_LIMIT, SCALE};

verus! {

/// Which acceleration record a sub-step integrates with.
#[derive(Clone, Copy, Debug, PartialEq, Eq, Structural)]
pub enum AccelContext {
    /// The acceleration gathered during the current tick.
    Current,
    /// The acceleration that the first half of the tick consumed.
    Previous,
}

/// Velocity after a half kick: `v + a * dt / 2`.
pub open spec fn kicked(v: int, a: int, dt: int) -> int {
    v + half_mul(a, dt)
}

/// Position after drifting at velocity `v` for `dt`.
pub open spec fn drifted(p: int, v: int, dt: int) -> int {
    p + scaled_mul(v, dt)
}

/// Position after `dt` under constant acceleration `a` from velocity `v`:
/// `p + (v + a * dt / 2) * dt`.
pub open spec fn advanced_position(p: int, v: int, a: int, dt: int) -> int {
    p + half_mul(2 * v + scaled_mul(a, dt), dt)
}

/// Velocity after `dt` under constant acceleration `a`.
pub open spec fn advanced_velocity(v: int, a: int, dt: int) -> int {
    v + scaled_mul(a, dt)
}

/// State after the first half of a tick.
pub open spec fn integrate_before_spec(pose: PoseModel, body: BodyModel, dt: int) -> (
    PoseModel,
    BodyModel,
) {
    let vx = kicked(body.vel.x, body.acc.x, dt);
    let vy = kicked(body.vel.y, body.acc.y, dt);
    let w = kicked(body.angular_vel, body.angular_acc, dt);
    (
        PoseModel {
            position: Vec2Model {
                x: drifted(pose.position.x, vx, dt),
                y: drifted(pose.position.y, vy, dt),
            },
            orientation: drifted(pose.orientation, w, dt),
        },
        BodyModel {
            vel: Vec2Model { x: vx, y: vy },
            acc: Vec2Model { x: 0, y: 0 },
            acc_prev: body.acc,
            angular_vel: w,
            angular_acc: 0,
            angular_acc_prev: body.angular_acc,
            ..body
        },
    )
}

/// State after the second half of a tick.
pub open spec fn integrate_after_spec(body: BodyModel, dt: int) -> BodyModel {
    BodyModel {
        vel: Vec2Model {
            x: kicked(body.vel.x, body.acc.x, dt),
            y: kicked(body.vel.y, body.acc.y, dt),
        },
        angular_vel: kicked(body.angular_vel, body.angular_acc, dt),
        ..body
    }
}

/// The linear acceleration that a context selects.
pub open spec fn context_acc(body: BodyModel, context: AccelContext) -> Vec2Model {
    match context {
        AccelContext::Current => body.acc,
        AccelContext::Previous => body.acc_prev,
    }
}

/// The angular acceleration that a context selects.
pub open spec fn context_angular_acc(body: BodyModel, context: AccelContext) -> int {
    match context {
        AccelContext::Current => body.angular_acc,
        AccelContext::Previous => body.angular_acc_prev,
    }
}

/// State after `dt` of constant acceleration; a negative `dt` rewinds.
pub open spec fn integrate_simple_spec(
    pose: PoseModel,
    body: BodyModel,
    dt: int,
    context: AccelContext,
) -> (PoseModel, BodyModel) {
    let a = context_acc(body, context);
    let alpha = context_angular_acc(body, context);
    (
        PoseModel {
            position: Vec2Model {
                x: advanced_position(pose.position.x, body.vel.x, a.x, dt),
                y: advanced_position(pose.position.y, body.vel.y, a.y, dt),
            },
            orientation: advanced_position(pose.orientation, body.angular_vel, alpha, dt),
        },
        BodyModel {
            vel: Vec2Model {
                x: advanced_velocity(body.vel.x, a.x, dt),
                y: advanced_velocity(body.vel.y, a.y, dt),
            },
            angular_vel: advanced_velocity(body.angular_vel, alpha, dt),
            ..body
        },
    )
}

/// `v + a * dt / 2` before the range is checked.
fn kick(v: Fixed, a: Fixed, dt: Fixed) -> (r: i128)
    requires
        in_range(v@),
        in_range(a@),
        in_range(dt@),
    ensures
        r == kicked(v@, a@, dt@),
        -2 * PRODUCT_LIMIT <= r <= 2 * PRODUCT_LIMIT,
{
    proof {
        lemma_scaled_mul_bound(a@, dt@, 1);
    }
    v.raw + half_mul_wide(a.raw, dt.raw)
}

/// `p + v * dt` before the range is checked.
fn drift(p: Fixed, v: i128, dt: Fixed) -> (r: i128)
    requires
        in_range(p@),
        -2 * PRODUCT_LIMIT <= v <= 2 * PRODUCT_LIMIT,
        in_range(dt@),
    ensures
        r == drifted(p@, v as int, dt@),
{
    proof {
        lemma_mul_bound(v as int, dt@, 2 * PRODUCT_LIMIT, LIMIT as int);
    }
    p.raw + mul_wide(v, dt.raw)
}

/// `p + (v + a * dt / 2) * dt` before the range is checked.
fn advance_position(p: Fixed, v: Fixed, a: Fixed, dt: Fixed) -> (r: i128)
    requires
        in_range(p@),
        in_range(v@),
        in_range(a@),
        in_range(dt@),
    ensures
        r == advanced_position(p@, v@, a@, dt@),
{
    proof {
        lemma_scaled_mul_bound(a@, dt@, 1);
    }
    let dv: i128 = mul_wide(a.raw, dt.raw);
    let twice: i128 = 2 * v.raw + dv;
    proof {
        lemma_mul_bound(twice as int, dt@, 2 * PRODUCT_LIMIT, LIMIT as int);
    }
    p.raw + half_mul_wide(twice, dt.raw)
}

/// `v + a * dt` before the range is checked.
fn advance_velocity(v: Fixed, a: Fixed, dt: Fixed) -> (r: i128)
    requires
        in_range(v@),
        in_range(a@),
        in_range(dt@),
    ensures
        r == advanced_velocity(v@, a@, dt@),
{
    proof {
        lemma_scaled_mul_bound(a@, dt@, 1);
    }
    v.raw + mul_wide(a.raw, dt.raw)
}

/// The first half of a tick: half a kick from the gathered acceleration,
/// a full drift, then the acceleration moves to the `_prev` fields and is
/// cleared for the contributors of this tick.
///
/// Fails, changing nothing, exactly when a result leaves the range.
pub fn integrate_before(dt: Fixed, pose: &mut Pose, body: &mut Body) -> (r: Result<
    (),
    StepError,
>)
    requires
        in_range(dt@),
        old(pose).wf(),
        old(body).wf(),
    ensures
        r is Ok <==> integrate_before_spec(old(pose)@, old(body)@, dt@).0.in_range()
            && integrate_before_spec(old(pose)@, old(body)@, dt@).1.in_range(),
        r is Ok ==> final(pose)@ == integrate_before_spec(old(pose)@, old(body)@, dt@).0
            && final(body)@ == integrate_before_spec(old(pose)@, old(body)@, dt@).1
            && final(pose).wf() && final(body).wf(),
        r matches Err(e) ==> e == StepError::OutOfRange && *final(pose) == *old(pose)
            && *final(body) == *old(body),
{
    let vx: i128 = kick(body.vel.x, body.acc.x, dt);
    let vy: i128 = kick(body.vel.y, body.acc.y, dt);
    let w: i128 = kick(body.angular_vel, body.angular_acc, dt);
    let px: i128 = drift(pose.position.x, vx, dt);
    let py: i128 = drift(pose.position.y, vy, dt);
    let angle: i128 = drift(pose.orientation, w, dt);
    if fits(vx) && fits(vy) && fits(w) && fits(px) && fits(py) && fits(angle) {
        pose.position = Vec2 { x: Fixed::from_raw(px), y: Fixed::from_raw(py) };
        pose.orientation = Fixed::from_raw(angle);
        body.acc_prev = body.acc;
        body.angular_acc_prev = body.angular_acc;
        body.vel = Vec2 { x: Fixed::from_raw(vx), y: Fixed::from_raw(vy) };
        body.angular_vel = Fixed::from_raw(w);
        body.acc = Vec2::zero();
        body.angular_acc = Fixed::zero();
        Ok(())
    } else {
        Err(StepError::OutOfRange)
    }
}

/// The second half of a tick: half a kick from the acceleration that the
/// contributors of this tick gathered. The pose is not touched.
///
/// Fails, changing nothing, exactly when a result leaves the range.
pub fn integrate_after(dt: Fixed, body: &mut Body) -> (r: Result<(), StepError>)
    requires
        in_range(dt@),
        old(body).wf(),
    ensures
        r is Ok <==> integrate_after_spec(old(body)@, dt@).in_range(),
        r is Ok ==> final(body)@ == integrate_after_spec(old(body)@, dt@) && final(body).wf(),
        r matches Err(e) ==> e == StepError::OutOfRange && *final(body) == *old(body),
{
    let vx: i128 = kick(body.vel.x, body.acc.x, dt);
    let vy: i128 = kick(body.vel.y, body.acc.y, dt);
    let w: i128 = kick(body.angular_vel, body.angular_acc, dt);
    if fits(vx) && fits(vy) && fits(w) {
        body.vel = Vec2 { x: Fixed::from_raw(vx), y: Fixed::from_raw(vy) };
        body.angular_vel = Fixed::from_raw(w);
        Ok(())
    } else {
        Err(StepError::OutOfRange)
    }
}

/// Moves the disc by `dt` under the constant acceleration that `context`
/// selects; a negative `dt` rewinds. The collision solver replays motion
/// around the instant of contact with it.
///
/// Fails, changing nothing, exactly when a result leaves the range.
pub fn integrate_simple(dt: Fixed, pose: &mut Pose, body: &mut Body, context: AccelContext) -> (r:
    Result<(), StepError>)
    requires
        in_range(dt@),
        old(pose).wf(),
        old(body).wf(),
    ensures
        r is Ok <==> integrate_simple_spec(old(pose)@, old(body)@, dt@, context).0.in_range()
            && integrate_simple_spec(old(pose)@, old(body)@, dt@, context).1.in_range(),
        r is Ok ==> final(pose)@ == integrate_simple_spec(old(pose)@, old(body)@, dt@, context).0
            && final(body)@ == integrate_simple_spec(old(pose)@, old(body)@, dt@, context).1
            && final(pose).wf() && final(body).wf(),
        r matches Err(e) ==> e == StepError::OutOfRange && *final(pose) == *old(pose)
            && *final(body) == *old(body),
{
    let a: Vec2 = match context {
        AccelContext::Current => body.acc,
        AccelContext::Previous => body.acc_prev,
    };
    let alpha: Fixed = match context {
        AccelContext::Current => body.angular_acc,
        AccelContext::Previous => body.angular_acc_prev,
    };
    let px: i128 = advance_position(pose.position.x, body.vel.x, a.x, dt);
    let py: i128 = advance_position(pose.position.y, body.vel.y, a.y, dt);
    let angle: i128 = advance_position(pose.orientation, body.angular_vel, alpha, dt);
    let vx: i128 = advance_velocity(body.vel.x, a.x, dt);
    let vy: i128 = advance_velocity(body.vel.y, a.y, dt);
    let w: i128 = advance_velocity(body.angular_vel, alpha, dt);
    if fits(vx) && fits(vy) && fits(w) && fits(px) && fits(py) && fits(angle) {
        pose.position = Vec2 { x: Fixed::from_raw(px), y: Fixed::from_raw(py) };
        pose.orientation = Fixed::from_raw(angle);
        body.vel = Vec2 { x: Fixed::from_raw(vx), y: Fixed::from_raw(vy) };
        body.angular_vel = Fixed::from_raw(w);
        Ok(())
    } else {
        Err(StepError::OutOfRange)
    }
}

/// A product with zero, scaled or halved, is zero.
pub proof fn lemma_zero_dt_products(a: int)
    ensures
        half_mul(a, 0) == 0,
        scaled_mul(a, 0) == 0,
{
    assert(a * 0 == 0) by (nonlinear_arith);
}

/// A tick of length zero moves nothing: the first half of the integrator
/// leaves pose and velocities as they are, and still consumes the
/// gathered acceleration; the second half and a sub-step of length zero
/// change nothing at all.
pub proof fn lemma_zero_dt_is_no_op(pose: PoseModel, body: BodyModel, context: AccelContext)
    ensures
        integrate_before_spec(pose, body, 0).0 == pose,
        integrate_before_spec(pose, body, 0).1 == (BodyModel {
            acc: Vec2Model { x: 0, y: 0 },
            acc_prev: body.acc,
            angular_acc: 0,
            angular_acc_prev: body.angular_acc,
            ..body
        }),
        integrate_after_spec(body, 0) == body,
        integrate_simple_spec(pose, body, 0, context) == (pose, body),
{
    lemma_zero_dt_products(body.acc.x);
    lemma_zero_dt_products(body.acc.y);
    lemma_zero_dt_products(body.angular_acc);
    lemma_zero_dt_products(body.vel.x);
    lemma_zero_dt_products(body.vel.y);
    lemma_zero_dt_products(body.angular_vel);
    let a = context_acc(body, context);
    let alpha = context_angular_acc(body, context);
    lemma_zero_dt_products(a.x);
    lemma_zero_dt_products(a.y);
    lemma_zero_dt_products(alpha);
    lemma_zero_dt_products(2 * body.vel.x + scaled_mul(a.x, 0));
    lemma_zero_dt_products(2 * body.vel.y + scaled_mul(a.y, 0));
    lemma_zero_dt_products(2 * body.angular_vel + scaled_mul(alpha, 0));
}

/// A sub-step under gravity keeps the energy, up to rounding. For a
/// point at height `y` with vertical velocity `v`, moved by `t` under the
/// constant acceleration `-g`, forwards or backwards, the quantity
/// `v^2 + 2 * g * y` does not grow if the point rises on average over the
/// sub-step, and grows by less than the sum of the two speeds if it
/// falls. It shrinks by no more than `2 * g`, and the sum of the two
/// speeds if the point rises.
pub proof fn lemma_sub_step_keeps_energy(y: int, v: int, g: int, t: int)
    requires
        g >= 0,
    ensures
        ({
            let v2 = advanced_velocity(v, -g, t);
            let y2 = advanced_position(y, v, -g, t);
            &&& v + v2 >= 0 ==> v2 * v2 + 2 * (g * y2) <= v * v + 2 * (g * y)
            &&& v + v2 < 0 ==> v2 * v2 + 2 * (g * y2) < v * v + 2 * (g * y) - (v + v2)
            &&& v + v2 >= 0 ==> v2 * v2 + 2 * (g * y2) >= v * v + 2 * (g * y) - (v + v2) - 2 * g
            &&& v + v2 < 0 ==> v2 * v2 + 2 * (g * y2) >= v * v + 2 * (g * y) - 2 * g
        }),
{
    let s = SCALE as int;
    let dv = scaled_mul(-g, t);
    let u = 2 * v + dv;
    let dy = half_mul(u, t);
    let v2 = v + dv;
    let y2 = y + dy;
    lemma_div_brackets((-g) * t, s);
    lemma_div_brackets(u * t, 2 * s);
    let p = g * t;
    assert((-g) * t == -p) by (nonlinear_arith)
        requires
            p == g * t,
    ;
    let slack = s * dv + p;
    assert(-s < slack <= 0);
    let change = dv * u + 2 * (g * dy);
    assert(v2 * v2 + 2 * (g * y2) - (v * v + 2 * (g * y)) == change) by (nonlinear_arith)
        requires
            v2 == v + dv,
            y2 == y + dy,
            u == 2 * v + dv,
            change == dv * u + 2 * (g * dy),
    ;
    let lifted = g * (dy * (2 * s));
    let carried = g * (u * t);
    assert(lifted <= carried) by (nonlinear_arith)
        requires
            lifted == g * (dy * (2 * s)),
            carried == g * (u * t),
            dy * (2 * s) <= u * t,
            g >= 0,
    ;
    assert(s * change == s * (dv * u) + lifted) by (nonlinear_arith)
        requires
            change == dv * u + 2 * (g * dy),
            lifted == g * (dy * (2 * s)),
    ;
    assert(u * slack == s * (dv * u) + carried) by (nonlinear_arith)
        requires
            slack == s * dv + p,
            p == g * t,
            carried == g * (u * t),
    ;
    assert(s * change <= u * slack);
    // From below: the position is rounded down by less than one unit.
    let sunk = g * (u * t - 2 * s);
    assert(lifted >= sunk) by (nonlinear_arith)
        requires
            lifted == g * (dy * (2 * s)),
            sunk == g * (u * t - 2 * s),
            u * t < dy * (2 * s) + 2 * s,
            g >= 0,
    ;
    assert(sunk == carried - 2 * (s * g)) by (nonlinear_arith)
        requires
            sunk == g * (u * t - 2 * s),
            carried == g * (u * t),
    ;
    assert(s * change >= u * slack - 2 * (s * g));
    if u >= 0 {
        assert(change >= -u - 2 * g) by (nonlinear_arith)
            requires
                s * change >= u * slack - 2 * (s * g),
                u >= 0,
                -s < slack,
                s > 0,
        ;
    } else {
        assert(change >= -2 * g) by (nonlinear_arith)
            requires
                s * change >= u * slack - 2 * (s * g),
                u < 0,
                slack <= 0,
                s > 0,
        ;
    }
    if u >= 0 {
        assert(change <= 0) by (nonlinear_arith)
            requires
                s * change <= u * slack,
                u >= 0,
                slack <= 0,
                s > 0,
        ;
    } else {
        assert(change < -u) by (nonlinear_arith)
            requires
                s * change <= u * slack,
                u < 0,
                -s < slack,
                s > 0,
        ;
    }
}

} // verus!
