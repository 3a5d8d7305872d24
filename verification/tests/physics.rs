use disc_physics::body::{Body, Collider, Pose, Vec2, FLOOR_Y};
use disc_physics::collision::{
    bounce, bounce_applies, calculate_collision_dt, collision, collision_applies, impact,
    resolve_collision, resolve_collision_applies,
};
use disc_physics::error::StepError;
use disc_physics::fixed::{Fixed, LIMIT, SCALE};
use disc_physics::forces::{
    apply_gravity, gravity_after_input, player_force, player_impulse, Gravity, InputSnapshot,
    Player, DEFAULT_GRAVITY,
};
use disc_physics::friction::{
    apply_friction_force, apply_friction_impulse, friction_force, friction_impulse,
};
use disc_physics::integrator::{
    integrate_after, integrate_before, integrate_simple, AccelContext,
};
use disc_physics::step::{step, step_applies};

fn fx(x: f64) -> Fixed {
    Fixed::from_raw((x * SCALE as f64).round() as i128)
}

fn as_f64(x: Fixed) -> f64 {
    x.raw() as f64 / SCALE as f64
}

fn raw(x: i128) -> Fixed {
    Fixed::from_raw(x)
}

fn tick() -> Fixed {
    fx(1.0 / 60.0)
}

fn disc(radius: f64, restitution: f64, kinetic_friction: f64) -> (Pose, Body, Collider) {
    let pose = Pose::new(fx(0.0), fx(0.0)).unwrap();
    let body = Body::new(fx(10.0), fx(radius)).unwrap();
    let collider = Collider::new(fx(radius), fx(restitution), fx(kinetic_friction)).unwrap();
    (pose, body, collider)
}

fn player() -> Player {
    Player { jump_impulse: fx(10_000.0), torque: fx(200_000.0) }
}

fn slip(body: &Body, collider: &Collider) -> i128 {
    let spin = (body.angular_vel.raw() as i128 * collider.radius.raw() as i128)
        .div_euclid(SCALE as i128);
    body.vel.x.raw() + spin
}

fn twice_energy(pose: &Pose, body: &Body, gravity: &Gravity) -> i128 {
    let m = body.mass.raw() as i128;
    let vx = body.vel.x.raw() as i128;
    let vy = body.vel.y.raw() as i128;
    let w = body.angular_vel.raw() as i128;
    let i = body.moment_of_inertia.raw() as i128;
    let g = gravity.strength.raw() as i128;
    let y = pose.position.y.raw() as i128;
    m * (vx * vx + vy * vy) + i * w * w + 2 * m * g * (y - FLOOR_Y as i128)
}

#[test]
fn constants_of_the_scene() {
    assert_eq!(FLOOR_Y, -360 * SCALE);
    assert_eq!(DEFAULT_GRAVITY, 2000 * SCALE);
    assert_eq!(Gravity::default().strength.raw(), 2000 * SCALE);
}

#[test]
fn body_new_has_the_inertia_of_a_solid_disc() {
    let body = Body::new(fx(10.0), fx(25.0)).unwrap();
    assert_eq!(body.moment_of_inertia.raw(), 3125 * SCALE);
    assert_eq!(body.mass.raw(), 10 * SCALE);
    assert_eq!(body.vel, Vec2::zero());
    assert_eq!(body.acc, Vec2::zero());
    assert_eq!(body.acc_prev, Vec2::zero());
    assert_eq!(body.angular_vel.raw(), 0);
    assert_eq!(body.angular_acc.raw(), 0);
    assert_eq!(body.angular_acc_prev.raw(), 0);
    assert!(body.is_valid());
}

#[test]
fn body_new_rejects_what_is_not_admissible() {
    assert!(Body::new(fx(0.0), fx(25.0)).is_none());
    assert!(Body::new(fx(-1.0), fx(25.0)).is_none());
    assert!(Body::new(fx(10.0), fx(0.0)).is_none());
    assert!(Body::new(raw(LIMIT + 1), fx(1.0)).is_none());
    // The inertia itself would leave the range.
    assert!(Body::new(fx(1000.0), fx(1000.0)).is_none());
    // The inertia would round down to zero.
    assert!(Body::new(raw(1), raw(1)).is_none());
    // A large disc is fine.
    let large = Body::new(fx(10.0), fx(500.0)).unwrap();
    assert_eq!(large.moment_of_inertia.raw(), 1_250_000 * SCALE);
}

#[test]
fn collider_new_checks_its_parameters() {
    let c = Collider::new(fx(25.0), fx(0.3), fx(0.5)).unwrap();
    assert!(!c.touching_ground);
    assert_eq!(c.friction_acc.raw(), 0);
    assert_eq!(c.friction_acc_prev.raw(), 0);
    assert!(c.is_valid());
    assert!(Collider::new(fx(0.0), fx(0.3), fx(0.5)).is_none());
    assert!(Collider::new(fx(25.0), fx(-0.1), fx(0.5)).is_none());
    assert!(Collider::new(fx(25.0), fx(1.1), fx(0.5)).is_none());
    assert!(Collider::new(fx(25.0), fx(1.0), fx(0.0)).is_some());
    assert!(Collider::new(fx(25.0), fx(0.3), fx(-0.5)).is_none());
}

#[test]
fn pose_new_checks_the_range() {
    let p = Pose::new(fx(1.0), fx(-2.0)).unwrap();
    assert_eq!(p.position.x.raw(), SCALE);
    assert_eq!(p.position.y.raw(), -2 * SCALE);
    assert_eq!(p.orientation.raw(), 0);
    assert!(p.is_valid());
    assert!(Pose::new(raw(LIMIT + 1), fx(0.0)).is_none());
    let mut q = p;
    q.orientation = raw(-LIMIT - 1);
    assert!(!q.is_valid());
}

#[test]
fn validity_checks_see_each_field() {
    let (_, body, collider) = disc(25.0, 0.3, 0.5);
    let mut b = body;
    b.mass = raw(0);
    assert!(!b.is_valid());
    let mut b = body;
    b.moment_of_inertia = raw(-1);
    assert!(!b.is_valid());
    let mut b = body;
    b.acc_prev.y = raw(LIMIT + 1);
    assert!(!b.is_valid());
    let mut c = collider;
    c.restitution = raw(SCALE + 1);
    assert!(!c.is_valid());
    let mut c = collider;
    c.kinetic_friction = raw(-1);
    assert!(!c.is_valid());
}

#[test]
fn integrate_before_kicks_drifts_and_clears() {
    let (mut pose, mut body, _) = disc(25.0, 0.3, 0.5);
    pose.position = Vec2 { x: fx(1.5), y: fx(-2.25) };
    pose.orientation = fx(0.5);
    body.vel = Vec2 { x: fx(3.0), y: fx(-4.0) };
    body.acc = Vec2 { x: fx(10.0), y: fx(-2000.0) };
    body.angular_vel = fx(2.0);
    body.angular_acc = fx(-64.0);
    assert_eq!(integrate_before(tick(), &mut pose, &mut body), Ok(()));
    assert_eq!(pose.position.x.raw(), 26_027_985);
    assert_eq!(pose.position.y.raw(), -43_527_545);
    assert_eq!(pose.orientation.raw(), 8_798_717);
    assert_eq!(body.vel.x.raw(), 51_729_748);
    assert_eq!(body.vel.y.raw(), -346_728_864);
    assert_eq!(body.angular_vel.raw(), 24_606_592);
    assert_eq!(body.acc, Vec2::zero());
    assert_eq!(body.angular_acc.raw(), 0);
    assert_eq!(body.acc_prev.x.raw(), 167_772_160);
    assert_eq!(body.acc_prev.y.raw(), -33_554_432_000);
    assert_eq!(body.angular_acc_prev.raw(), -1_073_741_824);
}

#[test]
fn integrate_after_kicks_only() {
    let (mut pose, mut body, _) = disc(25.0, 0.3, 0.5);
    pose.position = Vec2 { x: fx(1.5), y: fx(-2.25) };
    body.vel = Vec2 { x: raw(51_729_748), y: raw(-346_728_864) };
    body.acc = Vec2 { x: fx(7.0), y: fx(-2000.0) };
    body.angular_vel = raw(24_606_592);
    body.angular_acc = fx(64.0);
    let before = (pose, body);
    assert_eq!(integrate_after(tick(), &mut body), Ok(()));
    assert_eq!(body.vel.x.raw(), 52_708_418);
    assert_eq!(body.vel.y.raw(), -626_348_864);
    assert_eq!(body.angular_vel.raw(), 33_554_432);
    assert_eq!(body.acc, before.1.acc);
    assert_eq!(body.angular_acc, before.1.angular_acc);
    assert_eq!(pose, before.0);
}

#[test]
fn integrate_simple_rewinds_and_replays() {
    let (mut pose, mut body, _) = disc(25.0, 0.3, 0.5);
    pose.position = Vec2 { x: raw(26_027_985), y: raw(-43_527_545) };
    pose.orientation = raw(8_798_717);
    body.vel = Vec2 { x: raw(52_708_418), y: raw(-626_348_864) };
    body.acc = Vec2 { x: fx(7.0), y: fx(-2000.0) };
    body.acc_prev = Vec2 { x: fx(10.0), y: fx(-2000.0) };
    body.angular_vel = raw(33_554_432);
    body.angular_acc = fx(64.0);
    body.angular_acc_prev = fx(-64.0);
    let t = fx(0.004);
    let back = raw(-t.raw());
    assert_eq!(integrate_simple(back, &mut pose, &mut body, AccelContext::Current), Ok(()));
    assert_eq!(pose.position.x.raw(), 25_818_090);
    assert_eq!(pose.position.y.raw(), -41_290_582);
    assert_eq!(pose.orientation.raw(), 8_673_088);
    assert_eq!(body.vel.x.raw(), 52_238_655);
    assert_eq!(body.vel.y.raw(), -492_130_864);
    assert_eq!(body.angular_vel.raw(), 29_259_456);
    assert_eq!(integrate_simple(t, &mut pose, &mut body, AccelContext::Previous), Ok(()));
    assert_eq!(pose.position.x.raw(), 26_028_387);
    assert_eq!(pose.position.y.raw(), -43_527_546);
    assert_eq!(pose.orientation.raw(), 8_781_536);
    assert_eq!(body.vel.x.raw(), 52_909_745);
    assert_eq!(body.vel.y.raw(), -626_348_864);
    assert_eq!(body.angular_vel.raw(), 24_964_480);
    // The accelerations themselves are never touched.
    assert_eq!(body.acc.x.raw(), 7 * SCALE);
    assert_eq!(body.acc_prev.x.raw(), 10 * SCALE);
}

#[test]
fn zero_dt_moves_nothing_but_consumes_the_acceleration() {
    let (mut pose, mut body, _) = disc(25.0, 0.3, 0.5);
    pose.position = Vec2 { x: fx(1.5), y: fx(-2.25) };
    pose.orientation = fx(0.5);
    body.vel = Vec2 { x: fx(3.0), y: fx(-4.0) };
    body.acc = Vec2 { x: fx(10.0), y: fx(-2000.0) };
    body.angular_vel = fx(2.0);
    body.angular_acc = fx(-64.0);
    let (pose0, body0) = (pose, body);
    assert_eq!(integrate_before(raw(0), &mut pose, &mut body), Ok(()));
    assert_eq!(pose, pose0);
    assert_eq!(body.vel, body0.vel);
    assert_eq!(body.angular_vel, body0.angular_vel);
    assert_eq!(body.acc, Vec2::zero());
    assert_eq!(body.angular_acc.raw(), 0);
    assert_eq!(body.acc_prev, body0.acc);
    assert_eq!(body.angular_acc_prev, body0.angular_acc);
    let body1 = body;
    body.acc = Vec2 { x: fx(7.0), y: fx(-2000.0) };
    let body2 = body;
    assert_eq!(integrate_after(raw(0), &mut body), Ok(()));
    assert_eq!(body, body2);
    assert_eq!(integrate_simple(raw(0), &mut pose, &mut body, AccelContext::Previous), Ok(()));
    assert_eq!(pose, pose0);
    assert_eq!(body, body2);
    assert_eq!(body1.vel, body0.vel);
}

#[test]
fn integrators_refuse_to_leave_the_range() {
    let (mut pose, mut body, _) = disc(25.0, 0.3, 0.5);
    body.vel = Vec2 { x: raw(LIMIT), y: raw(0) };
    body.acc = Vec2 { x: raw(LIMIT), y: raw(0) };
    let (pose0, body0) = (pose, body);
    assert_eq!(integrate_before(fx(1.0), &mut pose, &mut body), Err(StepError::OutOfRange));
    assert_eq!((pose, body), (pose0, body0));
    assert_eq!(integrate_after(fx(1.0), &mut body), Err(StepError::OutOfRange));
    assert_eq!(body, body0);
    assert_eq!(
        integrate_simple(fx(1.0), &mut pose, &mut body, AccelContext::Current),
        Err(StepError::OutOfRange)
    );
    assert_eq!((pose, body), (pose0, body0));
}

#[test]
fn collision_dt_above_the_floor_lies_ahead() {
    // s = 5, v = -100, a = -2000: the surface is 5 above the floor and
    // falling, so the crossing lies 0.0366 ahead.
    let t = calculate_collision_dt(fx(5.0), fx(-100.0), fx(-2000.0)).unwrap();
    assert_eq!(t.raw(), -614_089);
    let closed_form = (30_000f64.sqrt() - 100.0) / 2000.0;
    assert!((as_f64(t).abs() - closed_form).abs() < 2e-6);
    // It is a root of s - v t + a t^2 / 2.
    let x = as_f64(t);
    assert!((5.0 + 100.0 * x - 1000.0 * x * x).abs() < 1e-3);
}

#[test]
fn collision_dt_below_the_floor_lies_behind() {
    let t = calculate_collision_dt(fx(-1.0), fx(-100.0), fx(-2000.0)).unwrap();
    assert_eq!(t.raw(), 189_082);
    let closed_form = (100.0 - 6_000f64.sqrt()) / 2000.0;
    assert!((as_f64(t) - closed_form).abs() < 2e-6);
}

#[test]
fn collision_dt_without_acceleration_is_a_quotient() {
    let t = calculate_collision_dt(fx(-5.0), fx(-100.0), fx(0.0)).unwrap();
    assert_eq!(t.raw(), 838_861);
    let t = calculate_collision_dt(fx(-5.0), fx(100.0), fx(0.0)).unwrap();
    assert_eq!(t.raw(), -838_861);
}

#[test]
fn collision_dt_without_acceleration_is_the_nearest_quotient() {
    // The surface crossed the floor a hundredth of a second ago.
    let t = calculate_collision_dt(fx(-1.0), fx(-100.0), fx(0.0)).unwrap();
    assert_eq!(t.raw(), 167_772);
    assert!((as_f64(t) - 0.01).abs() <= 1e-7);
    // The quotient is rounded to the nearest raw unit, halves upwards.
    assert_eq!(calculate_collision_dt(raw(1), raw(3 * SCALE), raw(0)).unwrap().raw(), 0);
    assert_eq!(calculate_collision_dt(raw(2), raw(3 * SCALE), raw(0)).unwrap().raw(), 1);
    assert_eq!(calculate_collision_dt(raw(3), raw(2 * SCALE), raw(0)).unwrap().raw(), 2);
    assert_eq!(calculate_collision_dt(raw(-3), raw(2 * SCALE), raw(0)).unwrap().raw(), -1);
    assert_eq!(calculate_collision_dt(raw(3), raw(-2 * SCALE), raw(0)).unwrap().raw(), -1);
}

#[test]
fn the_solver_applies_to_a_disc_that_fell_into_the_floor() {
    let (mut pose, mut body, mut collider) = disc(20.0, 0.3, 0.5);
    pose.position.y = raw(FLOOR_Y + 20 * SCALE - SCALE);
    body.vel = Vec2 { x: fx(30.0), y: fx(-100.0) };
    body.acc.y = fx(-2000.0);
    body.acc_prev.y = fx(-2000.0);
    assert!(bounce_applies(
        tick(), &pose, &body, collider.radius, collider.restitution,
        collider.kinetic_friction));
    assert!(resolve_collision_applies(tick(), &pose, &body, &collider));
    assert!(collision_applies(tick(), &pose, &body, &collider));
    // It applies to every disc that is on the floor already, and to every
    // disc that is clear of it.
    body.vel.y = fx(100.0);
    assert!(!collision_applies(tick(), &pose, &body, &collider));
    collider.touching_ground = true;
    assert!(collision_applies(tick(), &pose, &body, &collider));
    collider.touching_ground = false;
    pose.position.y = raw(FLOOR_Y + 20 * SCALE + 1);
    assert!(collision_applies(tick(), &pose, &body, &collider));
    // A disc 5 above the floor and falling has its crossing ahead.
    pose.position.y = raw(FLOOR_Y + 25 * SCALE);
    body.vel.y = fx(-100.0);
    assert!(!bounce_applies(
        fx(0.02), &pose, &body, collider.radius, collider.restitution, fx(0.0)));
}

#[test]
fn collision_dt_may_not_exist() {
    // The parabola never reaches the floor.
    assert_eq!(calculate_collision_dt(fx(-5.0), fx(-100.0), fx(-2000.0)), None);
    // Nothing moves.
    assert_eq!(calculate_collision_dt(fx(-5.0), fx(0.0), fx(0.0)), None);
}

#[test]
fn collision_dt_rising_under_upward_acceleration() {
    // v >= 0 takes the positive root: (v - sqrt(v^2 - 2 a s)) / a.
    let t = calculate_collision_dt(fx(-1.0), fx(100.0), fx(2000.0)).unwrap();
    let closed_form = (100.0 - 14_000f64.sqrt()) / 2000.0;
    assert_eq!(t.raw(), -153_693);
    assert!((as_f64(t) - closed_form).abs() < 2e-6);
}

#[test]
fn friction_impulse_is_limited_by_the_normal_impulse() {
    let (_, mut body, collider) = disc(25.0, 0.3, 0.5);
    body.vel.x = fx(50.0);
    body.angular_vel = fx(-3.0);
    // Slip is 50 - 3 * 25 = -25; the limit 10 * 0.5 = 5 is below the
    // stopping impulse 25 / 3.
    let r = apply_friction_impulse(
        &mut body, collider.radius, fx(10.0), collider.kinetic_friction, fx(0.0));
    assert_eq!(r, Ok(()));
    assert_eq!(body.vel.x.raw(), 50 * SCALE + 83_886_080);
    assert_eq!(body.angular_vel.raw(), -3 * SCALE + 6_710_886);
}

#[test]
fn friction_impulse_is_limited_by_the_stopping_impulse() {
    let (_, mut body, collider) = disc(25.0, 0.3, 0.5);
    body.vel.x = fx(50.0);
    body.angular_vel = fx(-3.0);
    let r = apply_friction_impulse(
        &mut body, collider.radius, fx(1000.0), collider.kinetic_friction, fx(0.0));
    assert_eq!(r, Ok(()));
    assert_eq!(body.vel.x.raw(), 50 * SCALE + 139_810_133);
    assert_eq!(body.angular_vel.raw(), -3 * SCALE + 11_184_810);
    // The slip is all but gone, and has not changed sign.
    assert_eq!(slip(&body, &collider), -17);
}

#[test]
fn friction_impulse_counts_what_was_applied_along_the_slip() {
    let (_, mut body, collider) = disc(25.0, 0.3, 0.5);
    body.vel.x = fx(-50.0);
    body.angular_vel = fx(1.0);
    // Slip is -25: the applied friction counts against the limit with
    // its sign reversed, 10 * 0.5 - 2 = 3.
    let r = apply_friction_impulse(
        &mut body, collider.radius, fx(10.0), collider.kinetic_friction, fx(2.0));
    assert_eq!(r, Ok(()));
    assert_eq!(body.vel.x.raw(), -50 * SCALE + 50_331_648);
    assert_eq!(body.angular_vel.raw(), SCALE + 4_026_531);
}

#[test]
fn friction_impulse_with_a_negative_limit_keeps_its_magnitude() {
    let (_, mut body, collider) = disc(25.0, 0.3, 0.5);
    body.vel.x = fx(50.0);
    body.angular_vel = fx(-3.0);
    // Slip is -25, so the limit is 10 * 0.5 - 20 = -15.
    let r = apply_friction_impulse(
        &mut body, collider.radius, fx(10.0), collider.kinetic_friction, fx(20.0));
    assert_eq!(r, Ok(()));
    assert_eq!(body.vel.x.raw(), 50 * SCALE + 251_658_240);
    assert_eq!(body.angular_vel.raw(), -3 * SCALE + 20_132_659);
}

#[test]
fn friction_impulse_refuses_to_leave_the_range() {
    let (_, mut body, collider) = disc(25.0, 0.3, 0.5);
    body.vel.x = raw(-LIMIT);
    body.angular_vel = raw(LIMIT);
    let before = body;
    let r = apply_friction_impulse(
        &mut body, collider.radius, raw(LIMIT), raw(LIMIT), fx(0.0));
    assert_eq!(r, Err(StepError::OutOfRange));
    assert_eq!(body, before);
}

#[test]
fn friction_force_answers_to_the_gathered_acceleration() {
    let (_, mut body, mut collider) = disc(25.0, 0.3, 0.5);
    collider.touching_ground = true;
    collider.friction_acc = fx(5.0);
    body.acc = Vec2 { x: fx(30.0), y: fx(-2000.0) };
    body.angular_acc = fx(64.0);
    assert_eq!(friction_force(&mut body, &mut collider), Ok(()));
    assert_eq!(body.acc.x.raw(), -8_612_304_213);
    assert_eq!(body.acc.y.raw(), -2000 * SCALE);
    assert_eq!(body.angular_acc.raw(), 344_492_169);
    assert_eq!(collider.friction_acc.raw(), -9_115_620_693);
    assert_eq!(collider.friction_acc_prev.raw(), 5 * SCALE);
}

#[test]
fn friction_force_in_the_air_does_nothing() {
    let (_, mut body, mut collider) = disc(25.0, 0.3, 0.5);
    collider.friction_acc = fx(5.0);
    body.acc = Vec2 { x: fx(30.0), y: fx(-2000.0) };
    body.angular_acc = fx(64.0);
    let before = (body, collider);
    assert_eq!(friction_force(&mut body, &mut collider), Ok(()));
    assert_eq!((body, collider), before);
}

#[test]
fn apply_friction_force_records_the_friction() {
    let (_, mut body, mut collider) = disc(25.0, 0.3, 0.5);
    collider.friction_acc = fx(5.0);
    body.acc = Vec2 { x: fx(30.0), y: fx(-2000.0) };
    body.angular_acc = fx(64.0);
    assert_eq!(apply_friction_force(&mut body, &mut collider, fx(2000.0)), Ok(()));
    assert_eq!(body.acc.x.raw(), -8_612_304_213);
    assert_eq!(body.angular_acc.raw(), 344_492_169);
    assert_eq!(collider.friction_acc.raw(), -9_115_620_693);
    assert_eq!(collider.friction_acc_prev.raw(), 5 * SCALE);
}

#[test]
fn friction_impulse_stage_acts_only_at_rest() {
    let (_, mut body, mut collider) = disc(25.0, 0.3, 0.5);
    body.vel = Vec2 { x: fx(-100.0), y: fx(0.0) };
    body.angular_vel = fx(40.0);
    body.acc.y = fx(-2000.0);
    body.acc_prev.y = fx(-2000.0);
    let before = body;
    // In the air: nothing.
    assert_eq!(friction_impulse(tick(), &mut body, &collider), Ok(()));
    assert_eq!(body, before);
    // On the floor but moving vertically: nothing.
    collider.touching_ground = true;
    body.vel.y = raw(1);
    let moving = body;
    assert_eq!(friction_impulse(tick(), &mut body, &collider), Ok(()));
    assert_eq!(body, moving);
    // At rest: the normal impulse is g * dt, the limit half of it.
    body.vel.y = raw(0);
    assert_eq!(friction_impulse(tick(), &mut body, &collider), Ok(()));
    assert_eq!(body.vel.x.raw(), -100 * SCALE - 279_620_000);
    assert_eq!(body.angular_vel.raw(), 40 * SCALE - 22_369_600);
}

#[test]
fn impact_reverses_and_scales_the_vertical_velocity() {
    let (_, mut body, collider) = disc(25.0, 0.3, 0.0);
    body.vel = Vec2 { x: fx(50.0), y: fx(-500.3) };
    body.angular_vel = fx(-3.0);
    let v_in = body.vel.y.raw();
    assert_eq!(
        impact(&mut body, collider.radius, collider.restitution, collider.kinetic_friction),
        Ok(())
    );
    assert_eq!(body.vel.y.raw(), 2_518_092_449);
    assert!(body.vel.y.raw() > 0 && v_in < 0);
    assert!((as_f64(body.vel.y) - 0.3 * 500.3).abs() < 1e-3);
    // Without friction nothing else changes.
    assert_eq!(body.vel.x.raw(), 50 * SCALE);
    assert_eq!(body.angular_vel.raw(), -3 * SCALE);
}

#[test]
fn impact_applies_friction_under_the_normal_impulse() {
    let (_, mut body, collider) = disc(25.0, 0.3, 0.5);
    body.vel = Vec2 { x: fx(50.0), y: fx(-500.0) };
    body.angular_vel = fx(-3.0);
    assert_eq!(
        impact(&mut body, collider.radius, collider.restitution, collider.kinetic_friction),
        Ok(())
    );
    assert_eq!(body.vel.x.raw(), 978_670_933);
    assert_eq!(body.vel.y.raw(), 2_516_582_500);
    assert_eq!(body.angular_vel.raw(), -39_146_838);
}

#[test]
fn impact_with_full_restitution_keeps_the_speed() {
    let (_, mut body, collider) = disc(25.0, 1.0, 0.0);
    body.vel.y = fx(-123.456);
    let v_in = body.vel.y.raw();
    assert_eq!(
        impact(&mut body, collider.radius, collider.restitution, collider.kinetic_friction),
        Ok(())
    );
    assert_eq!(body.vel.y.raw(), -v_in);
}

#[test]
fn bounce_within_the_second_half_of_the_tick() {
    let (mut pose, mut body, collider) = disc(20.0, 0.3, 0.5);
    pose.position.y = raw(FLOOR_Y + 20 * SCALE - SCALE);
    body.vel = Vec2 { x: fx(30.0), y: fx(-100.0) };
    body.acc.y = fx(-2000.0);
    body.acc_prev.y = fx(-2000.0);
    let r = bounce(
        tick(), &mut pose, &mut body, collider.radius, collider.restitution,
        collider.kinetic_friction);
    assert_eq!(r, Ok(()));
    assert_eq!(pose.position.x.raw(), -1_890_820);
    assert_eq!(pose.position.y.raw(), -5_701_990_561);
    assert_eq!(pose.orientation.raw(), -189_082);
    assert_eq!(body.vel.x.raw(), 335_544_320);
    assert_eq!(body.vel.y.raw(), 11_703_295);
    assert_eq!(body.angular_vel.raw(), -16_777_216);
    assert_eq!(body.acc.y.raw(), -2000 * SCALE);
    assert_eq!(body.acc_prev.y.raw(), -2000 * SCALE);
}

#[test]
fn bounce_within_the_first_half_of_the_tick() {
    let (mut pose, mut body, collider) = disc(20.0, 0.3, 0.5);
    pose.position.y = raw(FLOOR_Y + 20 * SCALE - 3 * SCALE / 2);
    body.vel = Vec2 { x: fx(30.0), y: fx(-100.0) };
    body.acc.y = fx(-2000.0);
    body.acc_prev.y = fx(-2000.0);
    // The time since contact, 0.0184, exceeds half a tick.
    let t = calculate_collision_dt(fx(-1.5), body.vel.y, body.acc.y).unwrap();
    assert_eq!(t.raw(), 308_319);
    assert!(t.raw() > tick().raw() / 2);
    let r = bounce(
        tick(), &mut pose, &mut body, collider.radius, collider.restitution,
        collider.kinetic_friction);
    assert_eq!(r, Ok(()));
    assert_eq!(pose.position.x.raw(), -3_083_190);
    assert_eq!(pose.position.y.raw(), -5_704_069_536);
    assert_eq!(pose.orientation.raw(), -308_319);
    assert_eq!(body.vel.x.raw(), 335_544_320);
    assert_eq!(body.vel.y.raw(), -298_312_908);
    assert_eq!(body.angular_vel.raw(), -16_777_216);
}

#[test]
fn bounce_without_a_crossing_under_the_current_acceleration() {
    let (mut pose, mut body, collider) = disc(20.0, 0.3, 0.5);
    pose.position.y = raw(FLOOR_Y + 20 * SCALE - SCALE / 2);
    body.vel.y = fx(-20.0);
    body.acc.y = fx(-2000.0);
    assert_eq!(calculate_collision_dt(fx(-0.5), body.vel.y, body.acc.y), None);
    let r = bounce(
        tick(), &mut pose, &mut body, collider.radius, collider.restitution,
        collider.kinetic_friction);
    assert_eq!(r, Ok(()));
    assert_eq!(pose.position.y.raw(), -5_703_251_464);
    assert_eq!(body.vel.y.raw(), -262_842_704);
}

#[test]
fn bounce_refuses_a_negative_collision_time() {
    let (mut pose, mut body, collider) = disc(20.0, 0.3, 0.5);
    pose.position.y = raw(FLOOR_Y + 20 * SCALE - SCALE);
    body.vel.y = fx(100.0);
    body.acc.y = fx(-2000.0);
    body.acc_prev.y = fx(-2000.0);
    assert!(!bounce_applies(
        tick(), &pose, &body, collider.radius, collider.restitution,
        collider.kinetic_friction));
}

#[test]
fn bounce_refuses_when_the_midpoint_has_no_contact_behind_it() {
    let (mut pose, mut body, collider) = disc(20.0, 0.3, 0.5);
    pose.position.y = raw(FLOOR_Y + 20 * SCALE - SCALE);
    // At rest without any acceleration: there is no crossing at all.
    assert!(!bounce_applies(
        tick(), &pose, &body, collider.radius, collider.restitution,
        collider.kinetic_friction));
}

#[test]
fn bounce_refuses_to_leave_the_range() {
    let (mut pose, mut body, collider) = disc(20.0, 0.3, 0.5);
    pose.position = Vec2 { x: raw(LIMIT), y: raw(FLOOR_Y + 20 * SCALE - SCALE) };
    body.vel = Vec2 { x: fx(-1000.0), y: fx(-100.0) };
    body.acc.y = fx(-2000.0);
    body.acc_prev.y = fx(-2000.0);
    let before = (pose, body);
    let r = bounce(
        tick(), &mut pose, &mut body, collider.radius, collider.restitution,
        collider.kinetic_friction);
    assert_eq!(r, Err(StepError::OutOfRange));
    assert_eq!((pose, body), before);
}

#[test]
fn resolve_collision_sets_a_resting_disc_down() {
    let (mut pose, mut body, mut collider) = disc(20.0, 0.3, 0.5);
    collider.touching_ground = true;
    pose.position = Vec2 { x: fx(3.0), y: raw(FLOOR_Y + 20 * SCALE - 12_345) };
    body.vel = Vec2 { x: fx(7.0), y: fx(-33.0) };
    assert_eq!(resolve_collision(tick(), &mut pose, &mut body, &mut collider), Ok(()));
    assert_eq!(pose.position.y.raw(), FLOOR_Y + 20 * SCALE);
    assert_eq!(pose.position.x.raw(), 3 * SCALE);
    assert_eq!(body.vel.y.raw(), 0);
    assert_eq!(body.vel.x.raw(), 7 * SCALE);
    assert!(collider.touching_ground);
}

#[test]
fn resolve_collision_bounces_a_disc_from_the_air() {
    let (mut pose, mut body, mut collider) = disc(20.0, 0.3, 0.5);
    pose.position.y = raw(FLOOR_Y + 20 * SCALE - SCALE);
    body.vel = Vec2 { x: fx(30.0), y: fx(-100.0) };
    body.acc.y = fx(-2000.0);
    body.acc_prev.y = fx(-2000.0);
    assert_eq!(resolve_collision(tick(), &mut pose, &mut body, &mut collider), Ok(()));
    assert!(collider.touching_ground);
    assert_eq!(pose.position.y.raw(), -5_701_990_561);
    assert_eq!(body.vel.y.raw(), 11_703_295);
}

#[test]
fn collision_stage_follows_the_contact() {
    // Clear of the floor: in the air, nothing else changes.
    let (mut pose, mut body, mut collider) = disc(20.0, 0.3, 0.5);
    collider.touching_ground = true;
    pose.position.y = raw(FLOOR_Y + 20 * SCALE + 1);
    body.vel.y = fx(5.0);
    let before = (pose, body);
    assert_eq!(collision(tick(), &mut pose, &mut body, &mut collider), Ok(()));
    assert!(!collider.touching_ground);
    assert_eq!((pose, body), before);
    // Exactly on the floor counts as contact.
    pose.position.y = raw(FLOOR_Y + 20 * SCALE);
    collider.touching_ground = true;
    body.vel.y = fx(-5.0);
    assert_eq!(collision(tick(), &mut pose, &mut body, &mut collider), Ok(()));
    assert!(collider.touching_ground);
    assert_eq!(body.vel.y.raw(), 0);
    // A disc in the floor that moves up is not one for the solver.
    let (mut pose, mut body, collider) = disc(20.0, 0.3, 0.5);
    pose.position.y = raw(FLOOR_Y + 20 * SCALE - SCALE);
    body.vel.y = fx(100.0);
    body.acc.y = fx(-2000.0);
    assert!(!collision_applies(tick(), &pose, &body, &collider));
    assert!(!resolve_collision_applies(tick(), &pose, &body, &collider));
}

#[test]
fn gravity_pulls_down() {
    let (_, mut body, _) = disc(25.0, 0.3, 0.5);
    body.acc = Vec2 { x: fx(3.0), y: fx(1.0) };
    assert_eq!(apply_gravity(&mut body, &Gravity::default()), Ok(()));
    assert_eq!(body.acc.x.raw(), 3 * SCALE);
    assert_eq!(body.acc.y.raw(), -1999 * SCALE);
    body.acc.y = raw(-LIMIT);
    let before = body;
    assert_eq!(apply_gravity(&mut body, &Gravity::default()), Err(StepError::OutOfRange));
    assert_eq!(body, before);
}

#[test]
fn jump_needs_the_key_and_the_floor() {
    let (_, body0, mut collider) = disc(25.0, 0.3, 0.5);
    let mut input = InputSnapshot::idle();
    let mut body = body0;
    // Key held in the air.
    input.jump_held = true;
    assert_eq!(player_impulse(&mut body, &collider, &player(), &input), Ok(()));
    assert_eq!(body, body0);
    // On the floor without the key.
    collider.touching_ground = true;
    input.jump_held = false;
    input.jump_just_pressed = true;
    assert_eq!(player_impulse(&mut body, &collider, &player(), &input), Ok(()));
    assert_eq!(body, body0);
    // Both: 10000 / 10 upwards.
    input.jump_held = true;
    assert_eq!(player_impulse(&mut body, &collider, &player(), &input), Ok(()));
    assert_eq!(body.vel.y.raw(), 1000 * SCALE);
    assert_eq!(body.vel.x.raw(), 0);
    // Out of range.
    body.vel.y = raw(LIMIT);
    let before = body;
    assert_eq!(
        player_impulse(&mut body, &collider, &player(), &input),
        Err(StepError::OutOfRange)
    );
    assert_eq!(body, before);
}

#[test]
fn turn_keys_add_torque_and_cancel() {
    let (_, body0, _) = disc(25.0, 0.3, 0.5);
    let mut input = InputSnapshot::idle();
    let mut body = body0;
    assert_eq!(player_force(&mut body, &player(), &input), Ok(()));
    assert_eq!(body, body0);
    input.rotate_left_held = true;
    assert_eq!(player_force(&mut body, &player(), &input), Ok(()));
    assert_eq!(body.angular_acc.raw(), 64 * SCALE);
    input.rotate_left_held = false;
    input.rotate_right_held = true;
    assert_eq!(player_force(&mut body, &player(), &input), Ok(()));
    assert_eq!(body.angular_acc.raw(), 0);
    assert_eq!(player_force(&mut body, &player(), &input), Ok(()));
    assert_eq!(body.angular_acc.raw(), -64 * SCALE);
    input.rotate_left_held = true;
    assert_eq!(player_force(&mut body, &player(), &input), Ok(()));
    assert_eq!(body.angular_acc.raw(), -64 * SCALE);
    body.angular_acc = raw(-LIMIT);
    input.rotate_left_held = false;
    let before = body;
    assert_eq!(player_force(&mut body, &player(), &input), Err(StepError::OutOfRange));
    assert_eq!(body, before);
}

#[test]
fn gravity_toggle_follows_the_key() {
    let mut input = InputSnapshot::idle();
    assert!(gravity_after_input(true, &input));
    assert!(!gravity_after_input(false, &input));
    input.gravity_toggle_just_pressed = true;
    assert!(!gravity_after_input(true, &input));
    assert!(!gravity_after_input(false, &input));
    input.gravity_toggle_just_released = true;
    assert!(gravity_after_input(true, &input));
    assert!(gravity_after_input(false, &input));
    input.gravity_toggle_just_pressed = false;
    assert!(gravity_after_input(false, &input));
}

#[test]
fn dropped_disc_falls_bounces_and_settles() {
    let (mut pose, mut body, mut collider) = disc(20.0, 0.3, 0.5);
    let gravity = Gravity::default();
    let input = InputSnapshot::idle();
    let mut impact_tick = None;
    let mut speed_before = 0;
    for i in 0..3000 {
        let was_touching = collider.touching_ground;
        let vy = body.vel.y.raw();
        let r = step(
            tick(), &mut body, &mut collider, &mut pose, &player(), &gravity, &input, true);
        assert_eq!(r, Ok(()));
        if impact_tick.is_none() && collider.touching_ground && !was_touching {
            impact_tick = Some(i);
            speed_before = vy;
        }
        match i {
            0 => {
                assert_eq!(pose.position.y.raw(), 0);
                assert_eq!(body.vel.y.raw(), -279_620_000);
            }
            1 => {
                assert_eq!(pose.position.y.raw(), -9_320_658);
                assert_eq!(body.vel.y.raw(), -838_860_000);
            }
            34 => {
                assert_eq!(pose.position.y.raw(), -5_545_791_396);
                assert_eq!(body.vel.y.raw(), -19_293_780_000);
                assert!(!collider.touching_ground);
            }
            35 => {
                assert_eq!(pose.position.y.raw(), -5_655_505_276);
                assert_eq!(body.vel.y.raw(), 5_584_634_033);
                assert!(collider.touching_ground);
            }
            36 => {
                assert_eq!(pose.position.y.raw(), -5_567_088_460);
                assert_eq!(body.vel.y.raw(), 5_025_394_033);
                assert!(!collider.touching_ground);
            }
            60 => {
                assert_eq!(pose.position.y.raw(), -5_666_761_751);
                assert_eq!(body.vel.y.raw(), -765_069_540);
            }
            _ => {}
        }
        if i >= 119 {
            assert!(collider.touching_ground);
            assert_eq!(pose.position.y.raw(), -340 * SCALE);
            assert_eq!(body.vel.y.raw(), 0);
        }
    }
    assert_eq!(impact_tick, Some(35));
    // It struck the floor at sqrt(2 * 2000 * 340) and left it at 0.3 times
    // that; what is left of the tick has slowed it a little since.
    let strike = (2.0f64 * 2000.0 * 340.0).sqrt();
    assert!(as_f64(raw(speed_before)) < -1100.0);
    let rebound = as_f64(raw(5_584_634_033));
    assert!(rebound > 0.0 && rebound < 0.3 * strike);
    assert!(rebound > 0.3 * strike - 2000.0 / 60.0);
}

#[test]
fn disc_at_rest_above_the_floor_comes_to_rest_on_it() {
    let (mut pose, mut body, mut collider) = disc(25.0, 0.5, 0.5);
    pose.position.y = fx(-300.0);
    let gravity = Gravity::default();
    let input = InputSnapshot::idle();
    let mut settled_at = None;
    for i in 0..2000 {
        let r = step(
            tick(), &mut body, &mut collider, &mut pose, &player(), &gravity, &input, true);
        assert_eq!(r, Ok(()));
        let resting = collider.touching_ground
            && pose.position.y.raw() == FLOOR_Y + collider.radius.raw()
            && body.vel.y.raw() == 0;
        if resting && settled_at.is_none() {
            settled_at = Some(i);
        }
        if settled_at.is_some() {
            assert!(resting);
        }
    }
    assert!(settled_at.is_some());
    assert!(settled_at.unwrap() < 1000);
    assert!((as_f64(pose.position.y) - (-335.0)).abs() < 1e-9);
}

#[test]
fn energy_does_not_grow_in_free_flight() {
    let (mut pose, mut body, mut collider) = disc(20.0, 1.0, 0.0);
    let gravity = Gravity::default();
    let input = InputSnapshot::idle();
    let r = step(tick(), &mut body, &mut collider, &mut pose, &player(), &gravity, &input, true);
    assert_eq!(r, Ok(()));
    let start = twice_energy(&pose, &body, &gravity);
    let mut bounces = 0;
    for _ in 0..3000 {
        let before = (pose, body, collider);
        let r = step(
            tick(), &mut body, &mut collider, &mut pose, &player(), &gravity, &input, true);
        assert_eq!(r, Ok(()));
        let now = twice_energy(&pose, &body, &gravity);
        if !before.2.touching_ground && !collider.touching_ground {
            let was = twice_energy(&before.0, &before.1, &gravity);
            let slack = 4 * body.mass.raw() as i128 * (body.vel.y.raw() as i128).abs();
            assert!(now - was <= slack);
            if body.vel.y.raw() >= 0 {
                assert!(now <= was);
            }
        }
        if collider.touching_ground && !before.2.touching_ground {
            bounces += 1;
        }
        // Over the whole run, bounces included, the energy stays below
        // what the disc started with, and within a part in 10^5 of it.
        assert!(now <= start);
        assert!((start - now) as f64 <= 1e-5 * start as f64);
    }
    assert!(bounces >= 40);
}

#[test]
fn friction_wears_the_slip_down_without_reversing_it() {
    let (mut pose, mut body, mut collider) = disc(25.0, 0.3, 0.5);
    let gravity = Gravity::default();
    let input = InputSnapshot::idle();
    pose.position.y = raw(FLOOR_Y + collider.radius.raw());
    collider.touching_ground = true;
    body.acc.y = raw(-gravity.strength.raw());
    body.vel.x = fx(-100.0);
    body.angular_vel = fx(40.0);
    let mut last = slip(&body, &collider);
    assert_eq!(last, 900 * SCALE);
    let mut ticks = 0;
    while last != 0 {
        let r = step(
            tick(), &mut body, &mut collider, &mut pose, &player(), &gravity, &input, true);
        assert_eq!(r, Ok(()));
        let now = slip(&body, &collider);
        assert!(0 <= now && now < last);
        assert!(collider.touching_ground);
        assert_eq!(pose.position.y.raw(), FLOOR_Y + collider.radius.raw());
        assert_eq!(body.vel.y.raw(), 0);
        if ticks == 0 {
            assert_eq!(now, 14_260_634_400);
            assert_eq!(body.vel.x.raw(), -1_957_341_600);
            assert_eq!(body.angular_vel.raw(), 648_719_040);
            assert_eq!(pose.position.x.raw(), -27_962_000);
            assert_eq!(pose.orientation.raw(), 11_184_800);
        }
        last = now;
        ticks += 1;
        assert!(ticks <= 19);
    }
    assert_eq!(ticks, 19);
    // Rolling without slip from here on: v = -400, w = 16.
    assert_eq!(body.vel.x.raw(), -400 * SCALE);
    assert_eq!(body.angular_vel.raw(), 16 * SCALE);
    let r = step(tick(), &mut body, &mut collider, &mut pose, &player(), &gravity, &input, true);
    assert_eq!(r, Ok(()));
    assert_eq!(slip(&body, &collider), 0);
    assert_eq!(body.vel.x.raw(), -400 * SCALE);
}

#[test]
fn friction_wears_a_negative_slip_up_to_zero() {
    let (mut pose, mut body, mut collider) = disc(25.0, 0.3, 0.5);
    let gravity = Gravity::default();
    let input = InputSnapshot::idle();
    pose.position.y = raw(FLOOR_Y + collider.radius.raw());
    collider.touching_ground = true;
    body.acc.y = raw(-gravity.strength.raw());
    body.vel.x = fx(100.0);
    body.angular_vel = fx(-40.0);
    let mut last = slip(&body, &collider);
    assert_eq!(last, -900 * SCALE);
    for _ in 0..100 {
        let r = step(
            tick(), &mut body, &mut collider, &mut pose, &player(), &gravity, &input, true);
        assert_eq!(r, Ok(()));
        let now = slip(&body, &collider);
        assert!(last <= now && now <= 0);
        last = now;
    }
    assert_eq!(last, 0);
    assert_eq!(body.vel.x.raw(), 400 * SCALE);
    assert_eq!(body.angular_vel.raw(), -16 * SCALE);
}

#[test]
fn step_with_jump_and_torque() {
    let (mut pose, mut body, mut collider) = disc(25.0, 0.3, 0.5);
    let gravity = Gravity::default();
    pose.position.y = raw(FLOOR_Y + collider.radius.raw());
    collider.touching_ground = true;
    body.acc.y = raw(-gravity.strength.raw());
    let mut input = InputSnapshot::idle();
    input.jump_held = true;
    input.rotate_left_held = true;
    let r = step(tick(), &mut body, &mut collider, &mut pose, &player(), &gravity, &input, true);
    assert_eq!(r, Ok(()));
    assert_eq!(pose.position.y.raw(), -5_345_407_689);
    assert_eq!(body.vel.x.raw(), -74_565_334);
    assert_eq!(body.vel.y.raw(), 16_217_976_000);
    assert_eq!(body.acc.x.raw(), -8_947_848_533);
    assert_eq!(body.angular_vel.raw(), 2_982_613);
    assert_eq!(body.angular_acc.raw(), 357_913_942);
    assert_eq!(collider.friction_acc.raw(), -8_947_848_533);
    assert!(!collider.touching_ground);
    // In the air the jump key does nothing more, and both turn keys cancel.
    input.rotate_right_held = true;
    let r = step(tick(), &mut body, &mut collider, &mut pose, &player(), &gravity, &input, true);
    assert_eq!(r, Ok(()));
    assert_eq!(pose.position.x.raw(), -2_485_509);
    assert_eq!(pose.position.y.raw(), -5_079_768_676);
    assert_eq!(pose.orientation.raw(), 99_420);
    assert_eq!(body.vel.x.raw(), -149_130_668);
    assert_eq!(body.vel.y.raw(), 15_658_736_000);
    assert_eq!(body.angular_vel.raw(), 5_965_226);
    assert_eq!(body.angular_acc.raw(), 0);
    assert_eq!(body.acc.x.raw(), 0);
}

#[test]
fn step_without_gravity_leaves_a_still_disc_alone() {
    let (mut pose, mut body, mut collider) = disc(25.0, 0.3, 0.5);
    let gravity = Gravity::default();
    let input = InputSnapshot::idle();
    let before = (pose, body, collider);
    for _ in 0..10 {
        let r = step(
            tick(), &mut body, &mut collider, &mut pose, &player(), &gravity, &input, false);
        assert_eq!(r, Ok(()));
    }
    assert_eq!((pose, body, collider), before);
}

#[test]
fn step_of_length_zero_only_regathers_the_forces() {
    let (mut pose, mut body, mut collider) = disc(25.0, 0.3, 0.5);
    let gravity = Gravity::default();
    let input = InputSnapshot::idle();
    body.vel = Vec2 { x: fx(3.0), y: fx(-4.0) };
    body.acc = Vec2 { x: fx(9.0), y: fx(-7.0) };
    body.angular_vel = fx(2.0);
    body.angular_acc = fx(5.0);
    let before = (pose, body);
    let r = step(raw(0), &mut body, &mut collider, &mut pose, &player(), &gravity, &input, true);
    assert_eq!(r, Ok(()));
    assert_eq!(pose, before.0);
    assert_eq!(body.vel, before.1.vel);
    assert_eq!(body.angular_vel, before.1.angular_vel);
    assert_eq!(body.acc_prev, before.1.acc);
    assert_eq!(body.angular_acc_prev, before.1.angular_acc);
    assert_eq!(body.acc, Vec2 { x: fx(0.0), y: fx(-2000.0) });
    assert_eq!(body.angular_acc.raw(), 0);
}

#[test]
fn step_fails_without_changing_anything() {
    let (mut pose, mut body, mut collider) = disc(25.0, 0.3, 0.5);
    let gravity = Gravity::default();
    let input = InputSnapshot::idle();
    pose.position.x = raw(LIMIT);
    body.vel.x = fx(1.0);
    let before = (pose, body, collider);
    let r = step(fx(1.0), &mut body, &mut collider, &mut pose, &player(), &gravity, &input, true);
    assert_eq!(r, Err(StepError::OutOfRange));
    assert_eq!((pose, body, collider), before);
    // A disc below the floor that moves up under gravity.
    let (mut pose, mut body, collider) = disc(25.0, 0.3, 0.5);
    pose.position.y = raw(FLOOR_Y + collider.radius.raw() - 10 * SCALE);
    body.vel.y = fx(100.0);
    assert!(!step_applies(tick(), &body, &collider, &pose, &player(), &gravity, &input, true));
}

#[test]
fn a_slip_below_the_resolution_stays() {
    let (mut pose, mut body, mut collider) = disc(25.0, 0.3, 0.5);
    let gravity = Gravity::default();
    let input = InputSnapshot::idle();
    pose.position.y = raw(FLOOR_Y + collider.radius.raw());
    collider.touching_ground = true;
    body.acc.y = raw(-gravity.strength.raw());
    // Three raw units of slip: friction takes one and then finds
    // nothing that it could take without overshooting.
    body.vel.x = raw(3);
    for _ in 0..10 {
        let r = step(
            tick(), &mut body, &mut collider, &mut pose, &player(), &gravity, &input, true);
        assert_eq!(r, Ok(()));
        assert_eq!(slip(&body, &collider), 2);
        assert_eq!(body.vel.x.raw(), 2);
        assert_eq!(body.angular_vel.raw(), 0);
    }
}

#[test]
fn an_elastic_bounce_keeps_the_energy() {
    let g = 2000 * SCALE;
    for (sunk, speed) in [(1.0, -100.0), (1.5, -100.0), (0.25, -700.0), (2.0, -300.0)] {
        let (mut pose, mut body, collider) = disc(20.0, 1.0, 0.0);
        pose.position.y = raw(FLOOR_Y + 20 * SCALE - fx(sunk).raw());
        body.vel = Vec2 { x: fx(30.0), y: fx(speed) };
        body.angular_vel = fx(-7.0);
        body.acc.y = raw(-g);
        body.acc_prev.y = raw(-g);
        let energy = |pose: &Pose, body: &Body| {
            body.vel.y.raw() * body.vel.y.raw() + 2 * g * pose.position.y.raw()
        };
        let before = energy(&pose, &body);
        let speed_before = body.vel.y.raw().abs();
        let dt = tick();
        assert!(bounce_applies(
            dt, &pose, &body, collider.radius, collider.restitution,
            collider.kinetic_friction));
        let r = bounce(
            dt, &mut pose, &mut body, collider.radius, collider.restitution,
            collider.kinetic_friction);
        assert_eq!(r, Ok(()));
        assert_eq!(body.vel.x.raw(), 30 * SCALE);
        assert_eq!(body.angular_vel.raw(), -7 * SCALE);
        // The contact lies at most a tick back.
        let slack = 8 * speed_before
            + 8 * (g * (dt.raw() / 2)).div_euclid(SCALE)
            + 8 * (g * dt.raw()).div_euclid(SCALE)
            + 8 * g
            + 4;
        assert!((energy(&pose, &body) - before).abs() <= slack);
        // In whole units that is a few parts in a million of v^2.
        let change = (energy(&pose, &body) - before) as f64 / (SCALE as f64 * SCALE as f64);
        assert!(change.abs() < 0.02);
    }
}

#[test]
fn friction_leaves_the_slip_in_closed_form() {
    let (_, body0, collider) = disc(25.0, 0.3, 0.5);
    let m = body0.mass.raw();
    let i = body0.moment_of_inertia.raw();
    let r = collider.radius.raw();
    for (vx, w, normal) in [(50.0, -3.0, 10.0), (50.0, -3.0, 1000.0), (-100.0, 40.0, 33.0)] {
        let mut body = body0;
        body.vel.x = fx(vx);
        body.angular_vel = fx(w);
        let before = slip(&body, &collider);
        let result = apply_friction_impulse(
            &mut body, collider.radius, fx(normal), collider.kinetic_friction, fx(0.0));
        assert_eq!(result, Ok(()));
        let f = (body.vel.x.raw() - fx(vx).raw()).abs();
        let k = (body.angular_vel.raw() - fx(w).raw()).abs();
        let after = slip(&body, &collider);
        // The friction is the smaller of the limit and the stopping friction.
        let limit = (fx(normal).raw() * collider.kinetic_friction.raw()).div_euclid(SCALE);
        let coupled = -(-(-(-(m * r)).div_euclid(SCALE)) * r).div_euclid(SCALE) + i;
        let stopping = (i * before.abs()).div_euclid(coupled);
        assert_eq!(f, limit.min(stopping));
        // The angular change is f * m * r / i, short by less than 1 + r / i.
        let short = f * m * r - k * i * SCALE;
        assert!(0 <= short && short < (i + r) * SCALE);
        // The slip has moved towards zero by both, to within a raw unit.
        let turned = (k * r).div_euclid(SCALE);
        let moved = before.abs() - after.abs();
        assert!(f + turned <= moved && moved <= f + turned + 1);
        assert!(after.abs() < before.abs());
        assert!(after * before >= 0);
    }
}
