//! The simulated disc: its pose, its kinematic state and its collider,
//! each with the mathematical model that the contracts speak of.

use vstd::prelude::*;
use vstd::arithmetic::div_mod::lemma_fundamental_div_mod;
use vstd::arithmetic::div_mod::lemma_fundamental_div_mod_converse;
use crate::arith::lemma_mul_bound;
use crate::fixed::{fits, half_mul, half_mul_wide, in_range, lemma_scaled_mul_bound, mul_wide,
    scaled_mul, Fixed, LIMIT, PRODUCT_LIMIT, SCALE};

verus! {

/// Height of the floor plane, in raw units (-360.0).
pub const FLOOR_Y: i128 = -6_039_797_760;

/// A 2D vector of fixed-point numbers.
#[derive(Clone, Copy, Debug, PartialEq, Eq, Structural)]
pub struct Vec2 {
    pub x: Fixed,
    pub y: Fixed,
}

/// A 2D vector of raw counts.
pub struct Vec2Model {
    pub x: int,
    pub y: int,
}

impl Vec2Model {
    pub open spec fn in_range(self) -> bool {
        in_range(self.x) && in_range(self.y)
    }
}

impl View for Vec2 {
    type V = Vec2Model;

    open spec fn view(&self) -> Vec2Model {
        Vec2Model { x: self.x@, y: self.y@ }
    }
}

impl Vec2 {
    /// The zero vector.
    pub fn zero() -> (v: Vec2)
        ensures
            v@ == (Vec2Model { x: 0, y: 0 }),
    {
        Vec2 { x: Fixed { raw: 0 }, y: Fixed { raw: 0 } }
    }
}

/// Position and orientation of the disc.
#[derive(Clone, Copy, Debug, PartialEq, Eq, Structural)]
pub struct Pose {
    pub position: Vec2,
    /// Angle in radians, counter-clockwise.
    pub orientation: Fixed,
}

/// An angle brought to within one turn of zero, on the side of zero
/// that it was on: what is left of it after whole turns are taken away.
pub open spec fn wrapped_angle(x: int, turn: int) -> int {
    if x >= 0 {
        x % turn
    } else {
        -((-x) % turn)
    }
}

/// Brings the angle `x` to within one turn of zero, where `turn` is the
/// length of a full turn. The result differs from `x` by a whole number
/// of turns and lies on the same side of zero.
pub fn wrap_angle(x: Fixed, turn: Fixed) -> (r: Fixed)
    requires
        turn@ > 0,
    ensures
        r@ == wrapped_angle(x@, turn@),
        -turn@ < r@ < turn@,
        exists|k: int| r@ == x@ - #[trigger] (k * turn@),
        x@ >= 0 ==> r@ >= 0,
        x@ <= 0 ==> r@ <= 0,
{
    if x.raw >= 0 {
        proof {
            lemma_fundamental_div_mod(x@, turn@);
            assert(x@ % turn@ == x@ - (x@ / turn@) * turn@) by (nonlinear_arith)
                requires
                    x@ == turn@ * (x@ / turn@) + x@ % turn@,
            ;
        }
        Fixed { raw: x.raw % turn.raw }
    } else {
        let below: i128 = -(x.raw + 1);
        let rest: i128 = below % turn.raw;
        proof {
            let q = below as int / turn@;
            lemma_fundamental_div_mod(below as int, turn@);
            assert(turn@ * q == q * turn@) by (nonlinear_arith);
            if rest + 1 == turn@ {
                assert(-x@ == (q + 1) * turn@ + 0) by (nonlinear_arith)
                    requires
                        -x@ == q * turn@ + rest + 1,
                        rest + 1 == turn@,
                ;
                lemma_fundamental_div_mod_converse(-x@, turn@, q + 1, 0);
                assert(0 == x@ - (-(q + 1)) * turn@) by (nonlinear_arith)
                    requires
                        -x@ == (q + 1) * turn@ + 0,
                ;
            } else {
                lemma_fundamental_div_mod_converse(-x@, turn@, q, rest + 1);
                assert(-(rest + 1) == x@ - (-q) * turn@) by (nonlinear_arith)
                    requires
                        -x@ == q * turn@ + rest + 1,
                ;
            }
        }
        if rest + 1 == turn.raw {
            Fixed { raw: 0 }
        } else {
            Fixed { raw: -(rest + 1) }
        }
    }
}

/// Position and orientation as raw counts.
pub struct PoseModel {
    pub position: Vec2Model,
    pub orientation: int,
}

impl PoseModel {
    pub open spec fn in_range(self) -> bool {
        self.position.in_range() && in_range(self.orientation)
    }
}

impl View for Pose {
    type V = PoseModel;

    open spec fn view(&self) -> PoseModel {
        PoseModel { position: self.position@, orientation: self.orientation@ }
    }
}

impl Pose {
    /// Every component may be stored.
    pub open spec fn wf(self) -> bool {
        self@.in_range()
    }

    /// A pose at `(x, y)` with orientation zero, if both coordinates
    /// are in range.
    pub fn new(x: Fixed, y: Fixed) -> (r: Option<Pose>)
        ensures
            r is Some <==> in_range(x@) && in_range(y@),
            r matches Some(p) ==> p.wf() && p.position.x == x && p.position.y == y
                && p.orientation@ == 0,
    {
        if x.is_in_range() && y.is_in_range() {
            Some(Pose { position: Vec2 { x, y }, orientation: Fixed { raw: 0 } })
        } else {
            None
        }
    }

    /// Whether every component may be stored.
    pub fn is_valid(&self) -> (b: bool)
        ensures
            b == self.wf(),
    {
        self.position.x.is_in_range() && self.position.y.is_in_range()
            && self.orientation.is_in_range()
    }
}

/// Kinematic state of the disc.
///
/// The acceleration fields gather what the force contributors add during
/// one tick; the first half of the integrator consumes them, moves them to
/// the `_prev` fields and clears them.
#[derive(Clone, Copy, Debug, PartialEq, Eq, Structural)]
pub struct Body {
    pub mass: Fixed,
    pub vel: Vec2,
    pub acc: Vec2,
    pub acc_prev: Vec2,
    pub moment_of_inertia: Fixed,
    pub angular_vel: Fixed,
    pub angular_acc: Fixed,
    pub angular_acc_prev: Fixed,
}

/// Kinematic state as raw counts.
pub struct BodyModel {
    pub mass: int,
    pub vel: Vec2Model,
    pub acc: Vec2Model,
    pub acc_prev: Vec2Model,
    pub moment_of_inertia: int,
    pub angular_vel: int,
    pub angular_acc: int,
    pub angular_acc_prev: int,
}

impl BodyModel {
    pub open spec fn in_range(self) -> bool {
        &&& in_range(self.mass)
        &&& self.vel.in_range()
        &&& self.acc.in_range()
        &&& self.acc_prev.in_range()
        &&& in_range(self.moment_of_inertia)
        &&& in_range(self.angular_vel)
        &&& in_range(self.angular_acc)
        &&& in_range(self.angular_acc_prev)
    }

    /// In range, with positive mass and moment of inertia.
    pub open spec fn wf(self) -> bool {
        &&& self.in_range()
        &&& self.mass > 0
        &&& self.moment_of_inertia > 0
    }
}

impl View for Body {
    type V = BodyModel;

    open spec fn view(&self) -> BodyModel {
        BodyModel {
            mass: self.mass@,
            vel: self.vel@,
            acc: self.acc@,
            acc_prev: self.acc_prev@,
            moment_of_inertia: self.moment_of_inertia@,
            angular_vel: self.angular_vel@,
            angular_acc: self.angular_acc@,
            angular_acc_prev: self.angular_acc_prev@,
        }
    }
}

/// Moment of inertia of a solid disc: half the mass times the radius
/// squared.
pub open spec fn solid_disc_inertia(mass: int, radius: int) -> int {
    half_mul(mass, scaled_mul(radius, radius))
}

impl Body {
    pub open spec fn wf(self) -> bool {
        self@.wf()
    }

    /// A body at rest with the inertia of a solid disc, if mass and radius
    /// are positive and in range and the inertia is positive and in range.
    pub fn new(mass: Fixed, radius: Fixed) -> (r: Option<Body>)
        ensures
            r is Some <==> 0 < mass@ <= LIMIT && 0 < radius@ <= LIMIT
                && 0 < solid_disc_inertia(mass@, radius@) <= LIMIT,
            r matches Some(b) ==> b.wf() && b@ == (BodyModel {
                mass: mass@,
                vel: Vec2Model { x: 0, y: 0 },
                acc: Vec2Model { x: 0, y: 0 },
                acc_prev: Vec2Model { x: 0, y: 0 },
                moment_of_inertia: solid_disc_inertia(mass@, radius@),
                angular_vel: 0,
                angular_acc: 0,
                angular_acc_prev: 0,
            }),
    {
        if !(mass.raw > 0 && mass.is_in_range() && radius.raw > 0 && radius.is_in_range()) {
            return None;
        }
        proof {
            lemma_scaled_mul_bound(radius@, radius@, 1);
        }
        let r2: i128 = mul_wide(radius.raw, radius.raw);
        proof {
            lemma_mul_bound(mass@, r2 as int, LIMIT as int, PRODUCT_LIMIT as int);
        }
        let inertia: i128 = half_mul_wide(mass.raw, r2);
        if inertia > 0 && fits(inertia) {
            Some(
                Body {
                    mass,
                    vel: Vec2::zero(),
                    acc: Vec2::zero(),
                    acc_prev: Vec2::zero(),
                    moment_of_inertia: Fixed::from_raw(inertia),
                    angular_vel: Fixed { raw: 0 },
                    angular_acc: Fixed { raw: 0 },
                    angular_acc_prev: Fixed { raw: 0 },
                },
            )
        } else {
            None
        }
    }

    /// Whether the body is well formed.
    pub fn is_valid(&self) -> (b: bool)
        ensures
            b == self.wf(),
    {
        self.mass.is_in_range() && self.vel.x.is_in_range() && self.vel.y.is_in_range()
            && self.acc.x.is_in_range() && self.acc.y.is_in_range()
            && self.acc_prev.x.is_in_range() && self.acc_prev.y.is_in_range()
            && self.moment_of_inertia.is_in_range() && self.angular_vel.is_in_range()
            && self.angular_acc.is_in_range() && self.angular_acc_prev.is_in_range()
            && self.mass.raw > 0 && self.moment_of_inertia.raw > 0
    }
}

/// The ball collider of the disc.
#[derive(Clone, Copy, Debug, PartialEq, Eq, Structural)]
pub struct Collider {
    pub radius: Fixed,
    /// Fraction of the normal speed kept on a bounce, between 0 and 1.
    pub restitution: Fixed,
    /// Whether the disc has been in contact with the floor since the
    /// last tick.
    pub touching_ground: bool,
    pub kinetic_friction: Fixed,
    /// Tangential acceleration that continuous friction applied this tick.
    pub friction_acc: Fixed,
    /// The same for the tick before.
    pub friction_acc_prev: Fixed,
}

/// The collider as raw counts.
pub struct ColliderModel {
    pub radius: int,
    pub restitution: int,
    pub touching_ground: bool,
    pub kinetic_friction: int,
    pub friction_acc: int,
    pub friction_acc_prev: int,
}

impl ColliderModel {
    pub open spec fn in_range(self) -> bool {
        &&& in_range(self.radius)
        &&& in_range(self.restitution)
        &&& in_range(self.kinetic_friction)
        &&& in_range(self.friction_acc)
        &&& in_range(self.friction_acc_prev)
    }

    /// In range, with positive radius, restitution between 0 and 1 and
    /// non-negative friction.
    pub open spec fn wf(self) -> bool {
        &&& self.in_range()
        &&& self.radius > 0
        &&& 0 <= self.restitution <= SCALE
        &&& self.kinetic_friction >= 0
    }
}

impl View for Collider {
    type V = ColliderModel;

    open spec fn view(&self) -> ColliderModel {
        ColliderModel {
            radius: self.radius@,
            restitution: self.restitution@,
            touching_ground: self.touching_ground,
            kinetic_friction: self.kinetic_friction@,
            friction_acc: self.friction_acc@,
            friction_acc_prev: self.friction_acc_prev@,
        }
    }
}

impl Collider {
    pub open spec fn wf(self) -> bool {
        self@.wf()
    }

    /// An airborne ball collider, if the parameters are admissible.
    pub fn new(radius: Fixed, restitution: Fixed, kinetic_friction: Fixed) -> (r: Option<
        Collider,
    >)
        ensures
            r is Some <==> 0 < radius@ <= LIMIT && 0 <= restitution@ <= SCALE && 0
                <= kinetic_friction@ <= LIMIT,
            r matches Some(c) ==> c.wf() && c@ == (ColliderModel {
                radius: radius@,
                restitution: restitution@,
                touching_ground: false,
                kinetic_friction: kinetic_friction@,
                friction_acc: 0,
                friction_acc_prev: 0,
            }),
    {
        if radius.raw > 0 && radius.is_in_range() && restitution.raw >= 0 && restitution.raw
            <= SCALE && kinetic_friction.raw >= 0 && kinetic_friction.is_in_range() {
            Some(
                Collider {
                    radius,
                    restitution,
                    touching_ground: false,
                    kinetic_friction,
                    friction_acc: Fixed { raw: 0 },
                    friction_acc_prev: Fixed { raw: 0 },
                },
            )
        } else {
            None
        }
    }

    /// Whether the collider is well formed.
    pub fn is_valid(&self) -> (b: bool)
        ensures
            b == self.wf(),
    {
        self.radius.is_in_range() && self.restitution.is_in_range()
            && self.kinetic_friction.is_in_range() && self.friction_acc.is_in_range()
            && self.friction_acc_prev.is_in_range() && self.radius.raw > 0
            && self.restitution.raw >= 0 && self.restitution.raw <= SCALE
            && self.kinetic_friction.raw >= 0
    }
}

/// Pose, body and collider of the disc, as raw counts.
pub struct DiscModel {
    pub pose: PoseModel,
    pub body: BodyModel,
    pub collider: ColliderModel,
}

impl DiscModel {
    pub open spec fn in_range(self) -> bool {
        self.pose.in_range() && self.body.in_range() && self.collider.in_range()
    }

    pub open spec fn wf(self) -> bool {
        self.pose.in_range() && self.body.wf() && self.collider.wf()
    }
}

/// The model of a disc from the models of its parts.
pub open spec fn disc(pose: PoseModel, body: BodyModel, collider: ColliderModel) -> DiscModel {
    DiscModel { pose, body, collider }
}

} // verus!
