//! What the floating-point formulas are asked, and what a planet's update does with the
//! answers.

use vstd::prelude::*;
use crate::vector::{positive, Vec2};

verus! {

/// The part of a planet that the formulas read.
#[derive(Clone, Copy, PartialEq, Eq, Structural, Debug)]
pub struct Particle {
    pub position: Vec2,
    pub velocity: Vec2,
    pub mass: u32,
    pub radius: u32,
}

impl Particle {
    /// Mass and radius are strictly positive.
    pub open spec fn valid(self) -> bool {
        positive(self.mass) && positive(self.radius)
    }

    /// The same particle moving at `velocity`.
    pub open spec fn with_velocity(self, velocity: Vec2) -> Particle {
        Particle { velocity, ..self }
    }
}

/// The velocities of two planets after they bounced off each other.
#[derive(Clone, Copy, PartialEq, Eq, Structural, Debug)]
pub struct Exchange {
    /// The new velocity of the planet that is being updated.
    pub velocity: Vec2,
    /// The new velocity of the planet it hit.
    pub other_velocity: Vec2,
}

/// Where a planet is, and how fast, after a frame.
#[derive(Clone, Copy, PartialEq, Eq, Structural, Debug)]
pub struct Motion {
    pub velocity: Vec2,
    pub position: Vec2,
}

/// The four formulas of the simulation, supplied by the host.
///
/// - `attract(body, other, acceleration)`: `acceleration` plus the pull of `other` on `body`;
/// - `overlap(body, other)`: whether the two touch;
/// - `collide(body, other)`: the velocities of both after the bounce;
/// - `advance(body, acceleration)`: the velocity and position of `body` at the end of the
///   frame.
pub struct Physics<A, O, C, M> {
    pub attract: A,
    pub overlap: O,
    pub collide: C,
    pub advance: M,
}

/// Two particles that may be handed to the formulas as a pair: both are valid and they are
/// not at the same place.
pub open spec fn distinct(body: Particle, other: Particle) -> bool {
    body.valid() && other.valid() && body.position != other.position
}

impl<A, O, C, M> Physics<A, O, C, M> where
    A: Fn(Particle, Particle, Vec2) -> Vec2,
    O: Fn(Particle, Particle) -> bool,
    C: Fn(Particle, Particle) -> Exchange,
    M: Fn(Particle, Vec2) -> Motion,
 {
    /// The formulas answer for every pair of valid particles at different places, and
    /// `advance` for every valid particle.
    pub open spec fn total(&self) -> bool {
        &&& forall|body: Particle, other: Particle, acceleration: Vec2|
            distinct(body, other) ==> #[trigger] call_requires(
                self.attract,
                (body, other, acceleration),
            )
        &&& forall|body: Particle, other: Particle|
            distinct(body, other) ==> #[trigger] call_requires(self.overlap, (body, other))
        &&& forall|body: Particle, other: Particle|
            distinct(body, other) ==> #[trigger] call_requires(self.collide, (body, other))
        &&& forall|body: Particle, acceleration: Vec2|
            body.valid() ==> #[trigger] call_requires(self.advance, (body, acceleration))
    }

    /// `body`, having gathered `acceleration` so far, passes `other`.
    ///
    /// Nothing happens when the two are at the same place. Otherwise `other` pulls on
    /// `body`, and if they touch they bounce: both velocities become what `collide` says,
    /// and everything else stays.
    pub open spec fn encounter(
        &self,
        body: Particle,
        acceleration: Vec2,
        other: Particle,
        body_after: Particle,
        acceleration_after: Vec2,
        other_after: Particle,
    ) -> bool {
        if body.position == other.position {
            body_after == body && acceleration_after == acceleration && other_after == other
        } else {
            &&& call_ensures(self.attract, (body, other, acceleration), acceleration_after)
            &&& body_after == body.with_velocity(body_after.velocity)
            &&& other_after == other.with_velocity(other_after.velocity)
            &&& {
                ||| {
                    &&& call_ensures(self.overlap, (body, other), false)
                    &&& body_after == body
                    &&& other_after == other
                }
                ||| {
                    &&& call_ensures(self.overlap, (body, other), true)
                    &&& call_ensures(
                        self.collide,
                        (body, other),
                        (Exchange {
                            velocity: body_after.velocity,
                            other_velocity: other_after.velocity,
                        }),
                    )
                }
            }
        }
    }

    /// The `k`-th encounter of an update: the others are passed from the last to the first,
    /// so the `k`-th one is with `others[others.len() - 1 - k]`.
    pub open spec fn encounter_at(
        &self,
        others: Seq<Particle>,
        others_after: Seq<Particle>,
        bodies: Seq<Particle>,
        accelerations: Seq<Vec2>,
        k: int,
    ) -> bool {
        self.encounter(
            bodies[k],
            accelerations[k],
            others[others.len() - 1 - k],
            bodies[k + 1],
            accelerations[k + 1],
            others_after[others.len() - 1 - k],
        )
    }

    /// `bodies` and `accelerations` record a planet's way past all `others`: it starts as
    /// `body` with no acceleration, entry `k + 1` is what the `k`-th encounter left, and
    /// `others_after` is what the encounters left of the others.
    pub open spec fn encounters(
        &self,
        body: Particle,
        others: Seq<Particle>,
        others_after: Seq<Particle>,
        bodies: Seq<Particle>,
        accelerations: Seq<Vec2>,
    ) -> bool {
        &&& others_after.len() == others.len()
        &&& bodies.len() == others.len() + 1
        &&& accelerations.len() == others.len() + 1
        &&& bodies[0] == body
        &&& accelerations[0] == Vec2::origin()
        &&& forall|k: int|
            0 <= k < others.len() ==> #[trigger] self.encounter_at(
                others,
                others_after,
                bodies,
                accelerations,
                k,
            )
    }
}

} // verus!
