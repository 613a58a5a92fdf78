//! A planet: its physical state, its colour and the trail it has left.

use vstd::prelude::*;
use crate::vector::{positive, Vec2, Color};
use crate::physics::{Particle, Motion, Exchange, Physics};

verus! {

/// A body of the simulation. Its mass and radius are strictly positive from creation on,
/// and its trail only ever grows.
pub struct Planet {
    position: Vec2,
    velocity: Vec2,
    matter: Matter,
    history: Vec<Vec2>,
    color: Color,
}

/// What a planet is made of: fixed at creation, and strictly positive.
struct Matter {
    radius: u32,
    mass: u32,
}

impl Matter {
    #[verifier::type_invariant]
    spec fn sound(&self) -> bool {
        positive(self.radius) && positive(self.mass)
    }
}

/// What a planet is, as a mathematical value.
pub ghost struct PlanetModel {
    pub position: Vec2,
    pub radius: u32,
    pub velocity: Vec2,
    pub mass: u32,
    /// The positions reached at the end of each frame so far, oldest first.
    pub history: Seq<Vec2>,
    pub color: Color,
}

impl PlanetModel {
    /// The part that the formulas read.
    pub open spec fn particle(self) -> Particle {
        Particle {
            position: self.position,
            velocity: self.velocity,
            mass: self.mass,
            radius: self.radius,
        }
    }

    /// The planet after a frame that took it to `motion`: it has the new velocity and
    /// position, the new position is appended to its trail, and nothing else changes.
    pub open spec fn moved(self, motion: Motion) -> PlanetModel {
        PlanetModel {
            position: motion.position,
            velocity: motion.velocity,
            history: self.history.push(motion.position),
            ..self
        }
    }

    /// The velocity and position of this planet, as a frame's result.
    pub open spec fn motion(self) -> Motion {
        Motion { velocity: self.velocity, position: self.position }
    }
}

impl View for Planet {
    type V = PlanetModel;

    closed spec fn view(&self) -> PlanetModel {
        PlanetModel {
            position: self.position,
            radius: self.matter.radius,
            velocity: self.velocity,
            mass: self.matter.mass,
            history: self.history@,
            color: self.color,
        }
    }
}

/// A planet that was `before` has passed all `others` and finished its frame as `after`,
/// leaving `others_after`.
///
/// Some record of encounters leads from `before` past the others, from the last to the
/// first; `advance`, asked about the planet as the last encounter left it and the
/// acceleration it gathered, gave the velocity and position of `after`; the new position is
/// appended to the trail; radius, mass and colour are untouched.
pub open spec fn updated<A, O, C, M>(
    physics: &Physics<A, O, C, M>,
    before: PlanetModel,
    others: Seq<Particle>,
    after: PlanetModel,
    others_after: Seq<Particle>,
) -> bool where
    A: Fn(Particle, Particle, Vec2) -> Vec2,
    O: Fn(Particle, Particle) -> bool,
    C: Fn(Particle, Particle) -> Exchange,
    M: Fn(Particle, Vec2) -> Motion,
 {
    &&& after == before.moved(after.motion())
    &&& exists|bodies: Seq<Particle>, accelerations: Seq<Vec2>|
        {
            &&& #[trigger] physics.encounters(
                before.particle(),
                others,
                others_after,
                bodies,
                accelerations,
            )
            &&& call_ensures(
                physics.advance,
                (bodies.last(), accelerations.last()),
                after.motion(),
            )
        }
}

/// The models of a row of planets, in the same order.
pub open spec fn models(planets: Seq<Planet>) -> Seq<PlanetModel> {
    Seq::new(planets.len(), |i: int| planets[i]@)
}

impl Planet {
    /// A planet that has not moved yet: its trail is empty.
    pub fn new(position: Vec2, radius: u32, velocity: Vec2, mass: u32, color: Color) -> (planet:
        Planet)
        requires
            positive(radius),
            positive(mass),
        ensures
            planet@ == (PlanetModel {
                position,
                radius,
                velocity,
                mass,
                history: Seq::empty(),
                color,
            }),
    {
        Planet { position, velocity, matter: Matter { radius, mass }, history: Vec::new(), color }
    }

    pub fn position(&self) -> (position: Vec2)
        ensures
            position == self@.position,
    {
        self.position
    }

    pub fn radius(&self) -> (radius: u32)
        ensures
            radius == self@.radius,
            positive(radius),
    {
        proof {
            use_type_invariant(&self.matter);
        }
        self.matter.radius
    }

    pub fn velocity(&self) -> (velocity: Vec2)
        ensures
            velocity == self@.velocity,
    {
        self.velocity
    }

    pub fn mass(&self) -> (mass: u32)
        ensures
            mass == self@.mass,
            positive(mass),
    {
        proof {
            use_type_invariant(&self.matter);
        }
        self.matter.mass
    }

    pub fn color(&self) -> (color: Color)
        ensures
            color == self@.color,
    {
        self.color
    }

    /// The trail, oldest position first.
    pub fn history(&self) -> (history: &Vec<Vec2>)
        ensures
            history@ == self@.history,
    {
        &self.history
    }

    /// The part of the planet that the formulas read; it is always valid.
    pub fn particle(&self) -> (particle: Particle)
        ensures
            particle == self@.particle(),
            particle.valid(),
    {
        proof {
            use_type_invariant(&self.matter);
        }
        Particle {
            position: self.position,
            velocity: self.velocity,
            mass: self.matter.mass,
            radius: self.matter.radius,
        }
    }

    /// The line segments of the trail, oldest first: one from each recorded position to the
    /// next. A trail of fewer than two positions has none.
    pub fn trail_segments(&self) -> (segments: Vec<(Vec2, Vec2)>)
        ensures
            segments.len() == if self@.history.len() > 1 {
                self@.history.len() - 1
            } else {
                0
            },
            forall|k: int|
                0 <= k < segments.len() ==> #[trigger] segments[k] == (
                    self@.history[k],
                    self@.history[k + 1],
                ),
    {
        let mut segments: Vec<(Vec2, Vec2)> = Vec::new();
        let len: usize = self.history.len();
        let mut i: usize = 1;
        while i < len
            invariant
                1 <= i,
                len == self.history.len(),
                i <= len || i == 1,
                segments.len() == i - 1,
                forall|k: int|
                    0 <= k < segments.len() ==> #[trigger] segments[k] == (
                        self.history[k],
                        self.history[k + 1],
                    ),
            decreases len - i,
        {
            segments.push((self.history[i - 1], self.history[i]));
            i += 1;
        }
        segments
    }
    /// Takes the planet through one frame: past every one of `others`, from the last to
    /// the first, and then to its new position, which is appended to the trail.
    ///
    /// An other at exactly the planet's position is passed without effect. Any other pulls
    /// on the planet; one that touches it also bounces, which changes the planet's velocity
    /// at once and the velocity of that entry of `others`.
    pub fn update<A, O, C, M>(
        &mut self,
        others: &mut Vec<Particle>,
        physics: &Physics<A, O, C, M>,
    ) where
        A: Fn(Particle, Particle, Vec2) -> Vec2,
        O: Fn(Particle, Particle) -> bool,
        C: Fn(Particle, Particle) -> Exchange,
        M: Fn(Particle, Vec2) -> Motion,

        requires
            physics.total(),
            forall|j: int| 0 <= j < old(others).len() ==> #[trigger] old(others)[j].valid(),
        ensures
            updated(physics, old(self)@, old(others)@, final(self)@, final(others)@),
            forall|j: int| 0 <= j < final(others).len() ==> #[trigger] final(others)[j].valid(),
    {
        proof {
            use_type_invariant(&self.matter);
        }
        let n: usize = others.len();
        let mut acceleration: Vec2 = Vec2::zero();
        let ghost mut bodies: Seq<Particle> = seq![self@.particle()];
        let ghost mut accelerations: Seq<Vec2> = seq![acceleration];
        let mut j: usize = n;
        while j > 0
            invariant
                physics.total(),
                j <= n,
                n == old(others).len(),
                others.len() == n,
                bodies.len() == n - j + 1,
                accelerations.len() == n - j + 1,
                bodies[0] == old(self)@.particle(),
                accelerations[0] == Vec2::origin(),
                bodies.last() == self@.particle(),
                accelerations.last() == acceleration,
                self@.particle().valid(),
                self@ == (PlanetModel { velocity: self@.velocity, ..old(self)@ }),
                forall|i: int| 0 <= i < n ==> #[trigger] others[i].valid(),
                forall|i: int| 0 <= i < j ==> others[i] == old(others)[i],
                forall|k: int|
                    0 <= k < n - j ==> #[trigger] physics.encounter_at(
                        old(others)@,
                        others@,
                        bodies,
                        accelerations,
                        k,
                    ),
            decreases j,
        {
            j -= 1;
            let ghost others_before = others@;
            let ghost bodies_before = bodies;
            let ghost accelerations_before = accelerations;
            let other: Particle = others[j];
            let body: Particle = self.particle();
            if !(body.position == other.position) {
                acceleration = (physics.attract)(body, other, acceleration);
                if (physics.overlap)(body, other) {
                    let exchange: Exchange = (physics.collide)(body, other);
                    self.velocity = exchange.velocity;
                    others.set(
                        j,
                        Particle {
                            position: other.position,
                            velocity: exchange.other_velocity,
                            mass: other.mass,
                            radius: other.radius,
                        },
                    );
                }
            }
            proof {
                bodies = bodies.push(self@.particle());
                accelerations = accelerations.push(acceleration);
                assert forall|i: int| 0 <= i < n implies #[trigger] others[i].valid() by {
                    assert(others_before[i].valid());
                }
                assert forall|k: int| 0 <= k < n - j implies #[trigger] physics.encounter_at(
                    old(others)@,
                    others@,
                    bodies,
                    accelerations,
                    k,
                ) by {
                    if k < n - j - 1 {
                        assert(physics.encounter_at(
                            old(others)@,
                            others_before,
                            bodies_before,
                            accelerations_before,
                            k,
                        ));
                    }
                }
            }
        }
        let motion: Motion = (physics.advance)(self.particle(), acceleration);
        self.velocity = motion.velocity;
        self.position = motion.position;
        self.history.push(motion.position);
        proof {
            assert(self@.history =~= old(self)@.history.push(motion.position));
            assert(physics.encounters(
                old(self)@.particle(),
                old(others)@,
                others@,
                bodies,
                accelerations,
            ));
        }
    }
}

} // verus!
