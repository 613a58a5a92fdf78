//! The settings from which the next planet is made.

use vstd::prelude::*;
use crate::vector::{positive, is_positive, Vec2, Color, ONE, TEN};
use crate::planet::{Planet, PlanetModel};

verus! {

/// Radius, velocity, mass and colour of the planet that would be created next. They belong
/// to no planet: changing them changes none that exists.
#[derive(Clone, Copy, PartialEq, Eq, Structural, Debug)]
pub struct PlanetParams {
    pub radius: u32,
    pub velocity: Vec2,
    pub mass: u32,
    pub color: Color,
}

impl PlanetParams {
    /// A planet can be made of these settings: radius and mass are strictly positive.
    pub open spec fn valid(&self) -> bool {
        positive(self.radius) && positive(self.mass)
    }

    /// The planet that these settings give at `position`.
    pub open spec fn model_at(&self, position: Vec2) -> PlanetModel {
        PlanetModel {
            position,
            radius: self.radius,
            velocity: self.velocity,
            mass: self.mass,
            history: Seq::empty(),
            color: self.color,
        }
    }

    /// The settings at start: radius 10, mass 10, at rest, opaque white.
    pub fn new() -> (params: PlanetParams)
        ensures
            params == (PlanetParams {
                radius: TEN,
                velocity: Vec2::origin(),
                mass: TEN,
                color: Color { r: ONE, g: ONE, b: ONE, a: ONE },
            }),
            params.valid(),
    {
        PlanetParams {
            radius: TEN,
            velocity: Vec2::zero(),
            mass: TEN,
            color: Color::new(ONE, ONE, ONE, ONE),
        }
    }

    /// Decides [`PlanetParams::valid`].
    pub fn is_valid(&self) -> (yes: bool)
        ensures
            yes == self.valid(),
    {
        is_positive(self.radius) && is_positive(self.mass)
    }

    /// Makes the planet that these settings give at `position`.
    pub fn planet_at(&self, position: Vec2) -> (planet: Planet)
        requires
            self.valid(),
        ensures
            planet@ == self.model_at(position),
    {
        Planet::new(position, self.radius, self.velocity, self.mass, self.color)
    }
}

} // verus!
