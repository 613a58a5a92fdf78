//! The planets of a simulation: a row in the order of their creation, which grows at its
//! end and shrinks wherever a planet is taken out.

use vstd::prelude::*;
use crate::vector::{positive, Vec2, Color};
use crate::planet::{Planet, PlanetModel};

verus! {

/// Adds a planet with an empty trail behind all others and returns its index. The planets
/// that were there stay as they are.
pub fn spawn(
    planets: &mut Vec<Planet>,
    position: Vec2,
    radius: u32,
    velocity: Vec2,
    mass: u32,
    color: Color,
) -> (index: usize)
    requires
        positive(radius),
        positive(mass),
    ensures
        index == old(planets).len(),
        final(planets).len() == old(planets).len() + 1,
        final(planets)@.drop_last() == old(planets)@,
        final(planets)@.last()@ == (PlanetModel {
            position,
            radius,
            velocity,
            mass,
            history: Seq::empty(),
            color,
        }),
{
    let index: usize = planets.len();
    planets.push(Planet::new(position, radius, velocity, mass, color));
    proof {
        assert(planets@.drop_last() =~= old(planets)@);
    }
    index
}

/// Takes out the planet at `index` and returns it; the planets behind it move one place
/// forward. An `index` beyond the last planet takes out nothing and changes nothing.
pub fn remove(planets: &mut Vec<Planet>, index: usize) -> (removed: Option<Planet>)
    ensures
        index < old(planets).len() ==> removed == Some(old(planets)[index as int])
            && final(planets)@ == old(planets)@.remove(index as int),
        index >= old(planets).len() ==> removed.is_none() && final(planets)@ == old(planets)@,
{
    if index < planets.len() {
        Some(planets.remove(index))
    } else {
        None
    }
}

/// Taking out the planet at `index` leaves one planet fewer: those before `index` keep their
/// index, and each one behind it is found one index lower. Nothing in the row follows a
/// planet by itself, so whoever holds an index behind `index` has to lower it.
pub proof fn removal_shifts_later_planets(planets: Seq<Planet>, index: int)
    requires
        0 <= index < planets.len(),
    ensures
        planets.remove(index).len() == planets.len() - 1,
        forall|i: int| 0 <= i < index ==> #[trigger] planets.remove(index)[i] == planets[i],
        forall|i: int|
            index <= i < planets.len() - 1 ==> #[trigger] planets.remove(index)[i] == planets[i
                + 1],
{
}

} // verus!
