//! What the keys and the mouse do to the simulation, and which planet the camera follows.

use vstd::prelude::*;
use vstd::arithmetic::div_mod::{
    lemma_fundamental_div_mod,
    lemma_fundamental_div_mod_converse,
    lemma_small_mod,
};
use crate::vector::Vec2;
use crate::planet::Planet;
use crate::params::PlanetParams;

verus! {

/// What the user did during one frame.
#[derive(Clone, Copy, PartialEq, Eq, Structural, Debug)]
pub struct Input {
    /// Where in the world the right mouse button was pressed, if it was.
    pub click: Option<Vec2>,
    /// The key for the next planet was pressed.
    pub next: bool,
    /// The key for the previous planet was pressed.
    pub previous: bool,
    /// The key that shows or hides the panel was pressed.
    pub toggle_ui: bool,
}

impl Input {
    /// A click creates a planet only while creation by click is switched on.
    pub open spec fn spawns(&self, spawn_on_click: bool) -> bool {
        spawn_on_click && self.click.is_some()
    }

    /// The number of planets once the click, if any, has been served.
    pub open spec fn count_after(&self, spawn_on_click: bool, count: int) -> int {
        if self.spawns(spawn_on_click) {
            count + 1
        } else {
            count
        }
    }

    /// The followed index among `count` planets once the keys have been served: first the
    /// key for the next planet, then the key for the previous one.
    pub open spec fn target_after(&self, target: int, count: int) -> int {
        let forth = if self.next {
            following(target, count)
        } else {
            target
        };
        if self.previous {
            preceding(forth, count)
        } else {
            forth
        }
    }
}

/// The index after `target` among `count` planets; after the last comes the first.
pub open spec fn following(target: int, count: int) -> int {
    (target + 1) % count
}

/// The index before `target` among `count` planets; before the first comes the last.
pub open spec fn preceding(target: int, count: int) -> int {
    (target + count - 1) % count
}

/// `target` brought back among `count` planets: itself when it names one of them, else
/// its remainder by `count`; zero when there is no planet.
pub open spec fn wrapped(target: int, count: int) -> int {
    if count == 0 {
        0
    } else {
        target % count
    }
}

/// Moves the followed index to the next planet.
pub fn next_target(target: usize, count: usize) -> (next: usize)
    requires
        count > 0,
    ensures
        next == following(target as int, count as int),
        next < count,
{
    let place: usize = target % count;
    proof {
        let t = target as int;
        let c = count as int;
        lemma_fundamental_div_mod(t, c);
        if place + 1 == count {
            assert(t + 1 == (t / c + 1) * c + 0) by (nonlinear_arith)
                requires
                    t == c * (t / c) + (c - 1),
            ;
            lemma_fundamental_div_mod_converse(t + 1, c, t / c + 1, 0);
        } else {
            assert(t + 1 == (t / c) * c + (place + 1)) by (nonlinear_arith)
                requires
                    t == c * (t / c) + place,
            ;
            lemma_fundamental_div_mod_converse(t + 1, c, t / c, place + 1);
        }
    }
    if place + 1 == count {
        0
    } else {
        place + 1
    }
}

/// Moves the followed index to the previous planet.
pub fn previous_target(target: usize, count: usize) -> (previous: usize)
    requires
        count > 0,
    ensures
        previous == preceding(target as int, count as int),
        previous < count,
{
    let place: usize = target % count;
    proof {
        let t = target as int;
        let c = count as int;
        lemma_fundamental_div_mod(t, c);
        if place == 0 {
            assert(t + c - 1 == (t / c) * c + (c - 1)) by (nonlinear_arith)
                requires
                    t == c * (t / c) + 0,
            ;
            lemma_fundamental_div_mod_converse(t + c - 1, c, t / c, c - 1);
        } else {
            assert(t + c - 1 == (t / c + 1) * c + (place - 1)) by (nonlinear_arith)
                requires
                    t == c * (t / c) + place,
            ;
            lemma_fundamental_div_mod_converse(t + c - 1, c, t / c + 1, place - 1);
        }
    }
    if place == 0 {
        count - 1
    } else {
        place - 1
    }
}

/// Brings a followed index that a removal may have left behind the last planet back among
/// the `count` planets that there are.
pub fn wrap_target(target: usize, count: usize) -> (index: usize)
    ensures
        index == wrapped(target as int, count as int),
        count > 0 ==> index < count,
        target < count ==> index == target,
{
    if count == 0 {
        0
    } else {
        proof {
            if target < count {
                lemma_small_mod(target as nat, count as nat);
            }
        }
        target % count
    }
}

/// Where the camera looks: at the followed planet, if there is any planet.
///
/// The followed index is first brought back among the planets, so that an index left over
/// from before a removal is served too. With no planet it is reset to zero and the camera
/// stays.
pub fn follow(planets: &Vec<Planet>, target: &mut usize) -> (center: Option<Vec2>)
    ensures
        *final(target) == wrapped(*old(target) as int, planets.len() as int),
        planets.len() == 0 ==> center.is_none(),
        planets.len() > 0 ==> *final(target) < planets.len() && center == Some(
            planets[*final(target) as int]@.position,
        ),
{
    *target = wrap_target(*target, planets.len());
    if planets.len() > 0 {
        Some(planets[*target].position())
    } else {
        None
    }
}

/// Serves one frame's input, in this order: a click creates a planet from `params` where
/// the mouse is, if creation by click is on; the key for the next planet and then the key
/// for the previous one move the followed index around the planets; the panel key shows or
/// hides the panel.
///
/// The two keys need a planet to go to: they must not come while there is none.
pub fn handle_input(
    input: &Input,
    params: &PlanetParams,
    planets: &mut Vec<Planet>,
    target: &mut usize,
    spawn_on_click: bool,
    ui_enabled: &mut bool,
)
    requires
        input.spawns(spawn_on_click) ==> params.valid(),
        input.next || input.previous ==> input.count_after(
            spawn_on_click,
            old(planets).len() as int,
        ) > 0,
    ensures
        final(planets).len() == input.count_after(spawn_on_click, old(planets).len() as int),
        input.spawns(spawn_on_click) ==> final(planets)@.drop_last() == old(planets)@
            && final(planets)@.last()@ == params.model_at(input.click.unwrap()),
        !input.spawns(spawn_on_click) ==> final(planets)@ == old(planets)@,
        *final(target) == input.target_after(*old(target) as int, final(planets).len() as int),
        *final(ui_enabled) == (*old(ui_enabled) != input.toggle_ui),
{
    if spawn_on_click {
        if let Some(position) = input.click {
            planets.push(params.planet_at(position));
            proof {
                assert(planets@.drop_last() =~= old(planets)@);
            }
        }
    }
    let count: usize = planets.len();
    if input.next {
        *target = next_target(*target, count);
    }
    if input.previous {
        *target = previous_target(*target, count);
    }
    if input.toggle_ui {
        *ui_enabled = !*ui_enabled;
    }
}

} // verus!
