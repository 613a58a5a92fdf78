//! One frame of the simulation over all planets.

use vstd::prelude::*;
use crate::vector::Vec2;
use crate::physics::{Particle, Motion, Exchange, Physics};
use crate::planet::{Planet, PlanetModel, models, updated};

verus! {

/// The particles of a row of planets, in the same order.
pub open spec fn particles(planets: Seq<PlanetModel>) -> Seq<Particle> {
    Seq::new(planets.len(), |i: int| planets[i].particle())
}

/// The `i`-th planet went from `before[i]` to `after[i]`, passing the others as
/// `snapshots[i]` shows them and leaving them as `snapshots[i + 1]`.
pub open spec fn updated_at<A, O, C, M>(
    physics: &Physics<A, O, C, M>,
    before: Seq<PlanetModel>,
    after: Seq<PlanetModel>,
    snapshots: Seq<Seq<Particle>>,
    i: int,
) -> bool where
    A: Fn(Particle, Particle, Vec2) -> Vec2,
    O: Fn(Particle, Particle) -> bool,
    C: Fn(Particle, Particle) -> Exchange,
    M: Fn(Particle, Vec2) -> Motion,
 {
    updated(physics, before[i], snapshots[i], after[i], snapshots[i + 1])
}

/// `snapshots` records a frame that took the planets from `before` to `after`.
///
/// The first snapshot is a copy of the planets as the frame found them. The planets are
/// then updated one by one, in order, each against the copy: a planet sees every other
/// where it was when the frame began, moving as the bounces of the planets before it left
/// the copy.
pub open spec fn frame<A, O, C, M>(
    physics: &Physics<A, O, C, M>,
    before: Seq<PlanetModel>,
    after: Seq<PlanetModel>,
    snapshots: Seq<Seq<Particle>>,
) -> bool where
    A: Fn(Particle, Particle, Vec2) -> Vec2,
    O: Fn(Particle, Particle) -> bool,
    C: Fn(Particle, Particle) -> Exchange,
    M: Fn(Particle, Vec2) -> Motion,
 {
    &&& after.len() == before.len()
    &&& snapshots.len() == before.len() + 1
    &&& snapshots[0] == particles(before)
    &&& forall|i: int|
        0 <= i < before.len() ==> #[trigger] updated_at(physics, before, after, snapshots, i)
}

/// One frame can take the planets from `before` to `after`.
pub open spec fn stepped<A, O, C, M>(
    physics: &Physics<A, O, C, M>,
    before: Seq<PlanetModel>,
    after: Seq<PlanetModel>,
) -> bool where
    A: Fn(Particle, Particle, Vec2) -> Vec2,
    O: Fn(Particle, Particle) -> bool,
    C: Fn(Particle, Particle) -> Exchange,
    M: Fn(Particle, Vec2) -> Motion,
 {
    exists|snapshots: Seq<Seq<Particle>>| #[trigger] frame(physics, before, after, snapshots)
}

/// A copy of what the formulas read of each planet, in order.
pub fn snapshot(planets: &Vec<Planet>) -> (copy: Vec<Particle>)
    ensures
        copy@ == particles(models(planets@)),
        forall|j: int| 0 <= j < copy.len() ==> #[trigger] copy[j].valid(),
{
    let mut copy: Vec<Particle> = Vec::new();
    let n: usize = planets.len();
    let mut i: usize = 0;
    while i < n
        invariant
            i <= n,
            n == planets.len(),
            copy.len() == i,
            forall|j: int| 0 <= j < i ==> #[trigger] copy[j] == planets[j]@.particle(),
            forall|j: int| 0 <= j < i ==> #[trigger] copy[j].valid(),
        decreases n - i,
    {
        copy.push(planets[i].particle());
        i += 1;
    }
    proof {
        assert(copy@ =~= particles(models(planets@)));
    }
    copy
}

/// Advances every planet by one frame, in place and in order.
///
/// A copy of all planets is taken first, and every planet is updated against that copy (see
/// [`Planet::update`]). So a planet meets each other one where the frame found it; a planet
/// is told apart from itself by its place alone, and two planets whose positions have the
/// same bit patterns pass through each other. A bounce changes the velocity of the planet
/// being updated at once, and that of the other one in the copy only: planets updated later
/// bounce off the changed copy, while the other planet itself keeps its velocity until its
/// own turn.
///
/// With no planets nothing happens.
pub fn update_planets<A, O, C, M>(planets: &mut Vec<Planet>, physics: &Physics<A, O, C, M>) where
    A: Fn(Particle, Particle, Vec2) -> Vec2,
    O: Fn(Particle, Particle) -> bool,
    C: Fn(Particle, Particle) -> Exchange,
    M: Fn(Particle, Vec2) -> Motion,

    requires
        physics.total(),
    ensures
        final(planets).len() == old(planets).len(),
        stepped(physics, models(old(planets)@), models(final(planets)@)),
{
    let mut copy: Vec<Particle> = snapshot(planets);
    let n: usize = planets.len();
    let ghost mut snapshots: Seq<Seq<Particle>> = seq![copy@];
    let mut i: usize = 0;
    while i < n
        invariant
            physics.total(),
            i <= n,
            n == old(planets).len(),
            planets.len() == n,
            copy.len() == n,
            snapshots.len() == i + 1,
            snapshots[0] == particles(models(old(planets)@)),
            snapshots.last() == copy@,
            forall|j: int| 0 <= j < copy.len() ==> #[trigger] copy[j].valid(),
            forall|k: int| i <= k < n ==> planets[k] == old(planets)[k],
            forall|k: int|
                0 <= k < i ==> #[trigger] updated(
                    physics,
                    old(planets)[k]@,
                    snapshots[k],
                    planets[k]@,
                    snapshots[k + 1],
                ),
        decreases n - i,
    {
        let planet = &mut planets[i];
        planet.update(&mut copy, physics);
        proof {
            snapshots = snapshots.push(copy@);
        }
        i += 1;
    }
    proof {
        let before = models(old(planets)@);
        let after = models(planets@);
        assert forall|k: int| 0 <= k < before.len() implies #[trigger] updated_at(
            physics,
            before,
            after,
            snapshots,
            k,
        ) by {
            assert(updated(
                physics,
                old(planets)[k]@,
                snapshots[k],
                planets[k]@,
                snapshots[k + 1],
            ));
        }
        assert(frame(physics, before, after, snapshots));
    }
}

/// A frame moves every planet once: each planet keeps its radius, mass and colour, and its
/// trail is the old one with the new position appended. The number of planets stays.
pub proof fn frame_moves_every_planet<A, O, C, M>(
    physics: &Physics<A, O, C, M>,
    before: Seq<PlanetModel>,
    after: Seq<PlanetModel>,
) where
    A: Fn(Particle, Particle, Vec2) -> Vec2,
    O: Fn(Particle, Particle) -> bool,
    C: Fn(Particle, Particle) -> Exchange,
    M: Fn(Particle, Vec2) -> Motion,

    requires
        stepped(physics, before, after),
    ensures
        after.len() == before.len(),
        forall|i: int|
            0 <= i < before.len() ==> #[trigger] after[i] == before[i].moved(after[i].motion()),
{
    let snapshots = choose|snapshots: Seq<Seq<Particle>>|
        #[trigger] frame(physics, before, after, snapshots);
    assert forall|i: int| 0 <= i < before.len() implies #[trigger] after[i] == before[i].moved(
        after[i].motion(),
    ) by {
        assert(updated_at(physics, before, after, snapshots, i));
    }
}

/// `frames[k + 1]` is `frames[k]` one frame later, for every `k`.
pub open spec fn successive<A, O, C, M>(
    physics: &Physics<A, O, C, M>,
    frames: Seq<Seq<PlanetModel>>,
) -> bool where
    A: Fn(Particle, Particle, Vec2) -> Vec2,
    O: Fn(Particle, Particle) -> bool,
    C: Fn(Particle, Particle) -> Exchange,
    M: Fn(Particle, Vec2) -> Motion,
 {
    &&& frames.len() >= 1
    &&& forall|k: int|
        0 <= k < frames.len() - 1 ==> stepped(physics, #[trigger] frames[k], frames[k + 1])
}

/// After `n` frames in a row the trail of every planet is longer by exactly `n`, and
/// begins with the trail it had: a trail is never cut or rewritten.
pub proof fn trail_grows_by_one_each_frame<A, O, C, M>(
    physics: &Physics<A, O, C, M>,
    frames: Seq<Seq<PlanetModel>>,
) where
    A: Fn(Particle, Particle, Vec2) -> Vec2,
    O: Fn(Particle, Particle) -> bool,
    C: Fn(Particle, Particle) -> Exchange,
    M: Fn(Particle, Vec2) -> Motion,

    requires
        successive(physics, frames),
    ensures
        frames.last().len() == frames[0].len(),
        forall|i: int|
            0 <= i < frames[0].len() ==> {
                &&& (#[trigger] frames.last()[i]).history.len() == frames[0][i].history.len()
                    + frames.len() - 1
                &&& frames.last()[i].history.subrange(0, frames[0][i].history.len() as int)
                    == frames[0][i].history
            },
    decreases frames.len(),
{
    if frames.len() == 1 {
        assert forall|i: int| 0 <= i < frames[0].len() implies {
            &&& (#[trigger] frames.last()[i]).history.len() == frames[0][i].history.len()
                + frames.len() - 1
            &&& frames.last()[i].history.subrange(0, frames[0][i].history.len() as int)
                == frames[0][i].history
        } by {
            assert(frames[0][i].history.subrange(0, frames[0][i].history.len() as int)
                =~= frames[0][i].history);
        }
    } else {
        let earlier = frames.drop_last();
        assert forall|k: int| 0 <= k < earlier.len() - 1 implies stepped(
            physics,
            #[trigger] earlier[k],
            earlier[k + 1],
        ) by {
            assert(stepped(physics, frames[k], frames[k + 1]));
        }
        trail_grows_by_one_each_frame(physics, earlier);
        let k = frames.len() - 2;
        assert(stepped(physics, frames[k], frames[k + 1]));
        frame_moves_every_planet(physics, frames[k], frames.last());
        assert(earlier.last() == frames[k]);
        assert forall|i: int| 0 <= i < frames[0].len() implies {
            &&& (#[trigger] frames.last()[i]).history.len() == frames[0][i].history.len()
                + frames.len() - 1
            &&& frames.last()[i].history.subrange(0, frames[0][i].history.len() as int)
                == frames[0][i].history
        } by {
            let first = frames[0][i].history;
            let previous = frames[k][i];
            let last = frames.last()[i];
            assert(earlier.last()[i] == previous);
            assert(last == previous.moved(last.motion()));
            assert(previous.history.subrange(0, first.len() as int) == first);
            assert(last.history.subrange(0, first.len() as int) =~= previous.history.subrange(
                0,
                first.len() as int,
            ));
        }
    }
}

/// A planet that is alone meets nobody: it gathers no acceleration, and the frame leaves it
/// where `advance` puts it for an acceleration of zero.
pub proof fn lone_planet_meets_nobody<A, O, C, M>(
    physics: &Physics<A, O, C, M>,
    before: Seq<PlanetModel>,
    after: Seq<PlanetModel>,
) where
    A: Fn(Particle, Particle, Vec2) -> Vec2,
    O: Fn(Particle, Particle) -> bool,
    C: Fn(Particle, Particle) -> Exchange,
    M: Fn(Particle, Vec2) -> Motion,

    requires
        stepped(physics, before, after),
        before.len() == 1,
    ensures
        after.len() == 1,
        after[0] == before[0].moved(after[0].motion()),
        call_ensures(
            physics.advance,
            (before[0].particle(), Vec2::origin()),
            after[0].motion(),
        ),
{
    let snapshots = choose|snapshots: Seq<Seq<Particle>>|
        #[trigger] frame(physics, before, after, snapshots);
    assert(updated_at(physics, before, after, snapshots, 0));
    let (bodies, accelerations) = choose|bodies: Seq<Particle>, accelerations: Seq<Vec2>|
        {
            &&& #[trigger] physics.encounters(
                before[0].particle(),
                snapshots[0],
                snapshots[1],
                bodies,
                accelerations,
            )
            &&& call_ensures(
                physics.advance,
                (bodies.last(), accelerations.last()),
                after[0].motion(),
            )
        };
    assert(physics.encounter_at(snapshots[0], snapshots[1], bodies, accelerations, 0));
}

/// Throughout a frame the copy that the planets are updated against keeps every planet
/// where the frame found it, with its mass and radius: only velocities in it change.
pub proof fn snapshots_keep_places<A, O, C, M>(
    physics: &Physics<A, O, C, M>,
    before: Seq<PlanetModel>,
    after: Seq<PlanetModel>,
    snapshots: Seq<Seq<Particle>>,
    i: int,
) where
    A: Fn(Particle, Particle, Vec2) -> Vec2,
    O: Fn(Particle, Particle) -> bool,
    C: Fn(Particle, Particle) -> Exchange,
    M: Fn(Particle, Vec2) -> Motion,

    requires
        frame(physics, before, after, snapshots),
        0 <= i <= before.len(),
    ensures
        snapshots[i].len() == before.len(),
        forall|j: int|
            0 <= j < before.len() ==> #[trigger] snapshots[i][j] == before[j].particle().with_velocity(
                snapshots[i][j].velocity,
            ),
    decreases i,
{
    if i > 0 {
        snapshots_keep_places(physics, before, after, snapshots, i - 1);
        assert(updated_at(physics, before, after, snapshots, i - 1));
        let others = snapshots[i - 1];
        let others_after = snapshots[i];
        let (bodies, accelerations) = choose|bodies: Seq<Particle>, accelerations: Seq<Vec2>|
            {
                &&& #[trigger] physics.encounters(
                    before[i - 1].particle(),
                    others,
                    others_after,
                    bodies,
                    accelerations,
                )
                &&& call_ensures(
                    physics.advance,
                    (bodies.last(), accelerations.last()),
                    after[i - 1].motion(),
                )
            };
        assert forall|j: int| 0 <= j < before.len() implies #[trigger] snapshots[i][j]
            == before[j].particle().with_velocity(snapshots[i][j].velocity) by {
            let k = others.len() - 1 - j;
            assert(physics.encounter_at(others, others_after, bodies, accelerations, k));
            assert(others[j] == before[j].particle().with_velocity(others[j].velocity));
        }
    }
}

/// `body` met `other` and nobody else, gathered its acceleration from that one encounter,
/// and ended the frame at `motion`.
pub open spec fn met_only<A, O, C, M>(
    physics: &Physics<A, O, C, M>,
    body: Particle,
    other: Particle,
    motion: Motion,
) -> bool where
    A: Fn(Particle, Particle, Vec2) -> Vec2,
    O: Fn(Particle, Particle) -> bool,
    C: Fn(Particle, Particle) -> Exchange,
    M: Fn(Particle, Vec2) -> Motion,
 {
    exists|body_after: Particle, acceleration: Vec2, other_after: Particle|
        {
            &&& #[trigger] physics.encounter(
                body,
                Vec2::origin(),
                other,
                body_after,
                acceleration,
                other_after,
            )
            &&& call_ensures(physics.advance, (body_after, acceleration), motion)
        }
}

/// Two planets at different places meet once from each side, and each side is worked out
/// from the state in which the frame found both: the first planet's bounce changes the
/// second only in the copy, so the second still bounces off the first with the velocity it
/// had, against the velocity the first had.
pub proof fn two_planets_meet_from_both_sides<A, O, C, M>(
    physics: &Physics<A, O, C, M>,
    before: Seq<PlanetModel>,
    after: Seq<PlanetModel>,
) where
    A: Fn(Particle, Particle, Vec2) -> Vec2,
    O: Fn(Particle, Particle) -> bool,
    C: Fn(Particle, Particle) -> Exchange,
    M: Fn(Particle, Vec2) -> Motion,

    requires
        stepped(physics, before, after),
        before.len() == 2,
        before[0].position != before[1].position,
    ensures
        after.len() == 2,
        met_only(physics, before[0].particle(), before[1].particle(), after[0].motion()),
        met_only(physics, before[1].particle(), before[0].particle(), after[1].motion()),
{
    let snapshots = choose|snapshots: Seq<Seq<Particle>>|
        #[trigger] frame(physics, before, after, snapshots);
    snapshots_keep_places(physics, before, after, snapshots, 0);
    snapshots_keep_places(physics, before, after, snapshots, 1);
    assert(snapshots[0][0] == before[0].particle());
    assert(snapshots[0][1] == before[1].particle());
    assert(updated_at(physics, before, after, snapshots, 0));
    let (bodies, accelerations) = choose|bodies: Seq<Particle>, accelerations: Seq<Vec2>|
        {
            &&& #[trigger] physics.encounters(
                before[0].particle(),
                snapshots[0],
                snapshots[1],
                bodies,
                accelerations,
            )
            &&& call_ensures(
                physics.advance,
                (bodies.last(), accelerations.last()),
                after[0].motion(),
            )
        };
    assert(physics.encounter_at(snapshots[0], snapshots[1], bodies, accelerations, 0));
    assert(physics.encounter_at(snapshots[0], snapshots[1], bodies, accelerations, 1));
    assert(bodies[2] == bodies[1] && accelerations[2] == accelerations[1]);
    assert(snapshots[1][0] == before[0].particle());
    assert(physics.encounter(
        before[0].particle(),
        Vec2::origin(),
        before[1].particle(),
        bodies[1],
        accelerations[1],
        snapshots[1][1],
    ));
    assert(updated_at(physics, before, after, snapshots, 1));
    let (later, gathered) = choose|bodies: Seq<Particle>, accelerations: Seq<Vec2>|
        {
            &&& #[trigger] physics.encounters(
                before[1].particle(),
                snapshots[1],
                snapshots[2],
                bodies,
                accelerations,
            )
            &&& call_ensures(
                physics.advance,
                (bodies.last(), accelerations.last()),
                after[1].motion(),
            )
        };
    assert(physics.encounter_at(snapshots[1], snapshots[2], later, gathered, 0));
    assert(physics.encounter_at(snapshots[1], snapshots[2], later, gathered, 1));
    assert(later[1] == later[0] && gathered[1] == gathered[0]);
    assert(physics.encounter(
        before[1].particle(),
        Vec2::origin(),
        before[0].particle(),
        later[2],
        gathered[2],
        snapshots[2][0],
    ));
}

} // verus!
