use planets::input::{follow, handle_input, next_target, previous_target, wrap_target, Input};
use planets::panel::listing_order;
use planets::params::PlanetParams;
use planets::planet::Planet;
use planets::store::{remove, spawn};
use planets::vector::{is_positive, Color, Vec2, ONE, TEN};

fn vec(x: f32, y: f32) -> Vec2 {
    Vec2::new(x.to_bits(), y.to_bits())
}

fn red() -> Color {
    Color::new(1.0f32.to_bits(), 0.0f32.to_bits(), 0.0f32.to_bits(), 1.0f32.to_bits())
}

fn three() -> Vec<Planet> {
    let mut planets: Vec<Planet> = Vec::new();
    for i in 1..=3u32 {
        let x = i as f32;
        spawn(&mut planets, vec(x, x), x.to_bits(), vec(0.0, 0.0), (10.0 * x).to_bits(), red());
    }
    planets
}

fn quiet() -> Input {
    Input { click: None, next: false, previous: false, toggle_ui: false }
}

#[test]
fn bit_patterns_of_the_constants() {
    assert_eq!(f32::from_bits(ONE), 1.0);
    assert_eq!(f32::from_bits(TEN), 10.0);
    assert_eq!(Vec2::zero(), vec(0.0, 0.0));
}

#[test]
fn positive_numbers_by_their_bits() {
    assert!(is_positive(1.0f32.to_bits()));
    assert!(is_positive(f32::MIN_POSITIVE.to_bits()));
    assert!(is_positive(1));
    assert!(is_positive(f32::MAX.to_bits()));
    assert!(is_positive(f32::INFINITY.to_bits()));
    assert!(!is_positive(0.0f32.to_bits()));
    assert!(!is_positive((-0.0f32).to_bits()));
    assert!(!is_positive((-1.0f32).to_bits()));
    assert!(!is_positive(f32::NEG_INFINITY.to_bits()));
    assert!(!is_positive(f32::NAN.to_bits()));
    assert!(!is_positive(0x7f80_0001));
    assert!(!is_positive(u32::MAX));
    for x in [0.5f32, 3.25, 1e-40, 1e30, -2.0, 0.0, -1e-40] {
        assert_eq!(is_positive(x.to_bits()), x > 0.0);
    }
}

#[test]
fn a_new_planet_has_no_trail() {
    let p = Planet::new(vec(1.0, 2.0), 3.0f32.to_bits(), vec(-0.1, 0.1), 4.0f32.to_bits(), red());
    assert_eq!(p.position(), vec(1.0, 2.0));
    assert_eq!(p.radius(), 3.0f32.to_bits());
    assert_eq!(p.velocity(), vec(-0.1, 0.1));
    assert_eq!(p.mass(), 4.0f32.to_bits());
    assert_eq!(p.color(), red());
    assert!(p.history().is_empty());
    assert!(p.trail_segments().is_empty());
    let q = p.particle();
    assert_eq!(q.position, p.position());
    assert_eq!(q.velocity, p.velocity());
    assert_eq!(q.mass, p.mass());
    assert_eq!(q.radius, p.radius());
}

#[test]
fn spawn_appends_and_returns_the_index() {
    let mut planets = three();
    let index = spawn(&mut planets, vec(9.0, 9.0), ONE, vec(1.0, 0.0), TEN, red());
    assert_eq!(index, 3);
    assert_eq!(planets.len(), 4);
    assert_eq!(planets[0].position(), vec(1.0, 1.0));
    assert_eq!(planets[2].position(), vec(3.0, 3.0));
    assert_eq!(planets[3].position(), vec(9.0, 9.0));
    assert_eq!(planets[3].velocity(), vec(1.0, 0.0));
    assert_eq!(planets[3].radius(), ONE);
    assert_eq!(planets[3].mass(), TEN);
    assert!(planets[3].history().is_empty());
}

#[test]
fn removing_the_middle_planet_keeps_the_order() {
    let mut planets = three();
    let removed = remove(&mut planets, 1);
    assert_eq!(removed.map(|p| p.position()), Some(vec(2.0, 2.0)));
    assert_eq!(planets.len(), 2);
    assert_eq!(planets[0].position(), vec(1.0, 1.0));
    assert_eq!(planets[1].position(), vec(3.0, 3.0));
    // an index that named the third planet is now behind the end; the holder brings it back
    assert_eq!(wrap_target(2, planets.len()), 0);
    let mut target = 2usize;
    assert_eq!(follow(&planets, &mut target), Some(vec(1.0, 1.0)));
    assert_eq!(target, 0);
}

#[test]
fn removing_behind_the_end_changes_nothing() {
    let mut planets = three();
    assert!(remove(&mut planets, 3).is_none());
    assert!(remove(&mut planets, usize::MAX).is_none());
    assert_eq!(planets.len(), 3);
    assert_eq!(planets[1].position(), vec(2.0, 2.0));
    let mut none: Vec<Planet> = Vec::new();
    assert!(remove(&mut none, 0).is_none());
}

#[test]
fn removing_the_first_and_the_last() {
    let mut planets = three();
    assert_eq!(remove(&mut planets, 0).map(|p| p.position()), Some(vec(1.0, 1.0)));
    assert_eq!(planets[0].position(), vec(2.0, 2.0));
    assert_eq!(remove(&mut planets, 1).map(|p| p.position()), Some(vec(3.0, 3.0)));
    assert_eq!(planets.len(), 1);
    assert_eq!(planets[0].position(), vec(2.0, 2.0));
}

#[test]
fn settings_at_start() {
    let params = PlanetParams::new();
    assert_eq!(f32::from_bits(params.radius), 10.0);
    assert_eq!(f32::from_bits(params.mass), 10.0);
    assert_eq!(params.velocity, vec(0.0, 0.0));
    assert_eq!(params.color, Color::new(ONE, ONE, ONE, ONE));
    assert!(params.is_valid());
    let planet = params.planet_at(vec(7.0, 8.0));
    assert_eq!(planet.position(), vec(7.0, 8.0));
    assert_eq!(planet.radius(), TEN);
    assert_eq!(planet.mass(), TEN);
    assert_eq!(planet.velocity(), vec(0.0, 0.0));
    assert!(planet.history().is_empty());
}

#[test]
fn settings_without_size_or_weight_are_not_valid() {
    let good = PlanetParams::new();
    assert!(!PlanetParams { radius: 0.0f32.to_bits(), ..good }.is_valid());
    assert!(!PlanetParams { mass: (-1.0f32).to_bits(), ..good }.is_valid());
    assert!(!PlanetParams { mass: f32::NAN.to_bits(), ..good }.is_valid());
    assert!(PlanetParams { radius: 100.0f32.to_bits(), mass: 1000.0f32.to_bits(), ..good }.is_valid());
}

#[test]
fn next_and_previous_go_round() {
    assert_eq!(next_target(0, 3), 1);
    assert_eq!(next_target(1, 3), 2);
    assert_eq!(next_target(2, 3), 0);
    assert_eq!(next_target(0, 1), 0);
    assert_eq!(next_target(7, 3), 2);
    assert_eq!(previous_target(0, 3), 2);
    assert_eq!(previous_target(2, 3), 1);
    assert_eq!(previous_target(1, 3), 0);
    assert_eq!(previous_target(0, 1), 0);
    assert_eq!(previous_target(7, 3), 0);
    let far = usize::MAX;
    assert_eq!(next_target(far, 4), ((far % 4) + 1) % 4);
    assert_eq!(previous_target(far, 4), (far % 4 + 3) % 4);
    for target in 0..20usize {
        for count in 1..7usize {
            assert_eq!(next_target(target, count), (target + 1) % count);
            assert_eq!(previous_target(target, count), (target + count - 1) % count);
            assert_eq!(previous_target(next_target(target, count), count), target % count);
        }
    }
}

#[test]
fn wrapping_a_target() {
    assert_eq!(wrap_target(0, 0), 0);
    assert_eq!(wrap_target(5, 0), 0);
    assert_eq!(wrap_target(1, 3), 1);
    assert_eq!(wrap_target(3, 3), 0);
    assert_eq!(wrap_target(8, 3), 2);
}

#[test]
fn the_camera_follows_the_target() {
    let planets = three();
    let mut target = 1usize;
    assert_eq!(follow(&planets, &mut target), Some(vec(2.0, 2.0)));
    assert_eq!(target, 1);
    let none: Vec<Planet> = Vec::new();
    let mut target = 4usize;
    assert_eq!(follow(&none, &mut target), None);
    assert_eq!(target, 0);
}

#[test]
fn a_click_spawns_only_when_switched_on() {
    let params = PlanetParams { velocity: vec(0.5, -0.5), ..PlanetParams::new() };
    let click = Input { click: Some(vec(30.0, 40.0)), ..quiet() };
    let mut planets = three();
    let (mut target, mut ui) = (1usize, false);
    handle_input(&click, &params, &mut planets, &mut target, false, &mut ui);
    assert_eq!(planets.len(), 3);
    handle_input(&quiet(), &params, &mut planets, &mut target, true, &mut ui);
    assert_eq!(planets.len(), 3);
    handle_input(&click, &params, &mut planets, &mut target, true, &mut ui);
    assert_eq!(planets.len(), 4);
    assert_eq!(planets[3].position(), vec(30.0, 40.0));
    assert_eq!(planets[3].velocity(), vec(0.5, -0.5));
    assert_eq!(planets[3].radius(), TEN);
    assert_eq!(planets[3].mass(), TEN);
    assert_eq!(planets[3].color(), params.color);
    assert!(planets[3].history().is_empty());
    assert_eq!(planets[0].position(), vec(1.0, 1.0));
    assert_eq!(target, 1);
    assert!(!ui);
}

#[test]
fn keys_move_the_target_and_toggle_the_panel() {
    let params = PlanetParams::new();
    let mut planets = three();
    let (mut target, mut ui) = (2usize, false);
    handle_input(&Input { next: true, ..quiet() }, &params, &mut planets, &mut target, false, &mut ui);
    assert_eq!(target, 0);
    handle_input(&Input { previous: true, ..quiet() }, &params, &mut planets, &mut target, false, &mut ui);
    assert_eq!(target, 2);
    handle_input(
        &Input { next: true, previous: true, toggle_ui: true, ..quiet() },
        &params,
        &mut planets,
        &mut target,
        false,
        &mut ui,
    );
    assert_eq!(target, 2);
    assert!(ui);
    handle_input(&Input { toggle_ui: true, ..quiet() }, &params, &mut planets, &mut target, false, &mut ui);
    assert!(!ui);
    assert_eq!(planets.len(), 3);
}

#[test]
fn a_click_comes_before_the_keys() {
    let params = PlanetParams::new();
    let mut planets: Vec<Planet> = Vec::new();
    let (mut target, mut ui) = (0usize, true);
    let input = Input { click: Some(vec(1.0, 1.0)), next: true, previous: false, toggle_ui: false };
    handle_input(&input, &params, &mut planets, &mut target, true, &mut ui);
    assert_eq!(planets.len(), 1);
    assert_eq!(target, 0);
    let mut planets = three();
    let mut target = 2usize;
    handle_input(&input, &params, &mut planets, &mut target, true, &mut ui);
    assert_eq!(planets.len(), 4);
    assert_eq!(target, 3);
    assert!(ui);
}

#[test]
fn the_panel_lists_the_newest_first() {
    assert_eq!(listing_order(3), vec![2, 1, 0]);
    assert_eq!(listing_order(1), vec![0]);
    assert!(listing_order(0).is_empty());
}
