use jam4::boid::components::{agents_are_wf, Agent, Boid, TameState, RADIUS_MAX};
use jam4::boid::config::{BoidConfig, SPEED_MAX, TURN_MAX};
use jam4::fixed::ONE;
use jam4::moveable::{Moveable, COORD_MAX, VELOCITY_MAX};
use jam4::player::{spawn_boid, spawn_player};
use jam4::vec2::Vec2;

fn sample() -> Agent {
    spawn_boid(Vec2::new(0, 0), Vec2::new(0, ONE), &BoidConfig::default())
}

#[test]
fn unit_length_allows_two_units_of_rounding() {
    assert!(Vec2::new(0, ONE).has_unit_length());
    assert!(Vec2::new(ONE - 2, 0).has_unit_length());
    assert!(Vec2::new(ONE + 2, 0).has_unit_length());
    assert!(!Vec2::new(ONE - 3, 0).has_unit_length());
    assert!(!Vec2::new(ONE + 3, 0).has_unit_length());
    assert!(Vec2::new(46340, 46340).has_unit_length());
    assert!(Vec2::new(-39321, 52428).has_unit_length());
    assert!(!Vec2::new(0, 0).has_unit_length());
    assert!(!Vec2::new(ONE, ONE).has_unit_length());
    assert!(!Vec2::new(i64::MIN, i64::MAX).has_unit_length());
}

#[test]
fn within_is_inclusive() {
    assert!(Vec2::new(5, -5).is_within(5));
    assert!(!Vec2::new(6, 0).is_within(5));
    assert!(!Vec2::new(0, -6).is_within(5));
    assert!(Vec2::new(0, 0).is_within(0));
}

#[test]
fn spawned_agents_are_well_formed() {
    let cfg = BoidConfig::default();
    assert!(sample().is_wf());
    assert!(spawn_player(Vec2::new(COORD_MAX, -COORD_MAX), &cfg).is_wf());
    assert!(Boid::default().is_wf());
    assert!(Moveable::default().is_wf());
    assert!(agents_are_wf(&vec![]));
    assert!(agents_are_wf(&vec![sample(), spawn_player(Vec2::new(0, 0), &cfg)]));
}

#[test]
fn agents_out_of_range_are_not_well_formed() {
    let mut a = sample();
    a.position = Vec2::new(COORD_MAX + 1, 0);
    assert!(!a.is_wf());
    let mut a = sample();
    a.boid.direction = Vec2::new(0, 0);
    assert!(!a.is_wf());
    let mut a = sample();
    a.boid.personal_space = a.boid.vision + 1;
    assert!(!a.is_wf());
    let mut a = sample();
    a.boid.personal_space = -1;
    assert!(!a.is_wf());
    let mut a = sample();
    a.boid.vision = RADIUS_MAX + 1;
    assert!(!a.is_wf());
    let mut a = sample();
    a.boid.vision = 0;
    a.boid.personal_space = 0;
    assert!(!a.is_wf());
    let mut a = sample();
    a.boid.speed = SPEED_MAX + 1;
    assert!(!a.is_wf());
    let mut a = sample();
    a.boid.turning_speed = TURN_MAX + 1;
    assert!(!a.is_wf());
    let mut a = sample();
    a.moveable.velocity = Vec2::new(0, VELOCITY_MAX + 1);
    assert!(!a.is_wf());
    let mut a = spawn_player(Vec2::new(0, 0), &BoidConfig::default());
    a.tame = TameState::Tamed;
    assert!(!a.is_wf());
    assert!(!agents_are_wf(&vec![sample(), a, sample()]));
}

#[test]
fn agents_at_the_limits_are_well_formed() {
    let mut a = sample();
    a.position = Vec2::new(-COORD_MAX, COORD_MAX);
    a.boid.vision = RADIUS_MAX;
    a.boid.personal_space = RADIUS_MAX;
    a.boid.speed = SPEED_MAX;
    a.boid.turning_speed = TURN_MAX;
    a.moveable.velocity = Vec2::new(-VELOCITY_MAX, VELOCITY_MAX);
    assert!(a.is_wf());
    a.boid.personal_space = 0;
    a.boid.speed = 0;
    a.boid.turning_speed = 0;
    assert!(a.is_wf());
}
