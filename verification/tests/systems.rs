use jam4::boid::components::{Agent, Boid, BoidColor, TameState};
use jam4::boid::config::BoidConfig;
use jam4::boid::{
    calc_tamed_boids, calculate_boid_direction, despawn_collided_boids, find_player,
    update_boid_velocity, update_tamed_boids,
};
use jam4::fixed::ONE;
use jam4::moveable::{move_moveables, FnField, Moveable, MoveableBounds};
use jam4::player::{
    calc_player_direction, spawn_boid, spawn_player, toggle_player_mode, PlayerInfo, TurnInput,
};
use jam4::simulation::tick;
use jam4::vec2::Vec2;

type Field = FnField<fn(Vec2) -> i64>;

fn open_field() -> MoveableBounds<Field> {
    fn far(_p: Vec2) -> i64 {
        1000 * ONE
    }
    MoveableBounds::from_sdf(FnField::new(far as fn(Vec2) -> i64))
}

/// Open below y = 100.
fn ceiling() -> MoveableBounds<Field> {
    fn below(p: Vec2) -> i64 {
        100 * ONE - p.y
    }
    MoveableBounds::from_sdf(FnField::new(below as fn(Vec2) -> i64))
}

fn wild_at(x: i64, y: i64, cfg: &BoidConfig) -> Agent {
    spawn_boid(Vec2::new(x, y), Vec2::new(0, ONE), cfg)
}

fn boosting(on: bool) -> PlayerInfo {
    PlayerInfo { score: 0, in_boost_mode: on }
}

fn len2(v: Vec2) -> i128 {
    (v.x as i128) * (v.x as i128) + (v.y as i128) * (v.y as i128)
}

fn is_unit(v: Vec2) -> bool {
    let one = ONE as i128;
    (one - 2) * (one - 2) <= len2(v) && len2(v) <= (one + 2) * (one + 2)
}

#[test]
fn finds_the_only_player() {
    let cfg = BoidConfig::default();
    let player = spawn_player(Vec2::new(0, 0), &cfg);
    let boid = wild_at(0, 0, &cfg);
    assert_eq!(find_player(&vec![]), None);
    assert_eq!(find_player(&vec![boid, boid]), None);
    assert_eq!(find_player(&vec![boid, player, boid]), Some(1));
    assert_eq!(find_player(&vec![player]), Some(0));
    assert_eq!(find_player(&vec![player, boid, player]), None);
    assert_eq!(find_player(&vec![player, player, player]), None);
}

#[test]
fn agent_just_inside_the_vision_is_tamed_and_released_just_outside() {
    let cfg = BoidConfig::default();
    let player = spawn_player(Vec2::new(0, 0), &cfg);
    let vision = player.boid.vision;
    let mut agents = vec![player, wild_at(vision - 1, 0, &cfg)];
    calc_tamed_boids(&mut agents, &boosting(false), &cfg);
    assert_eq!(agents[1].tame, TameState::Tamed);
    assert_eq!(agents[1].boid.turning_speed, cfg.min_turn_speed);
    assert_eq!(agents[1].color, BoidColor::Tamed);
    assert_eq!(agents[0], player);

    agents[1].position = Vec2::new(vision + 1, 0);
    agents[1].boid.speed = cfg.max_speed;
    calc_tamed_boids(&mut agents, &boosting(false), &cfg);
    assert_eq!(agents[1].tame, TameState::Wild);
    assert_eq!(agents[1].boid.turning_speed, cfg.wild_turn_speed);
    assert_eq!(agents[1].boid.speed, cfg.wild_speed);
    assert_eq!(agents[1].color, BoidColor::Wild);
}

#[test]
fn agent_exactly_at_the_vision_radius_is_tamed() {
    let cfg = BoidConfig::default();
    let player = spawn_player(Vec2::new(10, 20), &cfg);
    let vision = player.boid.vision;
    let mut agents = vec![wild_at(10, 20 - vision, &cfg), player];
    calc_tamed_boids(&mut agents, &boosting(true), &cfg);
    assert_eq!(agents[0].tame, TameState::Tamed);
    assert_eq!(agents[0].boid.turning_speed, cfg.max_turn_speed);
    assert_eq!(agents[0].color, BoidColor::TamedBoosted);
}

#[test]
fn taming_uses_the_euclidean_distance() {
    let cfg = BoidConfig::default();
    let player = spawn_player(Vec2::new(0, 0), &cfg);
    // vision 800: (480, 640) is exactly 800 away, (481, 640) is beyond
    let mut agents = vec![
        player,
        wild_at(480 * ONE, 640 * ONE, &cfg),
        wild_at(480 * ONE + 1, 640 * ONE, &cfg),
        wild_at(-700 * ONE, -700 * ONE, &cfg),
    ];
    calc_tamed_boids(&mut agents, &boosting(false), &cfg);
    assert_eq!(agents[1].tame, TameState::Tamed);
    assert_eq!(agents[2].tame, TameState::Wild);
    assert_eq!(agents[3].tame, TameState::Wild);
}

#[test]
fn taming_leaves_settled_agents_alone() {
    let cfg = BoidConfig::default();
    let player = spawn_player(Vec2::new(0, 0), &cfg);
    let mut near = wild_at(5 * ONE, 0, &cfg);
    near.tame = TameState::Tamed;
    near.boid.turning_speed = 12345;
    near.boid.speed = cfg.max_speed;
    near.color = BoidColor::Tamed;
    let mut far = wild_at(5000 * ONE, 0, &cfg);
    far.boid.turning_speed = 54321;
    let mut agents = vec![near, far, player];
    let before = agents.clone();
    calc_tamed_boids(&mut agents, &boosting(true), &cfg);
    assert_eq!(agents, before);
}

#[test]
fn taming_needs_exactly_one_player() {
    let cfg = BoidConfig::default();
    let player = spawn_player(Vec2::new(0, 0), &cfg);
    let mut agents = vec![wild_at(ONE, 0, &cfg)];
    let before = agents.clone();
    calc_tamed_boids(&mut agents, &boosting(false), &cfg);
    assert_eq!(agents, before);
    let mut agents = vec![player, wild_at(ONE, 0, &cfg), player];
    let before = agents.clone();
    calc_tamed_boids(&mut agents, &boosting(false), &cfg);
    assert_eq!(agents, before);
}

#[test]
fn tamed_agents_follow_the_boost() {
    let cfg = BoidConfig::default();
    let player = spawn_player(Vec2::new(0, 0), &cfg);
    let mut tamed = wild_at(ONE, 0, &cfg);
    tamed.tame = TameState::Tamed;
    tamed.boid.turning_speed = cfg.min_turn_speed;
    let wild = wild_at(2 * ONE, 0, &cfg);
    let mut agents = vec![player, tamed, wild];
    update_tamed_boids(&mut agents, &boosting(true), &cfg);
    assert_eq!(agents[1].boid.turning_speed, cfg.max_turn_speed);
    assert_eq!(agents[1].color, BoidColor::TamedBoosted);
    assert_eq!(agents[0], player);
    assert_eq!(agents[2], wild);
    update_tamed_boids(&mut agents, &boosting(false), &cfg);
    assert_eq!(agents[1].boid.turning_speed, cfg.min_turn_speed);
    assert_eq!(agents[1].color, BoidColor::Tamed);
    assert_eq!(agents[2], wild);
}

#[test]
fn directions_are_computed_from_the_population_before_the_update() {
    let cfg = BoidConfig::default();
    // a and b intrude on each other and push apart; each force is computed
    // from the other's old position and heading
    let a = wild_at(0, 0, &cfg);
    let b = wild_at(10 * ONE, 0, &cfg);
    let mut agents = vec![a, b];
    calculate_boid_direction(&mut agents, &open_field(), &cfg, ONE);
    // turning speed 10 for one second: (0, 1) + 10 * (-1, 0), normalised
    assert_eq!(agents[0].boid.direction, jam4::vec2::normalize_wide(-10, 1));
    assert_eq!(agents[1].boid.direction, jam4::vec2::normalize_wide(10, 1));
    assert_eq!(agents[0].boid.direction, Vec2::new(-65210, 6521));
    assert_eq!(agents[0].position, a.position);
}

#[test]
fn direction_update_sets_the_speeds() {
    let cfg = BoidConfig::default();
    let player = spawn_player(Vec2::new(0, 2000 * ONE), &cfg);
    let mut wild = wild_at(0, 0, &cfg);
    wild.boid.speed = 123;
    let mut trailing = wild_at(1000 * ONE, 0, &cfg);
    trailing.tame = TameState::Tamed;
    let mut settled = wild_at(-1000 * ONE, 1250 * ONE, &cfg);
    settled.tame = TameState::Tamed;
    settled.boid.speed = 700 * ONE;
    settled.boid.direction = Vec2::new(ONE, 0);
    let mut lonely_player = player;
    lonely_player.boid.speed = 77;
    let mut agents = vec![lonely_player, wild, trailing, settled];
    calculate_boid_direction(&mut agents, &open_field(), &cfg, 1024);
    assert_eq!(agents[0].boid.speed, 77);
    assert_eq!(agents[0].boid.direction, lonely_player.boid.direction);
    assert_eq!(agents[1].boid.speed, cfg.wild_speed);
    assert_eq!(agents[2].boid.speed, cfg.max_speed);
    // the player's projection stays near (0, 2000); the settled agent's
    // projections are (0, 1250) and (-500, 1250): the slow one is farther
    assert_eq!(agents[3].boid.speed, cfg.max_speed);
}

#[test]
fn tamed_agent_without_request_keeps_its_speed() {
    let cfg = BoidConfig::default();
    let mut tamed = wild_at(0, 0, &cfg);
    tamed.tame = TameState::Tamed;
    tamed.boid.speed = 700 * ONE;
    let mut agents = vec![tamed];
    calculate_boid_direction(&mut agents, &open_field(), &cfg, 1024);
    assert_eq!(agents[0].boid.speed, 700 * ONE);
}

#[test]
fn velocity_update_keeps_everything_else() {
    let cfg = BoidConfig::default();
    let mut a = wild_at(3, 4, &cfg);
    a.boid.direction = Vec2::new(ONE, 0);
    a.collided = true;
    let mut agents = vec![a, spawn_player(Vec2::new(0, 0), &cfg)];
    update_boid_velocity(&mut agents);
    assert_eq!(agents[0].moveable.velocity, Vec2::new(500 * ONE, 0));
    assert_eq!(agents[1].moveable.velocity, Vec2::new(0, 1000 * ONE));
    a.moveable = agents[0].moveable;
    assert_eq!(agents[0], a);
}

#[test]
fn free_agent_moves_by_velocity_times_time() {
    let cfg = BoidConfig::default();
    let mut a = wild_at(0, 0, &cfg);
    a.moveable = Moveable { velocity: Vec2::new(100 * ONE, -50 * ONE) };
    let mut agents = vec![a];
    // half a second
    move_moveables(&mut agents, &open_field(), ONE / 2);
    assert_eq!(agents[0].position, Vec2::new(50 * ONE, -25 * ONE));
    assert!(!agents[0].collided);
    assert_eq!(agents[0].moveable, a.moveable);
}

#[test]
fn blocked_agent_stays_and_is_flagged_every_tick() {
    let cfg = BoidConfig::default();
    let mut a = wild_at(0, 99 * ONE, &cfg);
    a.moveable = Moveable { velocity: Vec2::new(0, 500 * ONE) };
    let mut agents = vec![a];
    let bounds = ceiling();
    move_moveables(&mut agents, &bounds, 1024);
    assert_eq!(agents[0].position, a.position);
    assert!(agents[0].collided);
    move_moveables(&mut agents, &bounds, 1024);
    assert_eq!(agents[0].position, a.position);
    assert!(agents[0].collided);
}

#[test]
fn collision_flag_lasts_one_tick() {
    let cfg = BoidConfig::default();
    let mut a = wild_at(0, 99 * ONE, &cfg);
    a.moveable = Moveable { velocity: Vec2::new(0, 500 * ONE) };
    let mut agents = vec![a];
    let bounds = ceiling();
    move_moveables(&mut agents, &bounds, 1024);
    assert!(agents[0].collided);
    // turned around, the agent moves freely and the flag is gone
    agents[0].moveable.velocity = Vec2::new(0, -500 * ONE);
    move_moveables(&mut agents, &bounds, 1024);
    assert!(!agents[0].collided);
    assert_eq!(agents[0].position, Vec2::new(0, 99 * ONE - 500 * 1024));
}

#[test]
fn agent_at_rest_is_not_flagged() {
    let cfg = BoidConfig::default();
    // inside the wall, but not moving
    let a = wild_at(0, 200 * ONE, &cfg);
    let mut agents = vec![a];
    move_moveables(&mut agents, &ceiling(), ONE);
    assert_eq!(agents[0], a);
    // moving, but for no time
    agents[0].moveable.velocity = Vec2::new(0, 500 * ONE);
    agents[0].collided = true;
    move_moveables(&mut agents, &ceiling(), 0);
    assert_eq!(agents[0].position, a.position);
    assert!(!agents[0].collided);
}

#[test]
fn zero_force_and_zero_time_change_nothing() {
    let cfg = BoidConfig::default();
    let mut a = wild_at(5 * ONE, 6 * ONE, &cfg);
    a.boid.direction = Vec2::new(39321, 52428);
    let mut agents = vec![a];
    let bounds = open_field();
    calculate_boid_direction(&mut agents, &bounds, &cfg, 0);
    update_boid_velocity(&mut agents);
    move_moveables(&mut agents, &bounds, 0);
    assert_eq!(agents[0].boid.direction, a.boid.direction);
    assert_eq!(agents[0].position, a.position);
    assert!(!agents[0].collided);
}

#[test]
fn collided_agents_are_removed_but_for_the_player() {
    let cfg = BoidConfig::default();
    let mut player = spawn_player(Vec2::new(0, 0), &cfg);
    player.collided = true;
    let a = wild_at(1, 0, &cfg);
    let mut b = wild_at(2, 0, &cfg);
    b.collided = true;
    let c = wild_at(3, 0, &cfg);
    let mut d = wild_at(4, 0, &cfg);
    d.collided = true;
    let mut agents = vec![b, a, player, d, c];
    despawn_collided_boids(&mut agents);
    assert_eq!(agents, vec![a, player, c]);
    despawn_collided_boids(&mut agents);
    assert_eq!(agents, vec![a, player, c]);
    let mut none: Vec<Agent> = vec![];
    despawn_collided_boids(&mut none);
    assert!(none.is_empty());
}

#[test]
fn player_turns_by_quarter_turn_forces() {
    let cfg = BoidConfig::default();
    let player = spawn_player(Vec2::new(0, 0), &cfg);
    let boid = wild_at(ONE, 0, &cfg);
    let mut agents = vec![boid, player];
    // gentle turning speed 1 for one second: (0, 1) + (-1, 0), normalised
    calc_player_direction(&mut agents, TurnInput::Left, ONE);
    assert_eq!(agents[1].boid.direction, Vec2::new(-46340, 46340));
    assert_eq!(agents[0], boid);
    let mut agents = vec![boid, player];
    calc_player_direction(&mut agents, TurnInput::Right, ONE);
    assert_eq!(agents[1].boid.direction, Vec2::new(46340, 46340));
    let mut agents = vec![boid, player];
    calc_player_direction(&mut agents, TurnInput::Straight, ONE);
    assert_eq!(agents, vec![boid, player]);
    let mut agents = vec![boid, boid];
    calc_player_direction(&mut agents, TurnInput::Left, ONE);
    assert_eq!(agents, vec![boid, boid]);
}

#[test]
fn boost_switches_the_players_speeds() {
    let cfg = BoidConfig::default();
    let player = spawn_player(Vec2::new(0, 0), &cfg);
    let mut agents = vec![player];
    let mut info = PlayerInfo::default();
    toggle_player_mode(&mut agents, &mut info, true, false, &cfg);
    assert!(info.in_boost_mode);
    assert_eq!(agents[0].boid.speed, cfg.min_speed);
    assert_eq!(agents[0].boid.turning_speed, cfg.min_turn_speed);
    toggle_player_mode(&mut agents, &mut info, false, false, &cfg);
    assert!(info.in_boost_mode);
    assert_eq!(agents[0].boid.speed, cfg.min_speed);
    toggle_player_mode(&mut agents, &mut info, false, true, &cfg);
    assert!(!info.in_boost_mode);
    assert_eq!(agents[0].boid.speed, cfg.max_speed);
    assert_eq!(agents[0].boid.turning_speed, cfg.max_turn_speed);
    toggle_player_mode(&mut agents, &mut info, true, true, &cfg);
    assert!(!info.in_boost_mode);
    assert_eq!(agents[0].boid.speed, cfg.max_speed);
    let mut nobody = vec![wild_at(0, 0, &cfg)];
    let before = nobody.clone();
    toggle_player_mode(&mut nobody, &mut info, true, false, &cfg);
    assert_eq!(nobody, before);
    assert!(!info.in_boost_mode);
}

#[test]
fn tick_runs_taming_steering_and_motion_in_order() {
    let cfg = BoidConfig::default();
    let player = spawn_player(Vec2::new(0, 0), &cfg);
    let follower = wild_at(0, -300 * ONE, &cfg);
    let mut agents = vec![player, follower];
    let bounds = open_field();
    let dt = 1024;
    tick(&mut agents, &boosting(false), &bounds, &cfg, dt);

    let mut expected = vec![player, follower];
    calc_tamed_boids(&mut expected, &boosting(false), &cfg);
    update_tamed_boids(&mut expected, &boosting(false), &cfg);
    calculate_boid_direction(&mut expected, &bounds, &cfg, dt);
    update_boid_velocity(&mut expected);
    move_moveables(&mut expected, &bounds, dt);
    assert_eq!(agents, expected);

    // the follower was tamed before it steered: it turns gently, it is
    // drawn along the player's heading, and it trails the player at the
    // largest speed
    assert_eq!(agents[1].tame, TameState::Tamed);
    assert_eq!(agents[1].boid.turning_speed, cfg.min_turn_speed);
    assert_eq!(agents[1].boid.speed, cfg.max_speed);
    assert_eq!(agents[1].boid.direction, Vec2::new(0, ONE));
    assert_eq!(agents[1].moveable.velocity, Vec2::new(0, 1000 * ONE));
    assert_eq!(agents[1].position, Vec2::new(0, -300 * ONE + 1000 * 1024));
    assert_eq!(agents[0].position, Vec2::new(0, 1000 * 1024));
}

#[test]
fn headings_stay_unit_and_speeds_stay_bounded_over_many_ticks() {
    let cfg = BoidConfig::default();
    let mut agents = vec![spawn_player(Vec2::new(0, 0), &cfg)];
    let headings = [
        Vec2::new(0, ONE),
        Vec2::new(ONE, 0),
        Vec2::new(-46340, 46340),
        Vec2::new(39321, -52428),
        Vec2::new(-ONE, 0),
    ];
    for i in 0..40i64 {
        let x = (i % 8 - 4) * 37 * ONE;
        let y = (i / 8 - 2) * 41 * ONE;
        agents.push(spawn_boid(Vec2::new(x, y), headings[(i % 5) as usize], &cfg));
    }
    // a box of 400 by 400 units around the origin
    let bounds = MoveableBounds::from_sdf(FnField::new(|p: Vec2| {
        let dx = 400 * ONE - p.x.abs();
        let dy = 400 * ONE - p.y.abs();
        dx.min(dy)
    }));
    let mut info = PlayerInfo::default();
    for step in 0..200 {
        if step == 50 {
            toggle_player_mode(&mut agents, &mut info, true, false, &cfg);
        }
        if step == 120 {
            toggle_player_mode(&mut agents, &mut info, false, true, &cfg);
        }
        let input = if step % 3 == 0 { TurnInput::Left } else { TurnInput::Straight };
        calc_player_direction(&mut agents, input, 1024);
        tick(&mut agents, &info, &bounds, &cfg, 1024);
        for a in agents.iter() {
            assert!(is_unit(a.boid.direction), "step {step}: {:?}", a.boid.direction);
            if !a.boid.is_player {
                assert!(cfg.min_speed <= a.boid.speed && a.boid.speed <= cfg.max_speed);
            }
            assert!(a.position.x.abs() < 400 * ONE && a.position.y.abs() < 400 * ONE);
        }
        despawn_collided_boids(&mut agents);
    }
    assert!(agents.iter().any(|a| a.boid.is_player));
}

#[test]
fn default_boid_moves_and_turns_like_a_wild_one() {
    let b = Boid::default();
    assert!(!b.is_player);
    assert_eq!(b.speed, 500 * ONE);
    assert_eq!(b.turning_speed, 10 * ONE);
}
