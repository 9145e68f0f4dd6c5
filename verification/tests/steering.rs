use jam4::boid::components::{
    avoidance_for, scale_vec, turn_heading, Agent, Avoidance, Boid, BoidColor, FlockForces,
    TameState,
};
use jam4::boid::config::BoidConfig;
use jam4::fixed::ONE;
use jam4::moveable::{FnField, Moveable, MoveableBounds};
use jam4::player::{spawn_boid, spawn_player};
use jam4::vec2::{Vec2, Wide2};

type Field = FnField<fn(Vec2) -> i64>;

fn open_field() -> MoveableBounds<Field> {
    fn far(_p: Vec2) -> i64 {
        1000 * ONE
    }
    MoveableBounds::from_sdf(FnField::new(far as fn(Vec2) -> i64))
}

fn agent_at(x: i64, y: i64) -> Agent {
    Agent {
        position: Vec2::new(x * ONE, y * ONE),
        boid: Boid::default(),
        moveable: Moveable::default(),
        tame: TameState::Wild,
        collided: false,
        color: BoidColor::Wild,
    }
}

fn player_at(x: i64, y: i64, cfg: &BoidConfig) -> Agent {
    spawn_player(Vec2::new(x * ONE, y * ONE), cfg)
}

const NOTHING: Wide2 = Wide2 { x: 0, y: 0 };

#[test]
fn deeper_left_wall_steers_right() {
    assert_eq!(avoidance_for(-5 * ONE, -10 * ONE, -2 * ONE), Avoidance::SteerRight);
}

#[test]
fn deeper_right_wall_steers_left() {
    assert_eq!(avoidance_for(-5 * ONE, -2 * ONE, -10 * ONE), Avoidance::SteerLeft);
}

#[test]
fn equally_deep_walls_steer_left() {
    assert_eq!(avoidance_for(5, -3, -3), Avoidance::SteerLeft);
}

#[test]
fn left_wall_alone_steers_right() {
    assert_eq!(avoidance_for(-5, -1, 0), Avoidance::SteerRight);
    assert_eq!(avoidance_for(7, -1, 4), Avoidance::SteerRight);
}

#[test]
fn right_wall_alone_steers_left() {
    assert_eq!(avoidance_for(7, 0, -1), Avoidance::SteerLeft);
}

#[test]
fn wall_ahead_alone_follows_the_normal() {
    assert_eq!(avoidance_for(-1, 0, 0), Avoidance::AlongNormal);
    assert_eq!(avoidance_for(-1, 3, 9), Avoidance::AlongNormal);
}

#[test]
fn no_wall_needs_no_avoidance() {
    assert_eq!(avoidance_for(0, 0, 0), Avoidance::Clear);
    assert_eq!(avoidance_for(1, 2, 3), Avoidance::Clear);
}

#[test]
fn bounds_force_turns_right_when_left_probe_is_deeper() {
    let cfg = BoidConfig::default();
    let boid = Boid::default();
    // heading up from the origin: the forward probe has x = 0, the left
    // probe x < 0, the right probe x > 0.
    let field = FnField::new(|p: Vec2| {
        if p.x < 0 {
            -10 * ONE
        } else if p.x > 0 {
            -2 * ONE
        } else {
            -5 * ONE
        }
    });
    let bounds = MoveableBounds::from_sdf(field);
    let force = boid.calculate_bounds_force(&cfg, Vec2::new(0, 0), &bounds);
    assert_eq!(force, Vec2::new(ONE, 0));
}

#[test]
fn bounds_force_turns_left_when_right_probe_is_blocked() {
    let cfg = BoidConfig::default();
    let boid = Boid::default();
    let bounds = MoveableBounds::from_sdf(FnField::new(|p: Vec2| if p.x > 0 { -1 } else { 1 }));
    assert_eq!(
        boid.calculate_bounds_force(&cfg, Vec2::new(0, 0), &bounds),
        Vec2::new(-ONE, 0)
    );
}

#[test]
fn bounds_force_probes_one_vision_ahead_and_to_both_sides() {
    let cfg = BoidConfig::default();
    let boid = Boid::default();
    let seen = std::cell::RefCell::new(Vec::new());
    let bounds = MoveableBounds::from_sdf(FnField::new(|p: Vec2| {
        seen.borrow_mut().push(p);
        1
    }));
    let force = boid.calculate_bounds_force(&cfg, Vec2::new(10 * ONE, 20 * ONE), &bounds);
    assert_eq!(force, Vec2::new(0, 0));
    // 400 units ahead; 400 * cos 45 = 282.84... units to the side and ahead
    let side = 46341 * 400;
    assert_eq!(
        *seen.borrow(),
        vec![
            Vec2::new(10 * ONE, 420 * ONE),
            Vec2::new(10 * ONE - side, 20 * ONE + side),
            Vec2::new(10 * ONE + side, 20 * ONE + side),
        ]
    );
}

#[test]
fn bounds_force_follows_the_normal_of_a_wall_ahead() {
    let cfg = BoidConfig::default();
    let boid = Boid::default();
    // open below y = 300: only the forward probe, at y = 400, is blocked
    let bounds = MoveableBounds::from_sdf(FnField::new(|p: Vec2| 300 * ONE - p.y));
    assert_eq!(
        boid.calculate_bounds_force(&cfg, Vec2::new(0, 0), &bounds),
        Vec2::new(0, -ONE)
    );
}

#[test]
fn bounds_force_without_bounds_turns_left() {
    let cfg = BoidConfig::default();
    let boid = Boid::default();
    let bounds: MoveableBounds<Field> = MoveableBounds::Absent;
    assert_eq!(
        boid.calculate_bounds_force(&cfg, Vec2::new(0, 0), &bounds),
        Vec2::new(-ONE, 0)
    );
}

#[test]
fn intruder_pushes_away_with_linear_falloff() {
    let cfg = BoidConfig::default();
    let me = agent_at(0, 0);
    // 25 units away with 50 units of personal space: weight 1 - 25/50
    let t = me.boid.neighbor_terms(&cfg, me.position, &agent_at(25, 0));
    assert_eq!(
        t,
        FlockForces {
            separation: Wide2 { x: -(25 * ONE as i128) * 32768, y: 0 },
            cohesion: NOTHING,
            alignment: NOTHING,
        }
    );
    // 10 units away: weight 1 - 10/50 = 0.8 = 52429/65536 after rounding
    // the quotient 0.2 down to 13107/65536
    let t = me.boid.neighbor_terms(&cfg, me.position, &agent_at(0, -10));
    assert_eq!(t.separation, Wide2 { x: 0, y: (10 * ONE as i128) * 52429 });
}

#[test]
fn larger_personal_space_of_the_two_counts() {
    let cfg = BoidConfig::default();
    let me = agent_at(0, 0);
    let mut other = agent_at(75, 0);
    other.boid.personal_space = 100 * ONE;
    // 75 units away with 100 units of room: weight 1 - 75/100
    let t = me.boid.neighbor_terms(&cfg, me.position, &other);
    assert_eq!(t.separation, Wide2 { x: -(75 * ONE as i128) * 16384, y: 0 });
    assert_eq!(t.cohesion, NOTHING);
}

#[test]
fn neighbour_in_sight_attracts_and_aligns() {
    let cfg = BoidConfig::default();
    let me = agent_at(0, 0);
    let mut other = agent_at(100, 0);
    other.boid.direction = Vec2::new(ONE, 0);
    // 100 units away with 400 units of vision: weight 1 - 100/400
    let t = me.boid.neighbor_terms(&cfg, me.position, &other);
    assert_eq!(
        t,
        FlockForces {
            separation: NOTHING,
            cohesion: Wide2 { x: (100 * ONE as i128) * ONE as i128, y: 0 },
            alignment: Wide2 { x: (ONE as i128) * (49152 * ONE as i128), y: 0 },
        }
    );
}

#[test]
fn neighbour_at_the_edge_of_personal_space_attracts() {
    let cfg = BoidConfig::default();
    let me = agent_at(0, 0);
    let t = me.boid.neighbor_terms(&cfg, me.position, &agent_at(50, 0));
    assert_eq!(t.separation, NOTHING);
    assert_eq!(t.cohesion, Wide2 { x: (50 * ONE as i128) * ONE as i128, y: 0 });
}

#[test]
fn player_in_sight_counts_by_its_influence_without_falloff() {
    let cfg = BoidConfig::default();
    let me = agent_at(0, 0);
    let player = player_at(0, 300, &cfg);
    let t = me.boid.neighbor_terms(&cfg, me.position, &player);
    let influence = 100 * ONE as i128;
    assert_eq!(
        t,
        FlockForces {
            separation: NOTHING,
            cohesion: Wide2 { x: 0, y: (300 * ONE as i128) * influence },
            alignment: Wide2 { x: 0, y: (ONE as i128) * (ONE as i128 * influence) },
        }
    );
}

#[test]
fn larger_vision_of_the_two_counts_and_falloff_may_be_negative() {
    let cfg = BoidConfig::default();
    let me = agent_at(0, 0);
    let mut other = agent_at(600, 0);
    other.boid.vision = 800 * ONE;
    // seen because the other sees 800 units; own vision 400: weight 1 - 600/400
    let t = me.boid.neighbor_terms(&cfg, me.position, &other);
    assert_eq!(t.cohesion, Wide2 { x: (600 * ONE as i128) * ONE as i128, y: 0 });
    assert_eq!(t.alignment, Wide2 { x: 0, y: (ONE as i128) * (-32768 * ONE as i128) });
}

#[test]
fn neighbour_out_of_sight_adds_nothing() {
    let cfg = BoidConfig::default();
    let me = agent_at(0, 0);
    let t = me.boid.neighbor_terms(&cfg, me.position, &agent_at(400, 0));
    assert_eq!(t, FlockForces { separation: NOTHING, cohesion: NOTHING, alignment: NOTHING });
    let t = me.boid.neighbor_terms(&cfg, me.position, &agent_at(-3000, 4000));
    assert_eq!(t, FlockForces { separation: NOTHING, cohesion: NOTHING, alignment: NOTHING });
}

#[test]
fn agent_adds_nothing_to_itself() {
    let cfg = BoidConfig::default();
    let me = agent_at(7, 9);
    let t = me.boid.neighbor_terms(&cfg, me.position, &me);
    assert_eq!(t, FlockForces { separation: NOTHING, cohesion: NOTHING, alignment: NOTHING });
}

#[test]
fn trailing_agent_speeds_up() {
    let cfg = BoidConfig::default();
    let me = agent_at(0, 0);
    let player = player_at(0, 2000, &cfg);
    assert_eq!(
        me.boid.player_speed_request(&cfg, me.position, &player),
        Some(cfg.max_speed)
    );
}

#[test]
fn leading_agent_slows_down() {
    let cfg = BoidConfig::default();
    let me = agent_at(0, 0);
    let player = player_at(0, -2000, &cfg);
    assert_eq!(
        me.boid.player_speed_request(&cfg, me.position, &player),
        Some(cfg.min_speed)
    );
}

#[test]
fn agent_beside_the_player_keeps_its_speed() {
    let cfg = BoidConfig::default();
    let me = agent_at(0, 0);
    // the player's projection (0, 750) lies midway between (0, 500) and
    // (0, 1000)
    let mut player = player_at(0, 750, &cfg);
    player.boid.speed = 0;
    assert_eq!(me.boid.player_speed_request(&cfg, me.position, &player), None);
}

#[test]
fn agent_within_both_personal_spaces_keeps_its_speed() {
    let cfg = BoidConfig::default();
    let me = agent_at(0, 0);
    // projections 1000 and 500 against 900: 100 and 400 away, room is 150
    let mut player = player_at(0, 900, &cfg);
    player.boid.speed = 0;
    assert_eq!(
        me.boid.player_speed_request(&cfg, me.position, &player),
        Some(cfg.max_speed)
    );
    // projections against 880 with a room of 400: 120 and 380 away
    player.position = Vec2::new(0, 880 * ONE);
    player.boid.personal_space = 350 * ONE;
    player.boid.vision = 800 * ONE;
    assert_eq!(me.boid.player_speed_request(&cfg, me.position, &player), None);
}

#[test]
fn lone_agent_feels_no_force() {
    let cfg = BoidConfig::default();
    let me = agent_at(0, 0);
    let agents = vec![me];
    let (force, speed) = me.boid.calculate_forces(&agents, &cfg, me.position, &open_field(), false);
    assert_eq!(force, Vec2::new(0, 0));
    assert_eq!(speed, None);
}

#[test]
fn player_feels_no_force_and_asks_for_no_speed() {
    let cfg = BoidConfig::default();
    let player = player_at(0, 0, &cfg);
    let agents = vec![player, agent_at(10, 0), agent_at(0, 200)];
    let walls: MoveableBounds<Field> = MoveableBounds::Absent;
    for tamed in [false, true] {
        let (force, speed) = player.boid.calculate_forces(&agents, &cfg, player.position, &walls, tamed);
        assert_eq!(force, Vec2::new(0, 0));
        assert_eq!(speed, None);
    }
}

#[test]
fn separation_dominates_at_half_the_personal_space() {
    let cfg = BoidConfig::default();
    let me = agent_at(0, 0);
    let other = agent_at(25, 0);
    for agents in [vec![me, other], vec![other, me]] {
        let (force, _) = me.boid.calculate_forces(&agents, &cfg, me.position, &open_field(), true);
        assert_eq!(force, Vec2::new(-ONE, 0));
    }
}

#[test]
fn wild_agent_ignores_alignment() {
    let cfg = BoidConfig::default();
    let me = agent_at(0, 0);
    let mut other = agent_at(0, 100);
    other.boid.direction = Vec2::new(ONE, 0);
    let agents = vec![me, other];
    let (force, speed) = me.boid.calculate_forces(&agents, &cfg, me.position, &open_field(), false);
    assert_eq!(force, Vec2::new(0, ONE));
    assert_eq!(speed, None);
}

#[test]
fn tamed_agent_blends_alignment_and_cohesion() {
    let cfg = BoidConfig::default();
    let me = agent_at(0, 0);
    let mut other = agent_at(0, 100);
    other.boid.direction = Vec2::new(ONE, 0);
    let agents = vec![me, other];
    let (force, speed) = me.boid.calculate_forces(&agents, &cfg, me.position, &open_field(), true);
    assert_eq!(force, Vec2::new(46340, 46340));
    assert_eq!(speed, None);
}

#[test]
fn wandering_lets_wild_agents_align() {
    let mut cfg = BoidConfig::default();
    cfg.wander = true;
    let me = agent_at(0, 0);
    let mut other = agent_at(0, 100);
    other.boid.direction = Vec2::new(ONE, 0);
    let agents = vec![me, other];
    let (force, speed) = me.boid.calculate_forces(&agents, &cfg, me.position, &open_field(), false);
    assert_eq!(force, Vec2::new(46340, 46340));
    assert_eq!(speed, None);
}

#[test]
fn weights_scale_the_normalised_forces() {
    let mut cfg = BoidConfig::default();
    cfg.alignment = 3 * ONE;
    cfg.cohesion = 4 * ONE;
    let me = agent_at(0, 0);
    let mut other = agent_at(0, 100);
    other.boid.direction = Vec2::new(ONE, 0);
    let agents = vec![me, other];
    let (force, _) = me.boid.calculate_forces(&agents, &cfg, me.position, &open_field(), true);
    assert_eq!(force, Vec2::new(39321, 52428));
}

#[test]
fn boundary_outweighs_the_flock() {
    let cfg = BoidConfig::default();
    let me = agent_at(0, 0);
    let other = agent_at(0, 100);
    let agents = vec![me, other];
    // right probe blocked: turn left with weight 50 against cohesion 1
    let bounds = MoveableBounds::from_sdf(FnField::new(|p: Vec2| if p.x > 0 { -1 } else { 1 }));
    let (force, _) = me.boid.calculate_forces(&agents, &cfg, me.position, &bounds, false);
    assert_eq!(force, jam4::vec2::normalize_wide(-50, 1));
    assert_eq!(force, Vec2::new(-65522, 1310));
}

#[test]
fn tamed_agent_reports_the_speed_request() {
    let cfg = BoidConfig::default();
    let me = agent_at(0, 0);
    let player = player_at(0, 2000, &cfg);
    let agents = vec![me, player];
    let (_, speed) = me.boid.calculate_forces(&agents, &cfg, me.position, &open_field(), true);
    assert_eq!(speed, Some(cfg.max_speed));
    let (_, speed) = me.boid.calculate_forces(&agents, &cfg, me.position, &open_field(), false);
    assert_eq!(speed, None);
}

#[test]
fn last_player_with_a_request_wins() {
    let cfg = BoidConfig::default();
    let me = agent_at(0, 0);
    let ahead = player_at(0, 2000, &cfg);
    let behind = player_at(0, -2000, &cfg);
    let mut beside = player_at(0, 750, &cfg);
    beside.boid.speed = 0;
    let field = open_field();
    let (_, speed) = me.boid.calculate_forces(&vec![ahead, behind], &cfg, me.position, &field, true);
    assert_eq!(speed, Some(cfg.min_speed));
    let (_, speed) = me.boid.calculate_forces(&vec![behind, ahead, beside], &cfg, me.position, &field, true);
    assert_eq!(speed, Some(cfg.max_speed));
}

#[test]
fn heading_turns_toward_the_force() {
    // a sixty-fourth of a second at turning speed 10
    assert_eq!(
        turn_heading(Vec2::new(0, ONE), Vec2::new(ONE, 0), 1024, 10 * ONE),
        Vec2::new(10117, 64750)
    );
    assert_eq!(
        turn_heading(Vec2::new(0, ONE), Vec2::new(ONE, 0), ONE, ONE),
        Vec2::new(46340, 46340)
    );
}

#[test]
fn heading_stays_without_force_or_time() {
    let h = Vec2::new(39321, 52428);
    assert_eq!(turn_heading(h, Vec2::new(0, 0), ONE, 10 * ONE), h);
    assert_eq!(turn_heading(h, Vec2::new(ONE, 0), 0, 10 * ONE), h);
    assert_eq!(turn_heading(h, Vec2::new(ONE, 0), ONE, 0), h);
}

#[test]
fn heading_stays_where_the_force_cancels_it() {
    let h = Vec2::new(0, ONE);
    assert_eq!(turn_heading(h, Vec2::new(0, -ONE), ONE, ONE), h);
}

#[test]
fn scaling_rounds_toward_zero() {
    assert_eq!(scale_vec(Vec2::new(3, -3), ONE / 2), Vec2::new(1, -1));
    assert_eq!(scale_vec(Vec2::new(0, ONE), 500 * ONE), Vec2::new(0, 500 * ONE));
}

#[test]
fn velocity_follows_heading_and_speed() {
    let mut boid = Boid::default();
    assert_eq!(boid.velocity(), Vec2::new(0, 500 * ONE));
    boid.direction = Vec2::new(46340, 46340);
    assert_eq!(boid.velocity(), Vec2::new(23_170_000, 23_170_000));
    boid.direction = Vec2::new(0, 0);
    assert_eq!(boid.velocity(), Vec2::new(0, 500 * ONE));
}

#[test]
fn default_boid_and_configuration() {
    let cfg = BoidConfig::default();
    assert!(cfg.is_wf());
    assert_eq!(cfg.max_speed, 1000 * ONE);
    assert_eq!(cfg.min_speed, 500 * ONE);
    assert_eq!(cfg.boundary, 50 * ONE);
    assert_eq!(cfg.repulsion, 10 * ONE);
    assert_eq!(cfg.player_influence, 100 * ONE);
    assert_eq!(cfg.lprobe.mul_vec2(Vec2::new(0, ONE)), Vec2::new(-46341, 46341));
    assert_eq!(cfg.rprobe.mul_vec2(Vec2::new(0, ONE)), Vec2::new(46341, 46341));
    assert_eq!(cfg.lforce.mul_vec2(Vec2::new(0, ONE)), Vec2::new(-ONE, 0));
    assert_eq!(cfg.rforce.mul_vec2(Vec2::new(0, ONE)), Vec2::new(ONE, 0));
    let boid = Boid::default();
    assert_eq!(boid.vision, 400 * ONE);
    assert_eq!(boid.personal_space, 50 * ONE);
    assert_eq!(boid.direction, Vec2::new(0, ONE));
}

#[test]
fn configuration_with_disordered_speeds_is_not_well_formed() {
    let mut cfg = BoidConfig::default();
    cfg.min_speed = cfg.max_speed + 1;
    assert!(!cfg.is_wf());
    let mut cfg = BoidConfig::default();
    cfg.repulsion = -1;
    assert!(!cfg.is_wf());
}

#[test]
fn spawned_agents() {
    let cfg = BoidConfig::default();
    let player = spawn_player(Vec2::new(ONE, -ONE), &cfg);
    assert!(player.boid.is_player);
    assert_eq!(player.boid.vision, 800 * ONE);
    assert_eq!(player.boid.personal_space, 100 * ONE);
    assert_eq!(player.boid.speed, cfg.max_speed);
    assert_eq!(player.boid.turning_speed, cfg.min_turn_speed);
    let boid = spawn_boid(Vec2::new(5, 6), Vec2::new(ONE, 0), &cfg);
    assert!(!boid.boid.is_player);
    assert_eq!(boid.position, Vec2::new(5, 6));
    assert_eq!(boid.boid.direction, Vec2::new(ONE, 0));
    assert_eq!(boid.boid.vision, 400 * ONE);
    assert_eq!(boid.boid.personal_space, 20 * ONE);
    assert_eq!(boid.boid.speed, cfg.wild_speed);
    assert_eq!(boid.boid.turning_speed, cfg.wild_turn_speed);
    assert_eq!(boid.tame, TameState::Wild);
}
