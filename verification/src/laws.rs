//! What holds of the simulation whatever the population and the boundary.

use vstd::prelude::*;
use crate::fixed::{abs, isqrt, lemma_isqrt_is_floor, lemma_sqrt_floor_unique, max, with_sign, ONE};
use crate::vec2::{lemma_rescale_bounds, lemma_unit_of, rescale, unit_of, IntVec2, Vec2, NORM_TOP};
use crate::moveable::{DistanceField, MoveableBounds, DT_MAX, VELOCITY_MAX};
use crate::boid::components::{distance, falloff, lemma_ratio, lemma_scaled_within, Agent, Forces};
use crate::boid::config::BoidConfig;

verus! {

/// A vector along an axis is normalised exactly: its image has the
/// component `ONE` or `-ONE` along that axis and none along the other.
pub proof fn lemma_unit_of_axis(t: int)
    requires
        t != 0,
    ensures
        unit_of(0, t) == (IntVec2 { x: 0, y: with_sign(t, ONE as int) }),
        unit_of(t, 0) == (IntVec2 { x: with_sign(t, ONE as int), y: 0 }),
{
    let m = abs(t);
    lemma_rescale_bounds(m, m);
    lemma_rescale_bounds(0, m);
    let big = rescale(m, m);
    assert(rescale(0, m) == 0) by (nonlinear_arith)
        requires
            rescale(0, m) == if m <= NORM_TOP {
                0int * (NORM_TOP as int / m)
            } else {
                0int / (m / (NORM_TOP as int) + 1)
            },
            m > 0,
    ;
    assert(big * big + 0 * 0 == big * big && 0 * 0 + big * big == big * big) by (nonlinear_arith);
    assert((big + 1) * (big + 1) > big * big) by (nonlinear_arith)
        requires
            big > 0,
    ;
    lemma_sqrt_floor_unique(big * big, big);
    assert(big * ONE / big == ONE && 0 * ONE / big == 0) by (nonlinear_arith)
        requires
            big > 0,
    ;
}

/// Headings stay unit vectors. Whatever force an agent with a unit heading
/// turns toward, for however long, its heading is a unit vector afterwards:
/// its length is within two 65536ths of 1.
pub proof fn lemma_heading_stays_unit(a: Agent, force: IntVec2, request: Option<i64>, cfg: &BoidConfig, dt: int)
    requires
        a.boid.direction.is_unit(),
    ensures
        a.steered(force, request, cfg, dt).boid.direction.is_unit(),
{
    let turn = a.boid.turning_speed as int;
    let delta = force.times(dt * turn);
    let sum = a.boid.direction@.times(ONE as int * ONE as int).plus(delta);
    lemma_unit_of(sum.x, sum.y);
}

/// Speeds stay within the configured bounds. An agent other than the
/// player that moves at a speed within the bounds still does so after it
/// was tamed or released and after it steered, provided that the speed it
/// is asked to take, if any, is the least or the largest speed.
pub proof fn lemma_speed_stays_in_bounds(
    a: Agent,
    player: Agent,
    boost: bool,
    force: IntVec2,
    request: Option<i64>,
    cfg: &BoidConfig,
    dt: int,
)
    requires
        cfg.wf(),
        !a.boid.is_player,
        a.boid.speed_in_bounds(cfg),
        request matches Some(s) ==> s == cfg.min_speed || s == cfg.max_speed,
    ensures
        a.tamed(player, boost, cfg).boid.speed_in_bounds(cfg),
        a.boost_tracked(boost, cfg).boid.speed_in_bounds(cfg),
        a.steered(force, request, cfg, dt).boid.speed_in_bounds(cfg),
{
}

/// What one neighbour inside the larger personal space adds: a push away
/// from it, and neither cohesion nor alignment.
proof fn lemma_intruder_only_separates(me: Agent, other: Agent, cfg: &BoidConfig)
    requires
        me.wf(),
        other.wf(),
        0 < distance(me.position, other.position) < max(
            me.boid.personal_space as int,
            other.boid.personal_space as int,
        ),
    ensures
        me.boid.neighbor_forces(cfg, me.position, other).cohesion == IntVec2::zero(),
        me.boid.neighbor_forces(cfg, me.position, other).alignment == IntVec2::zero(),
        me.boid.neighbor_forces(cfg, me.position, other).separation != IntVec2::zero(),
{
    let diff = other.position@.minus(me.position@);
    let d = distance(me.position, other.position);
    let maxp = max(me.boid.personal_space as int, other.boid.personal_space as int);
    lemma_ratio(d, maxp);
    let w = falloff(d, maxp);
    assert(w >= 1);
    if diff.x == 0 && diff.y == 0 {
        assert(diff.len2() == 0);
        lemma_isqrt_is_floor(0);
        assert(false);
    }
    assert(diff.x * (-w) != 0 || diff.y * (-w) != 0) by (nonlinear_arith)
        requires
            w >= 1,
            diff.x != 0 || diff.y != 0,
    ;
}

/// What an agent that keeps some personal space adds to its own forces:
/// nothing.
proof fn lemma_self_adds_nothing(me: Agent, cfg: &BoidConfig)
    requires
        me.wf(),
        me.boid.personal_space > 0,
    ensures
        me.boid.neighbor_forces(cfg, me.position, me) == Forces::zero(),
{
    let diff = me.position@.minus(me.position@);
    assert(diff.len2() == 0);
    lemma_isqrt_is_floor(0);
    assert(isqrt(0) == 0);
    let w = falloff(0, me.boid.personal_space as int);
    assert(diff.times(-w) == IntVec2::zero()) by (nonlinear_arith)
        requires
            diff.x == 0,
            diff.y == 0,
            diff.times(-w) == (IntVec2 { x: diff.x * (-w), y: diff.y * (-w) }),
    ;
}

/// Separation dominates between two agents that intrude on each other.
/// Two agents, the first of which keeps some personal space, stand apart
/// by more than nothing and by less than the larger of their personal
/// spaces (by half of it, say), with nobody else around. Then, before any
/// weighting, the first agent's separation force has unit length while its
/// cohesion and alignment forces are zero, in whichever order the two are
/// listed.
pub proof fn lemma_separation_dominates(me: Agent, other: Agent, cfg: &BoidConfig)
    requires
        me.wf(),
        other.wf(),
        me.boid.personal_space > 0,
        0 < distance(me.position, other.position) < max(
            me.boid.personal_space as int,
            other.boid.personal_space as int,
        ),
    ensures
        ({
            let f = me.boid.flock_forces(cfg, me.position, seq![me, other], 2);
            let g = me.boid.flock_forces(cfg, me.position, seq![other, me], 2);
            &&& f == g
            &&& unit_of(f.separation.x, f.separation.y).is_unit()
            &&& unit_of(f.cohesion.x, f.cohesion.y) == IntVec2::zero()
            &&& unit_of(f.alignment.x, f.alignment.y) == IntVec2::zero()
            &&& unit_of(f.separation.x, f.separation.y).len2() > unit_of(f.cohesion.x, f.cohesion.y).len2()
            &&& unit_of(f.separation.x, f.separation.y).len2() > unit_of(f.alignment.x, f.alignment.y).len2()
        }),
{
    reveal_with_fuel(crate::boid::components::Boid::flock_forces, 3);
    lemma_intruder_only_separates(me, other, cfg);
    lemma_self_adds_nothing(me, cfg);
    let f = me.boid.flock_forces(cfg, me.position, seq![me, other], 2);
    let g = me.boid.flock_forces(cfg, me.position, seq![other, me], 2);
    let n = me.boid.neighbor_forces(cfg, me.position, other);
    assert(seq![me, other][0] == me && seq![me, other][1] == other);
    assert(seq![other, me][0] == other && seq![other, me][1] == me);
    assert(f == Forces::zero().plus(Forces::zero()).plus(n));
    assert(g == Forces::zero().plus(n).plus(Forces::zero()));
    assert(f.separation == n.separation && f.cohesion == n.cohesion && f.alignment == n.alignment);
    lemma_unit_of(f.separation.x, f.separation.y);
    lemma_unit_of(0, 0);
    let u = unit_of(f.separation.x, f.separation.y);
    assert(u.len2() > 0) by (nonlinear_arith)
        requires
            (ONE - 2) * (ONE - 2) <= u.len2(),
    ;
}

/// Taming and release. A wild agent within the player's vision is tamed
/// by one application of the taming rule and takes the tamed turning
/// speed: the sharp one while the player boosts, the gentle one while not.
/// Once it stands anywhere outside the player's vision, the next
/// application releases it, and it takes the wild speed and turning speed.
pub proof fn lemma_taming_round_trip(a: Agent, player: Agent, boost: bool, cfg: &BoidConfig, far: Vec2)
    requires
        !a.boid.is_player,
        a.tame is Wild,
        a.in_reach_of(player),
        !(Agent { position: far, ..a }).in_reach_of(player),
    ensures
        ({
            let tamed = a.tamed(player, boost, cfg);
            let released = (Agent { position: far, ..tamed }).tamed(player, boost, cfg);
            &&& tamed.tame is Tamed
            &&& tamed.boid.turning_speed == if boost {
                cfg.max_turn_speed
            } else {
                cfg.min_turn_speed
            }
            &&& released.tame is Wild
            &&& released.boid.turning_speed == cfg.wild_turn_speed
            &&& released.boid.speed == cfg.wild_speed
        }),
{
}

/// A blocked move is flagged, tick after tick. An agent whose displacement
/// is not zero and leads to a point that the boundary does not accept
/// stays where it is and is flagged as collided; as long as it keeps its
/// velocity, every further attempt ends the same way.
pub proof fn lemma_blocked_move_is_flagged<S: DistanceField>(a: Agent, bounds: &MoveableBounds<S>, dt: int)
    requires
        a.travel(dt) != (Vec2 { x: 0, y: 0 }),
        !bounds.accepts(
            Vec2 { x: (a.position.x + a.travel(dt).x) as i64, y: (a.position.y + a.travel(dt).y) as i64 },
        ),
    ensures
        a.moved(bounds, dt).position == a.position,
        a.moved(bounds, dt).collided,
        a.moved(bounds, dt).moved(bounds, dt).position == a.position,
        a.moved(bounds, dt).moved(bounds, dt).collided,
{
}

/// The flag lasts one tick only. An agent whose displacement leads to a
/// point that the boundary accepts stands there afterwards and is not
/// flagged, whether it was flagged before or not.
pub proof fn lemma_free_move_clears_flag<S: DistanceField>(a: Agent, bounds: &MoveableBounds<S>, dt: int)
    requires
        a.wf(),
        0 <= dt <= DT_MAX,
        bounds.accepts(
            Vec2 { x: (a.position.x + a.travel(dt).x) as i64, y: (a.position.y + a.travel(dt).y) as i64 },
        ),
    ensures
        a.moved(bounds, dt).position@ == a.position@.plus(a.travel(dt)@),
        !a.moved(bounds, dt).collided,
{
    lemma_scaled_within(a.moveable.velocity@, dt, VELOCITY_MAX as int, DT_MAX as int);
}

/// No input, no change. An agent that turns toward a zero force, or for
/// no time, keeps its heading exactly; an agent that moves for no time
/// keeps its position and is not flagged.
pub proof fn lemma_zero_input_changes_nothing<S: DistanceField>(
    a: Agent,
    force: IntVec2,
    request: Option<i64>,
    cfg: &BoidConfig,
    bounds: &MoveableBounds<S>,
    dt: int,
)
    ensures
        a.steered(IntVec2::zero(), request, cfg, dt).boid.direction == a.boid.direction,
        a.steered(force, request, cfg, 0).boid.direction == a.boid.direction,
        a.moved(bounds, 0).position == a.position,
        !a.moved(bounds, 0).collided,
{
    let turn = a.boid.turning_speed as int;
    assert(IntVec2::zero().times(dt * turn) == IntVec2::zero()) by (nonlinear_arith)
        requires
            IntVec2::zero().times(dt * turn) == (IntVec2 { x: 0 * (dt * turn), y: 0 * (dt * turn) }),
    ;
    assert(force.times(0 * turn) == IntVec2::zero()) by (nonlinear_arith)
        requires
            force.times(0 * turn) == (IntVec2 { x: force.x * (0 * turn), y: force.y * (0 * turn) }),
    ;
    let v = a.moveable.velocity@;
    assert(v.x * 0 == 0 && v.y * 0 == 0) by (nonlinear_arith);
    assert(a.travel(0) == (Vec2 { x: 0, y: 0 }));
}

} // verus!
