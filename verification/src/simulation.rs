//! One tick of the simulation: taming, steering, then motion.

use vstd::prelude::*;
use crate::moveable::{move_moveables, population_moved, DistanceField, MoveableBounds, DT_MAX};
use crate::player::PlayerInfo;
use crate::boid::{
    calc_tamed_boids, calculate_boid_direction, population_boost_tracked, population_steered,
    population_tamed, population_with_velocity, speeds_in_bounds, update_boid_velocity,
    update_tamed_boids,
};
use crate::boid::components::{agents_wf, Agent, MAX_AGENTS};
use crate::boid::config::BoidConfig;

verus! {

/// The population after one tick. The agents are tamed or released, the
/// tamed ones follow the player's mode, every agent turns toward the force
/// that the population as it then stands puts on it, takes its velocity
/// from its heading and speed, and moves as far as the boundary lets it.
pub open spec fn population_after_tick<S: DistanceField>(
    agents: Seq<Agent>,
    boost: bool,
    bounds: &MoveableBounds<S>,
    cfg: &BoidConfig,
    dt: int,
) -> Seq<Agent> {
    population_moved(
        population_with_velocity(
            population_steered(
                population_boost_tracked(population_tamed(agents, boost, cfg), boost, cfg),
                bounds,
                cfg,
                dt,
            ),
        ),
        bounds,
        dt,
    )
}

/// Advances the population by one tick of length `dt`.
pub fn tick<S: DistanceField>(
    agents: &mut Vec<Agent>,
    player: &PlayerInfo,
    bounds: &MoveableBounds<S>,
    bconfig: &BoidConfig,
    dt: i64,
)
    requires
        agents_wf(old(agents)@),
        old(agents)@.len() <= MAX_AGENTS,
        bounds.wf(),
        bconfig.wf(),
        0 <= dt <= DT_MAX,
    ensures
        final(agents)@ == population_after_tick(old(agents)@, player.in_boost_mode, bounds, bconfig, dt as int),
        final(agents)@.len() == old(agents)@.len(),
        agents_wf(final(agents)@),
        forall|i: int| 0 <= i < final(agents)@.len() ==> (#[trigger] final(agents)@[i]).boid.direction.is_unit(),
        speeds_in_bounds(old(agents)@, bconfig) ==> speeds_in_bounds(final(agents)@, bconfig),
{
    calc_tamed_boids(agents, player, bconfig);
    update_tamed_boids(agents, player, bconfig);
    calculate_boid_direction(agents, bounds, bconfig, dt);
    update_boid_velocity(agents);
    move_moveables(agents, bounds, dt);
}

} // verus!
