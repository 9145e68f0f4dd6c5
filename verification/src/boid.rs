//! Agents, their configuration and the systems that run over a population.

pub mod components;
pub mod config;

use vstd::prelude::*;
use crate::fixed::ONE;
use crate::moveable::{DistanceField, MoveableBounds, DT_MAX};
use crate::player::PlayerInfo;
use crate::vec2::{IntVec2, Vec2};
use crate::boid::components::{agents_wf, Agent, MAX_AGENTS};
use crate::boid::config::BoidConfig;

verus! {

/// `p` is the index of the one player of the population.
pub open spec fn is_sole_player(agents: Seq<Agent>, p: int) -> bool {
    &&& 0 <= p < agents.len()
    &&& agents[p].boid.is_player
    &&& forall|j: int| 0 <= j < agents.len() && j != p ==> !(#[trigger] agents[j]).boid.is_player
}

/// The population has exactly one player.
pub open spec fn has_sole_player(agents: Seq<Agent>) -> bool {
    exists|p: int| is_sole_player(agents, p)
}

/// The one player of a population that has exactly one.
pub open spec fn sole_player(agents: Seq<Agent>) -> Agent {
    agents[choose|p: int| is_sole_player(agents, p)]
}

/// The index of the player, if the population has exactly one.
pub fn find_player(agents: &Vec<Agent>) -> (found: Option<usize>)
    ensures
        match found {
            Some(p) => is_sole_player(agents@, p as int),
            None => !has_sole_player(agents@),
        },
{
    let mut first: Option<usize> = None;
    let mut second: Option<usize> = None;
    let mut i: usize = 0;
    while i < agents.len()
        invariant
            i <= agents.len(),
            first is None ==> second is None,
            first is None ==> forall|j: int| 0 <= j < i ==> !(#[trigger] agents@[j]).boid.is_player,
            first matches Some(p) ==> p < i && agents@[p as int].boid.is_player,
            first is Some && second is None ==> forall|j: int|
                0 <= j < i && j != first.unwrap() ==> !(#[trigger] agents@[j]).boid.is_player,
            second matches Some(q) ==> q < i && agents@[q as int].boid.is_player && first != Some(q),
        decreases agents.len() - i,
    {
        if agents[i].boid.is_player {
            if first.is_none() {
                first = Some(i);
            } else if second.is_none() {
                second = Some(i);
            }
        }
        i += 1;
    }
    match second {
        Some(q) => {
            assert forall|p: int| !is_sole_player(agents@, p) by {
                let a = first.unwrap() as int;
                if p == a {
                    assert(agents@[q as int].boid.is_player);
                } else {
                    assert(agents@[a].boid.is_player);
                }
            }
            None
        },
        None => {
            if first.is_none() {
                assert forall|p: int| !is_sole_player(agents@, p) by {
                    if 0 <= p < agents@.len() {
                        assert(!agents@[p].boid.is_player);
                    }
                }
            }
            first
        },
    }
}

/// The population after the taming rule: where there is exactly one
/// player, every agent is tamed or released by its distance to it; where
/// there is none, or more than one, nothing changes.
pub open spec fn population_tamed(agents: Seq<Agent>, boost: bool, cfg: &BoidConfig) -> Seq<Agent> {
    if has_sole_player(agents) {
        Seq::new(agents.len(), |i: int| agents[i].tamed(sole_player(agents), boost, cfg))
    } else {
        agents
    }
}

/// The index of the one player is the only index that satisfies
/// `is_sole_player`.
pub proof fn lemma_sole_player_unique(agents: Seq<Agent>, p: int)
    requires
        is_sole_player(agents, p),
    ensures
        has_sole_player(agents),
        sole_player(agents) == agents[p],
{
    let q = choose|q: int| is_sole_player(agents, q);
    if q != p {
        assert(!agents[q].boid.is_player);
    }
}

/// Tames the agents within the player's vision and releases those outside
/// it.
pub fn calc_tamed_boids(agents: &mut Vec<Agent>, player: &PlayerInfo, bconfig: &BoidConfig)
    requires
        agents_wf(old(agents)@),
        bconfig.wf(),
    ensures
        final(agents)@ == population_tamed(old(agents)@, player.in_boost_mode, bconfig),
        final(agents)@.len() == old(agents)@.len(),
        agents_wf(final(agents)@),
        speeds_in_bounds(old(agents)@, bconfig) ==> speeds_in_bounds(final(agents)@, bconfig),
{
    let Some(p) = find_player(agents) else {
        return ;
    };
    let leader = agents[p];
    proof {
        lemma_sole_player_unique(agents@, p as int);
    }
    let ghost before = agents@;
    let mut i: usize = 0;
    while i < agents.len()
        invariant
            i <= agents.len() == before.len(),
            bconfig.wf(),
            leader.wf(),
            agents_wf(before),
            forall|j: int| 0 <= j < i ==> #[trigger] agents@[j] == before[j].tamed(leader, player.in_boost_mode, bconfig),
            forall|j: int| i <= j < before.len() ==> #[trigger] agents@[j] == before[j],
            forall|j: int| 0 <= j < i ==> (#[trigger] agents@[j]).wf(),
        decreases agents.len() - i,
    {
        let a = agents[i];
        assert(before[i as int].wf());
        agents.set(i, a.apply_taming(&leader, player.in_boost_mode, bconfig));
        i += 1;
    }
    assert(agents@ =~= population_tamed(before, player.in_boost_mode, bconfig));
}

/// The population after the turning speed of every tamed agent followed
/// the player's mode.
pub open spec fn population_boost_tracked(agents: Seq<Agent>, boost: bool, cfg: &BoidConfig) -> Seq<Agent> {
    Seq::new(agents.len(), |i: int| agents[i].boost_tracked(boost, cfg))
}

/// Makes the turning speed of every tamed agent follow the player's mode.
pub fn update_tamed_boids(agents: &mut Vec<Agent>, player: &PlayerInfo, bconfig: &BoidConfig)
    requires
        agents_wf(old(agents)@),
        bconfig.wf(),
    ensures
        final(agents)@ == population_boost_tracked(old(agents)@, player.in_boost_mode, bconfig),
        final(agents)@.len() == old(agents)@.len(),
        agents_wf(final(agents)@),
        speeds_in_bounds(old(agents)@, bconfig) ==> speeds_in_bounds(final(agents)@, bconfig),
{
    let ghost before = agents@;
    let mut i: usize = 0;
    while i < agents.len()
        invariant
            i <= agents.len() == before.len(),
            bconfig.wf(),
            agents_wf(before),
            forall|j: int| 0 <= j < i ==> #[trigger] agents@[j] == before[j].boost_tracked(player.in_boost_mode, bconfig),
            forall|j: int| i <= j < before.len() ==> #[trigger] agents@[j] == before[j],
            forall|j: int| 0 <= j < i ==> (#[trigger] agents@[j]).wf(),
        decreases agents.len() - i,
    {
        let a = agents[i];
        assert(before[i as int].wf());
        agents.set(i, a.track_boost(player.in_boost_mode, bconfig));
        i += 1;
    }
    assert(agents@ =~= population_boost_tracked(before, player.in_boost_mode, bconfig));
}

/// The steering force of agent `i`, computed from the whole population as
/// it stands.
pub open spec fn force_on<S: DistanceField>(
    agents: Seq<Agent>,
    i: int,
    bounds: &MoveableBounds<S>,
    cfg: &BoidConfig,
) -> IntVec2 {
    agents[i].boid.steering(agents, cfg, agents[i].position, bounds, agents[i].tame is Tamed)
}

/// The speed that agent `i` asks for, computed from the whole population
/// as it stands.
pub open spec fn request_of(agents: Seq<Agent>, i: int, cfg: &BoidConfig) -> Option<i64> {
    agents[i].boid.requested_speed(agents, cfg, agents[i].position, agents[i].tame is Tamed)
}

/// The population after every agent turned toward its steering force. All
/// forces are computed from the population as it was before any agent
/// turned.
pub open spec fn population_steered<S: DistanceField>(
    agents: Seq<Agent>,
    bounds: &MoveableBounds<S>,
    cfg: &BoidConfig,
    dt: int,
) -> Seq<Agent> {
    Seq::new(
        agents.len(),
        |i: int| agents[i].steered(force_on(agents, i, bounds, cfg), request_of(agents, i, cfg), cfg, dt),
    )
}

/// Every agent that is not the player moves at a speed between the
/// configured bounds.
pub open spec fn speeds_in_bounds(agents: Seq<Agent>, cfg: &BoidConfig) -> bool {
    forall|i: int|
        0 <= i < agents.len() && !(#[trigger] agents[i]).boid.is_player ==> agents[i].boid.speed_in_bounds(cfg)
}

/// Computes the steering force of every agent from the population as it
/// stands, then turns every heading toward its force and sets the speeds.
pub fn calculate_boid_direction<S: DistanceField>(
    agents: &mut Vec<Agent>,
    bounds: &MoveableBounds<S>,
    bconfig: &BoidConfig,
    dt: i64,
)
    requires
        agents_wf(old(agents)@),
        old(agents)@.len() <= MAX_AGENTS,
        bounds.wf(),
        bconfig.wf(),
        0 <= dt <= DT_MAX,
    ensures
        final(agents)@ == population_steered(old(agents)@, bounds, bconfig, dt as int),
        final(agents)@.len() == old(agents)@.len(),
        agents_wf(final(agents)@),
        forall|i: int| 0 <= i < final(agents)@.len() ==> (#[trigger] final(agents)@[i]).boid.direction.is_unit(),
        speeds_in_bounds(old(agents)@, bconfig) ==> speeds_in_bounds(final(agents)@, bconfig),
{
    let ghost before = agents@;
    let mut changes: Vec<(Vec2, Option<i64>)> = Vec::new();
    let mut k: usize = 0;
    while k < agents.len()
        invariant
            k <= agents.len() <= MAX_AGENTS,
            agents@ == before,
            agents_wf(before),
            bounds.wf(),
            bconfig.wf(),
            changes@.len() == k,
            forall|j: int| 0 <= j < k ==> (#[trigger] changes@[j]).0@ == force_on(before, j, bounds, bconfig),
            forall|j: int| 0 <= j < k ==> (#[trigger] changes@[j]).1 == request_of(before, j, bconfig),
            forall|j: int| 0 <= j < k ==> (#[trigger] changes@[j]).0.within(ONE + 2),
            forall|j: int| 0 <= j < k ==> ((#[trigger] changes@[j]).1 matches Some(s) ==> s == bconfig.min_speed || s == bconfig.max_speed),
        decreases agents.len() - k,
    {
        let a = agents[k];
        assert(before[k as int].wf());
        let is_tamed = match a.tame {
            crate::boid::components::TameState::Tamed => true,
            crate::boid::components::TameState::Wild => false,
        };
        let change = a.boid.calculate_forces(agents, bconfig, a.position, bounds, is_tamed);
        proof {
            if change.0@ != IntVec2::zero() {
                crate::vec2::lemma_unit_within(change.0@);
            }
        }
        changes.push(change);
        k += 1;
    }
    let mut i: usize = 0;
    while i < agents.len()
        invariant
            i <= agents.len() == before.len(),
            changes@.len() == before.len(),
            bconfig.wf(),
            0 <= dt <= DT_MAX,
            agents_wf(before),
            forall|j: int| 0 <= j < before.len() ==> (#[trigger] changes@[j]).0@ == force_on(before, j, bounds, bconfig),
            forall|j: int| 0 <= j < before.len() ==> (#[trigger] changes@[j]).1 == request_of(before, j, bconfig),
            forall|j: int| 0 <= j < before.len() ==> (#[trigger] changes@[j]).0.within(ONE + 2),
            forall|j: int| 0 <= j < before.len() ==> ((#[trigger] changes@[j]).1 matches Some(s) ==> s == bconfig.min_speed || s == bconfig.max_speed),
            forall|j: int| 0 <= j < i ==> #[trigger] agents@[j] == before[j].steered(
                force_on(before, j, bounds, bconfig),
                request_of(before, j, bconfig),
                bconfig,
                dt as int,
            ),
            forall|j: int| i <= j < before.len() ==> #[trigger] agents@[j] == before[j],
            forall|j: int| 0 <= j < i ==> (#[trigger] agents@[j]).wf(),
            forall|j: int| 0 <= j < i && !before[j].boid.is_player && before[j].boid.speed_in_bounds(bconfig)
                ==> (#[trigger] agents@[j]).boid.speed_in_bounds(bconfig),
        decreases agents.len() - i,
    {
        let a = agents[i];
        let (force, request) = changes[i];
        assert(before[i as int].wf());
        assert(changes@[i as int].0.within(ONE + 2));
        agents.set(i, a.steer(force, request, bconfig, dt));
        i += 1;
    }
    assert(agents@ =~= population_steered(before, bounds, bconfig, dt as int));
}

/// The population after every agent took the velocity that its heading
/// and its speed give.
pub open spec fn population_with_velocity(agents: Seq<Agent>) -> Seq<Agent> {
    Seq::new(agents.len(), |i: int| agents[i].with_velocity())
}

/// Sets the velocity of every agent from its heading and its speed.
pub fn update_boid_velocity(agents: &mut Vec<Agent>)
    requires
        agents_wf(old(agents)@),
    ensures
        final(agents)@ == population_with_velocity(old(agents)@),
        final(agents)@.len() == old(agents)@.len(),
        agents_wf(final(agents)@),
{
    let ghost before = agents@;
    let mut i: usize = 0;
    while i < agents.len()
        invariant
            i <= agents.len() == before.len(),
            agents_wf(before),
            forall|j: int| 0 <= j < i ==> #[trigger] agents@[j] == before[j].with_velocity(),
            forall|j: int| i <= j < before.len() ==> #[trigger] agents@[j] == before[j],
            forall|j: int| 0 <= j < i ==> (#[trigger] agents@[j]).wf(),
        decreases agents.len() - i,
    {
        let mut a = agents[i];
        assert(before[i as int].wf());
        a.moveable.velocity = a.boid.velocity();
        agents.set(i, a);
        i += 1;
    }
    assert(agents@ =~= population_with_velocity(before));
}

/// The population without the agents that have collided, but for the
/// player; those that stay keep their order.
pub open spec fn population_without_collided(agents: Seq<Agent>) -> Seq<Agent> {
    agents.filter(|a: Agent| a.boid.is_player || !a.collided)
}

/// Removes every agent that has collided with the boundary, but for the
/// player; those that stay keep their order.
pub fn despawn_collided_boids(agents: &mut Vec<Agent>)
    ensures
        final(agents)@ == population_without_collided(old(agents)@),
        agents_wf(old(agents)@) ==> agents_wf(final(agents)@),
{
    let ghost keep = |a: Agent| a.boid.is_player || !a.collided;
    let ghost before = agents@;
    let mut kept: Vec<Agent> = Vec::new();
    let mut i: usize = 0;
    while i < agents.len()
        invariant
            i <= agents.len(),
            agents@ == before,
            keep == |a: Agent| a.boid.is_player || !a.collided,
            kept@ == before.subrange(0, i as int).filter(keep),
            forall|j: int| 0 <= j < kept@.len() ==> exists|k: int| 0 <= k < i && before[k] == #[trigger] kept@[j],
        decreases agents.len() - i,
    {
        let a = agents[i];
        proof {
            reveal_with_fuel(Seq::filter, 2);
            assert(before.subrange(0, i + 1).drop_last() =~= before.subrange(0, i as int));
        }
        if a.boid.is_player || !a.collided {
            kept.push(a);
        }
        i += 1;
    }
    assert(before.subrange(0, before.len() as int) =~= before);
    *agents = kept;
}

} // verus!
