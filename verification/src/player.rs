//! The player: its mode, its score and the agent that stands for it.

use vstd::prelude::*;
use crate::vec2::{lemma_unit_within, IntVec2, Vec2};
use crate::moveable::{in_world, Moveable, DT_MAX};
use crate::boid::{find_player, has_sole_player, is_sole_player};
use crate::boid::config::BoidConfig;
use crate::boid::components::{agents_wf, turn_heading, turned, Agent, Boid, BoidColor, TameState};

verus! {

/// What the game keeps of the player between ticks.
#[derive(Clone, Copy, Debug, PartialEq, Eq, Structural)]
pub struct PlayerInfo {
    pub score: u32,
    pub in_boost_mode: bool,
}

impl Default for PlayerInfo {
    fn default() -> (p: PlayerInfo)
        ensures
            p.score == 0,
            !p.in_boost_mode,
    {
        PlayerInfo { score: 0, in_boost_mode: false }
    }
}

/// The player's agent as it enters a level: at `spawn_point`, heading up,
/// at rest, seeing 800 units and keeping 100 units of room, at the largest
/// speed and the gentle turning speed.
pub fn spawn_player(spawn_point: Vec2, bconfig: &BoidConfig) -> (a: Agent)
    requires
        bconfig.wf(),
        in_world(spawn_point),
    ensures
        a.wf(),
        a.position == spawn_point,
        a.boid == (Boid {
            direction: Vec2 { x: 0, y: 65536 },
            vision: 52_428_800,
            personal_space: 6_553_600,
            is_player: true,
            speed: bconfig.max_speed,
            turning_speed: bconfig.min_turn_speed,
        }),
        a.moveable.velocity == (Vec2 { x: 0, y: 0 }),
        a.tame is Wild,
        !a.collided,
{
    Agent {
        position: spawn_point,
        boid: Boid {
            direction: Vec2::unit_y(),
            vision: 52_428_800,
            personal_space: 6_553_600,
            is_player: true,
            speed: bconfig.max_speed,
            turning_speed: bconfig.min_turn_speed,
        },
        moveable: Moveable { velocity: Vec2 { x: 0, y: 0 } },
        tame: TameState::Wild,
        collided: false,
        color: BoidColor::Wild,
    }
}

/// A wild agent as it enters a level: at `position`, heading along
/// `direction`, at rest, seeing 400 units and keeping 20 units of room, at
/// the wild speed and turning speed.
pub fn spawn_boid(position: Vec2, direction: Vec2, bconfig: &BoidConfig) -> (a: Agent)
    requires
        bconfig.wf(),
        in_world(position),
        direction.is_unit(),
    ensures
        a.wf(),
        a.position == position,
        a.boid == (Boid {
            direction,
            vision: 26_214_400,
            personal_space: 1_310_720,
            is_player: false,
            speed: bconfig.wild_speed,
            turning_speed: bconfig.wild_turn_speed,
        }),
        a.boid.speed_in_bounds(bconfig),
        a.moveable.velocity == (Vec2 { x: 0, y: 0 }),
        a.tame is Wild,
        !a.collided,
        a.color is Wild,
{
    Agent {
        position,
        boid: Boid {
            direction,
            vision: 26_214_400,
            personal_space: 1_310_720,
            is_player: false,
            speed: bconfig.wild_speed,
            turning_speed: bconfig.wild_turn_speed,
        },
        moveable: Moveable { velocity: Vec2 { x: 0, y: 0 } },
        tame: TameState::Wild,
        collided: false,
        color: BoidColor::Wild,
    }
}

/// Which way the player is asked to turn.
#[derive(Clone, Copy, Debug, PartialEq, Eq, Structural)]
pub enum TurnInput {
    Left,
    Right,
    Straight,
}

/// The force that turns a heading: the heading itself turned by a quarter
/// to the left or to the right, or nothing.
pub open spec fn turning_force(direction: Vec2, input: TurnInput) -> IntVec2 {
    match input {
        TurnInput::Left => IntVec2 { x: -direction.y, y: direction.x as int },
        TurnInput::Right => IntVec2 { x: direction.y as int, y: -direction.x },
        TurnInput::Straight => IntVec2::zero(),
    }
}

/// The agent after it turned as `input` asks, during `dt`.
pub open spec fn player_turned(a: Agent, input: TurnInput, dt: int) -> Agent {
    let direction = turned(a.boid.direction, turning_force(a.boid.direction, input), dt, a.boid.turning_speed as int);
    Agent { boid: Boid { direction: Vec2 { x: direction.x as i64, y: direction.y as i64 }, ..a.boid }, ..a }
}

/// Turns the player as `input` asks, during `dt`. Nothing changes where
/// the population does not hold exactly one player.
pub fn calc_player_direction(agents: &mut Vec<Agent>, input: TurnInput, dt: i64)
    requires
        agents_wf(old(agents)@),
        0 <= dt <= DT_MAX,
    ensures
        final(agents)@.len() == old(agents)@.len(),
        agents_wf(final(agents)@),
        !has_sole_player(old(agents)@) ==> final(agents)@ == old(agents)@,
        forall|p: int| is_sole_player(old(agents)@, p) ==> final(agents)@ == old(agents)@.update(
            p,
            player_turned(old(agents)@[p], input, dt as int),
        ),
{
    let Some(p) = find_player(agents) else {
        return ;
    };
    let ghost before = agents@;
    let mut a = agents[p];
    assert(before[p as int].wf());
    proof {
        lemma_unit_within(a.boid.direction@);
    }
    let d = a.boid.direction;
    let force = match input {
        TurnInput::Left => Vec2 { x: -d.y, y: d.x },
        TurnInput::Right => Vec2 { x: d.y, y: -d.x },
        TurnInput::Straight => Vec2 { x: 0, y: 0 },
    };
    a.boid.direction = turn_heading(d, force, dt, a.boid.turning_speed);
    agents.set(p, a);
    assert forall|q: int| is_sole_player(before, q) implies agents@ == before.update(
        q,
        player_turned(before[q], input, dt as int),
    ) by {
        if q != p {
            assert(before[p as int].boid.is_player);
        }
    }
}

/// The player's agent when the boost is switched on: at the least speed,
/// turning gently.
pub open spec fn boosted(a: Agent, cfg: &BoidConfig) -> Agent {
    Agent { boid: Boid { speed: cfg.min_speed, turning_speed: cfg.min_turn_speed, ..a.boid }, ..a }
}

/// The player's agent when the boost is switched off: at the largest
/// speed, turning sharply.
pub open spec fn unboosted(a: Agent, cfg: &BoidConfig) -> Agent {
    Agent { boid: Boid { speed: cfg.max_speed, turning_speed: cfg.max_turn_speed, ..a.boid }, ..a }
}

/// The player's agent after the boost key was pressed, released, or both
/// in that order.
pub open spec fn player_toggled(a: Agent, pressed: bool, released: bool, cfg: &BoidConfig) -> Agent {
    if released {
        unboosted(a, cfg)
    } else if pressed {
        boosted(a, cfg)
    } else {
        a
    }
}

/// Switches the player's mode when the boost key was pressed or released
/// since the last call; a release counts after a press. Nothing changes
/// where the population does not hold exactly one player.
pub fn toggle_player_mode(
    agents: &mut Vec<Agent>,
    player: &mut PlayerInfo,
    pressed: bool,
    released: bool,
    bconfig: &BoidConfig,
)
    requires
        agents_wf(old(agents)@),
        bconfig.wf(),
    ensures
        final(agents)@.len() == old(agents)@.len(),
        agents_wf(final(agents)@),
        !has_sole_player(old(agents)@) ==> final(agents)@ == old(agents)@ && *final(player) == *old(player),
        forall|p: int| is_sole_player(old(agents)@, p) ==> final(agents)@ == old(agents)@.update(
            p,
            player_toggled(old(agents)@[p], pressed, released, bconfig),
        ),
        has_sole_player(old(agents)@) ==> *final(player) == (PlayerInfo {
            in_boost_mode: if released {
                false
            } else if pressed {
                true
            } else {
                old(player).in_boost_mode
            },
            ..*old(player)
        }),
{
    let Some(p) = find_player(agents) else {
        return ;
    };
    let ghost before = agents@;
    let mut a = agents[p];
    assert(before[p as int].wf());
    if pressed {
        player.in_boost_mode = true;
        a.boid.speed = bconfig.min_speed;
        a.boid.turning_speed = bconfig.min_turn_speed;
    }
    if released {
        player.in_boost_mode = false;
        a.boid.speed = bconfig.max_speed;
        a.boid.turning_speed = bconfig.max_turn_speed;
    }
    agents.set(p, a);
    assert(has_sole_player(before));
    assert forall|q: int| is_sole_player(before, q) implies agents@ == before.update(
        q,
        player_toggled(before[q], pressed, released, bconfig),
    ) by {
        if q != p {
            assert(before[p as int].boid.is_player);
        }
    }
}

} // verus!
