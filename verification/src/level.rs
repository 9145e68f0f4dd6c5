//! Levels, their goals, and how a game moves from one level to the next.

use std::collections::HashMap;
use vstd::prelude::*;
use crate::vec2::Vec2;
use crate::moveable::{DistanceField, MoveableBounds};
use crate::boid::{find_player, has_sole_player};
use crate::boid::components::Agent;
use crate::player::PlayerInfo;
use crate::state::{GameOverReason, SimulationState};

verus! {

/// The name of a level.
#[derive(Clone, Copy, Debug, PartialEq, Eq, Hash, Structural)]
pub struct LevelId(pub u8);

impl From<u8> for LevelId {
    fn from(value: u8) -> (id: LevelId) {
        LevelId(value)
    }
}

impl vstd::std_specs::convert::FromSpecImpl<u8> for LevelId {
    open spec fn obeys_from_spec() -> bool {
        true
    }

    open spec fn from_spec(value: u8) -> LevelId {
        LevelId(value)
    }
}

/// What a level asks for and what it starts from. Times are in
/// microseconds.
pub struct LevelInfo {
    pub name: String,
    pub starting_point: Vec2,
    pub next_level: Option<LevelId>,
    pub spawn_points: Vec<Vec2>,
    pub boids_per_spawn_point: i32,
    pub rescue_goal: Option<u16>,
    pub time_goal: Option<u64>,
    pub wander: bool,
}

/// The levels of a game and the one it starts with.
pub struct LevelRegistry {
    pub levels: HashMap<u8, LevelInfo>,
    pub start_level: Option<LevelId>,
}

impl LevelRegistry {
    /// Whether the registry holds the level `id`.
    pub open spec fn has(&self, id: LevelId) -> bool {
        self.levels@.contains_key(id.0)
    }

    /// The level `id` as the registry holds it.
    pub open spec fn level(&self, id: LevelId) -> LevelInfo {
        self.levels@[id.0]
    }

    /// A registry without levels.
    pub fn new() -> (reg: LevelRegistry)
        ensures
            reg.levels@ == Map::<u8, LevelInfo>::empty(),
            reg.start_level is None,
    {
        LevelRegistry { levels: HashMap::new(), start_level: None }
    }

    /// Adds the level `id`, in place of any that was held under that name.
    pub fn register(&mut self, id: LevelId, info: LevelInfo)
        ensures
            final(self).levels@ == old(self).levels@.insert(id.0, info),
            final(self).start_level == old(self).start_level,
    {
        broadcast use vstd::std_specs::hash::group_hash_axioms;

        self.levels.insert(id.0, info);
    }

    /// The level `id`, which the registry must hold.
    pub fn get_level(&self, id: &LevelId) -> (info: &LevelInfo)
        requires
            self.has(*id),
        ensures
            *info == self.level(*id),
    {
        broadcast use vstd::std_specs::hash::group_hash_axioms;

        let found = self.levels.get(&id.0);
        found.unwrap()
    }
}

/// Which level is being played, whether it was won, which one is to be
/// loaded, and for how long the current one has been played.
#[derive(Clone, Copy, Debug, PartialEq, Eq, Structural)]
pub struct LevelManager {
    pub current_level: Option<LevelId>,
    pub level_complete: bool,
    pub load_next: Option<LevelId>,
    pub elapsed: u64,
}

impl Default for LevelManager {
    fn default() -> (m: LevelManager)
        ensures
            m == (LevelManager { current_level: None, level_complete: false, load_next: None, elapsed: 0 }),
    {
        LevelManager { current_level: None, level_complete: false, load_next: None, elapsed: 0 }
    }
}

impl LevelManager {
    /// Asks for the level `level_id` to be loaded.
    pub fn load_level(&mut self, level_id: &LevelId)
        ensures
            *final(self) == (LevelManager { load_next: Some(*level_id), ..*old(self) }),
    {
        self.load_next = Some(*level_id);
    }

    /// Records that the level asked for was loaded: it is the current one,
    /// not yet won, its clock at zero, and nothing is left to load.
    /// Nothing changes where no level was asked for.
    pub fn level_loaded(&mut self)
        ensures
            old(self).load_next is None ==> *final(self) == *old(self),
            old(self).load_next is Some ==> *final(self) == (LevelManager {
                current_level: old(self).load_next,
                level_complete: false,
                load_next: None,
                elapsed: 0,
            }),
    {
        if self.load_next.is_some() {
            self.current_level = self.load_next;
            self.level_complete = false;
            self.load_next = None;
            self.elapsed = 0;
        }
    }
}

/// The level to load next: the current one again if it was not won, the
/// one after it if it was, the first one if none was played yet; none
/// where the last level was won.
pub open spec fn level_to_load(mgr: LevelManager, reg: &LevelRegistry) -> Option<LevelId> {
    match mgr.current_level {
        Some(cur) => if !mgr.level_complete {
            Some(cur)
        } else {
            reg.level(cur).next_level
        },
        None => reg.start_level,
    }
}

/// Chooses the level to load next and asks for it. Where the last level
/// was won there is none, and the game is complete.
pub fn find_level_to_load(lvl_mgr: &mut LevelManager, lvl_reg: &LevelRegistry) -> (next: Option<
    SimulationState,
>)
    requires
        old(lvl_mgr).current_level matches Some(cur) ==> old(lvl_mgr).level_complete ==> lvl_reg.has(cur),
        old(lvl_mgr).current_level is None ==> lvl_reg.start_level is Some,
    ensures
        match level_to_load(*old(lvl_mgr), lvl_reg) {
            Some(id) => next is None && *final(lvl_mgr) == (LevelManager {
                load_next: Some(id),
                ..*old(lvl_mgr)
            }),
            None => next == Some(SimulationState::GameComplete) && *final(lvl_mgr) == *old(lvl_mgr),
        },
{
    match lvl_mgr.current_level {
        Some(cur_lvl) => {
            if !lvl_mgr.level_complete {
                lvl_mgr.load_level(&cur_lvl);
                None
            } else {
                let cur = lvl_reg.get_level(&cur_lvl);
                match cur.next_level {
                    Some(next) => {
                        lvl_mgr.load_level(&next);
                        None
                    },
                    None => Some(SimulationState::GameComplete),
                }
            }
        },
        None => {
            let start = lvl_reg.start_level.unwrap();
            lvl_mgr.load_level(&start);
            None
        },
    }
}

/// `a + b`, or the largest time where the sum is beyond it.
pub open spec fn time_added(a: u64, b: u64) -> u64 {
    if a + b > u64::MAX {
        u64::MAX
    } else {
        (a + b) as u64
    }
}

/// Lets `delta` microseconds pass on the clock of the current level. The
/// game is lost for want of time once the clock is past the level's time
/// goal. Nothing happens where no level is being played.
pub fn time_level(lvl_mgr: &mut LevelManager, lvl_reg: &LevelRegistry, delta: u64) -> (next: Option<
    SimulationState,
>)
    requires
        old(lvl_mgr).current_level matches Some(cur) ==> lvl_reg.has(cur),
    ensures
        old(lvl_mgr).current_level is None ==> next is None && *final(lvl_mgr) == *old(lvl_mgr),
        old(lvl_mgr).current_level matches Some(cur) ==> {
            &&& *final(lvl_mgr) == (LevelManager {
                elapsed: time_added(old(lvl_mgr).elapsed, delta),
                ..*old(lvl_mgr)
            })
            &&& next == match lvl_reg.level(cur).time_goal {
                Some(goal) if final(lvl_mgr).elapsed > goal => Some(
                    SimulationState::GameOver(GameOverReason::OutOfTime),
                ),
                _ => None,
            }
        },
{
    let Some(level_id) = lvl_mgr.current_level else {
        return None;
    };
    let lvl = lvl_reg.get_level(&level_id);
    lvl_mgr.elapsed = if lvl_mgr.elapsed > u64::MAX - delta {
        u64::MAX
    } else {
        lvl_mgr.elapsed + delta
    };
    match lvl.time_goal {
        Some(time_goal) => {
            if lvl_mgr.elapsed > time_goal {
                Some(SimulationState::GameOver(GameOverReason::OutOfTime))
            } else {
                None
            }
        },
        None => None,
    }
}

/// How many of the first `n` agents are tamed and not the player.
pub open spec fn tamed_count(agents: Seq<Agent>, n: int) -> nat
    decreases n,
{
    if n <= 0 {
        0
    } else {
        tamed_count(agents, n - 1) + if agents[n - 1].tame is Tamed && !agents[n - 1].boid.is_player {
            1nat
        } else {
            0nat
        }
    }
}

/// How many agents are tamed and not the player.
pub fn count_tamed(agents: &Vec<Agent>) -> (count: usize)
    ensures
        count == tamed_count(agents@, agents@.len() as int),
{
    let mut count: usize = 0;
    let mut i: usize = 0;
    while i < agents.len()
        invariant
            i <= agents.len(),
            count == tamed_count(agents@, i as int),
            count <= i,
        decreases agents.len() - i,
    {
        let tamed = match agents[i].tame {
            crate::boid::components::TameState::Tamed => true,
            crate::boid::components::TameState::Wild => false,
        };
        if tamed && !agents[i].boid.is_player {
            count += 1;
        }
        i += 1;
    }
    count
}

/// `score` raised by `gain`, or the largest score where the sum is beyond
/// it.
pub open spec fn score_added(score: u32, gain: nat) -> u32 {
    if score + gain > u32::MAX {
        u32::MAX
    } else {
        (score + gain) as u32
    }
}

/// Whether the one player of `agents` stands inside the finish area: the
/// finish field is negative at its position.
pub open spec fn player_at_finish<S: DistanceField>(agents: Seq<Agent>, finish: &MoveableBounds<S>) -> bool {
    has_sole_player(agents) && finish.distance_at(crate::boid::sole_player(agents).position) < 0
}

/// Judges the level once the player stands inside the finish area. With
/// fewer tamed agents than the level's rescue goal the game is lost for
/// want of agents. Otherwise the level is won: it is marked complete and
/// the tamed agents are added to the score. Nothing happens while the
/// player is elsewhere, or where there is not exactly one player.
pub fn check_if_level_complete<S: DistanceField>(
    agents: &Vec<Agent>,
    finish: &MoveableBounds<S>,
    lvl_mgr: &mut LevelManager,
    lvl_reg: &LevelRegistry,
    player: &mut PlayerInfo,
) -> (next: Option<SimulationState>)
    requires
        finish.wf(),
        old(lvl_mgr).current_level matches Some(cur) && lvl_reg.has(cur),
    ensures
        ({
            let rescued = tamed_count(agents@, agents@.len() as int);
            let goal = lvl_reg.level(old(lvl_mgr).current_level.unwrap()).rescue_goal;
            if !player_at_finish(agents@, finish) {
                next is None && *final(lvl_mgr) == *old(lvl_mgr) && *final(player) == *old(player)
            } else if goal is Some && rescued < goal.unwrap() {
                &&& next == Some(SimulationState::GameOver(GameOverReason::OutOfBoids))
                &&& *final(lvl_mgr) == *old(lvl_mgr)
                &&& *final(player) == *old(player)
            } else {
                &&& next == Some(SimulationState::LevelComplete)
                &&& *final(lvl_mgr) == (LevelManager { level_complete: true, ..*old(lvl_mgr) })
                &&& *final(player) == (PlayerInfo { score: score_added(old(player).score, rescued), ..*old(player) })
            }
        }),
{
    let Some(p) = find_player(agents) else {
        return None;
    };
    proof {
        crate::boid::lemma_sole_player_unique(agents@, p as int);
    }
    let level_id = lvl_mgr.current_level.unwrap();
    let lvl = lvl_reg.get_level(&level_id);
    if finish.distance_to_edge(agents[p].position) < 0 {
        let score = count_tamed(agents);
        match lvl.rescue_goal {
            Some(rescue_goal) => {
                if score < rescue_goal as usize {
                    return Some(SimulationState::GameOver(GameOverReason::OutOfBoids));
                }
            },
            None => {},
        }
        lvl_mgr.level_complete = true;
        player.score = if score > (u32::MAX - player.score) as usize {
            u32::MAX
        } else {
            player.score + score as u32
        };
        Some(SimulationState::LevelComplete)
    } else {
        None
    }
}

/// Whether some player among the agents has collided with the boundary.
pub open spec fn player_collided(agents: Seq<Agent>) -> bool {
    exists|i: int| 0 <= i < agents.len() && (#[trigger] agents[i]).boid.is_player && agents[i].collided
}

/// The game is lost for leaving the bounds once a player has collided with
/// the boundary.
pub fn check_if_game_over(agents: &Vec<Agent>) -> (next: Option<SimulationState>)
    ensures
        next == if player_collided(agents@) {
            Some(SimulationState::GameOver(GameOverReason::OutOfBounds))
        } else {
            None
        },
{
    let mut i: usize = 0;
    while i < agents.len()
        invariant
            i <= agents.len(),
            forall|j: int| 0 <= j < i ==> !((#[trigger] agents@[j]).boid.is_player && agents@[j].collided),
        decreases agents.len() - i,
    {
        if agents[i].boid.is_player && agents[i].collided {
            return Some(SimulationState::GameOver(GameOverReason::OutOfBounds));
        }
        i += 1;
    }
    None
}

} // verus!
