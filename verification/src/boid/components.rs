//! An agent and the steering force that it computes for itself.

use vstd::prelude::*;
use vstd::arithmetic::div_mod::lemma_fundamental_div_mod;
use crate::fixed::{isqrt, isqrt_u128, lemma_mul_bound, max, ONE};
use crate::vec2::{lemma_unit_of, lemma_unit_within, normalize_wide, unit_of, IntVec2, Mat2, Vec2, Wide2};
use crate::moveable::{in_world, point_in_world, DistanceField, Moveable, MoveableBounds};
use crate::boid::config::{BoidConfig, SPEED_MAX, TURN_MAX};

verus! {

/// The largest vision or personal-space radius: 2^32, that is 65536 world
/// units.
pub const RADIUS_MAX: i64 = 0x1_0000_0000;

/// The largest population that one scan sums over: 2^24 agents.
pub const MAX_AGENTS: usize = 0x100_0000;

/// Whether an agent follows the player.
#[derive(Clone, Copy, Debug, PartialEq, Eq, Structural)]
pub enum TameState {
    Wild,
    Tamed,
}

/// How an agent is shown.
#[derive(Clone, Copy, Debug, PartialEq, Eq, Structural)]
pub enum BoidColor {
    Wild,
    Tamed,
    TamedBoosted,
}

/// What an agent knows of itself: where it heads, how far it sees, how
/// much room it keeps, and how fast it moves and turns.
#[derive(Clone, Copy, Debug, PartialEq, Eq, Structural)]
pub struct Boid {
    pub direction: Vec2,
    pub vision: i64,
    pub personal_space: i64,
    pub is_player: bool,
    pub speed: i64,
    pub turning_speed: i64,
}

/// One member of the population.
#[derive(Clone, Copy, Debug, PartialEq, Eq, Structural)]
pub struct Agent {
    pub position: Vec2,
    pub boid: Boid,
    pub moveable: Moveable,
    pub tame: TameState,
    pub collided: bool,
    pub color: BoidColor,
}

/// Which way the boundary pushes an agent.
#[derive(Clone, Copy, Debug, PartialEq, Eq, Structural)]
pub enum Avoidance {
    /// The left probe is in a wall, and deeper than the right one.
    SteerRight,
    /// The right probe is in a wall.
    SteerLeft,
    /// Only the forward probe is in a wall.
    AlongNormal,
    /// No probe is in a wall.
    Clear,
}

/// The avoidance that three probe distances call for: the deeper of two
/// blocked sides is steered away from, the sides go before the front.
pub open spec fn avoidance_of(forward: int, left: int, right: int) -> Avoidance {
    if left < 0 && left < right {
        Avoidance::SteerRight
    } else if right < 0 {
        Avoidance::SteerLeft
    } else if forward < 0 {
        Avoidance::AlongNormal
    } else {
        Avoidance::Clear
    }
}

/// The avoidance that three probe distances call for.
pub fn avoidance_for(forward: i64, left: i64, right: i64) -> (a: Avoidance)
    ensures
        a == avoidance_of(forward as int, left as int, right as int),
{
    if left < 0 && left < right {
        Avoidance::SteerRight
    } else if right < 0 {
        Avoidance::SteerLeft
    } else if forward < 0 {
        Avoidance::AlongNormal
    } else {
        Avoidance::Clear
    }
}

/// `pos` displaced by `v`.
pub open spec fn displaced(pos: Vec2, v: IntVec2) -> Vec2 {
    Vec2 { x: (pos.x + v.x) as i64, y: (pos.y + v.y) as i64 }
}

/// `v * s`, brought back to scale by a division that rounds toward zero.
pub open spec fn scaled(v: IntVec2, s: int) -> IntVec2 {
    v.times(s).descaled()
}

/// `v * s`, brought back to scale.
pub fn scale_vec(v: Vec2, s: i64) -> (r: Vec2)
    requires
        -0x4000_0000_0000_0000 <= v.x * s <= 0x4000_0000_0000_0000,
        -0x4000_0000_0000_0000 <= v.y * s <= 0x4000_0000_0000_0000,
    ensures
        r@ == scaled(v@, s as int),
{
    assert(v.x * s == v.x as i128 * s as i128 && v.y * s == v.y as i128 * s as i128) by (nonlinear_arith)
        requires
            -0x4000_0000_0000_0000 <= v.x * s <= 0x4000_0000_0000_0000,
            -0x4000_0000_0000_0000 <= v.y * s <= 0x4000_0000_0000_0000,
    ;
    let one: i128 = 65536;
    Vec2 { x: ((v.x as i128 * s as i128) / one) as i64, y: ((v.y as i128 * s as i128) / one) as i64 }
}

/// A vector scaled by a scalar is bounded by the product of their bounds,
/// brought back to scale.
pub proof fn lemma_scaled_within(v: IntVec2, s: int, bv: int, bs: int)
    requires
        -bv <= v.x <= bv,
        -bv <= v.y <= bv,
        -bs <= s <= bs,
    ensures
        -(bv * bs) <= v.x * s <= bv * bs,
        -(bv * bs) <= v.y * s <= bv * bs,
        -(bv * bs / (ONE as int)) <= scaled(v, s).x <= bv * bs / (ONE as int),
        -(bv * bs / (ONE as int)) <= scaled(v, s).y <= bv * bs / (ONE as int),
{
    lemma_mul_bound(v.x, s, bv, bs);
    lemma_mul_bound(v.y, s, bv, bs);
}

impl Default for Boid {
    /// Heading up, seeing 400 units, keeping 50 units of room, moving at
    /// 500 units per second and turning at 10.
    fn default() -> (b: Boid)
        ensures
            b.direction == (Vec2 { x: 0, y: 65536 }),
            b.vision == 400 * 65536,
            b.personal_space == 50 * 65536,
            !b.is_player,
            b.speed == 500 * 65536,
            b.turning_speed == 10 * 65536,
            b.wf(),
    {
        Boid {
            direction: Vec2::unit_y(),
            vision: 26_214_400,
            personal_space: 3_276_800,
            is_player: false,
            speed: 32_768_000,
            turning_speed: 655_360,
        }
    }
}

impl Boid {
    /// The heading is a unit vector, the personal space is no wider than
    /// the vision, and radii, speed and turning speed are in range.
    pub open spec fn wf(&self) -> bool {
        &&& self.direction.is_unit()
        &&& 0 <= self.personal_space <= self.vision
        &&& 0 < self.vision <= RADIUS_MAX
        &&& 0 <= self.speed <= SPEED_MAX
        &&& 0 <= self.turning_speed <= TURN_MAX
    }

    /// Whether the boid is well formed.
    pub fn is_wf(&self) -> (ok: bool)
        ensures
            ok == self.wf(),
    {
        self.direction.has_unit_length() && 0 <= self.personal_space && self.personal_space
            <= self.vision && 0 < self.vision && self.vision <= RADIUS_MAX && 0 <= self.speed
            && self.speed <= SPEED_MAX && 0 <= self.turning_speed && self.turning_speed <= TURN_MAX
    }

    /// The speed lies between the configured bounds.
    pub open spec fn speed_in_bounds(&self, cfg: &BoidConfig) -> bool {
        cfg.min_speed <= self.speed <= cfg.max_speed
    }

    /// The probe straight ahead of `pos`, one vision radius away.
    pub open spec fn forward_probe(&self, pos: Vec2) -> Vec2 {
        displaced(pos, scaled(self.direction@, self.vision as int))
    }

    /// The probe ahead of `pos` turned by `m`.
    pub open spec fn side_probe(&self, m: Mat2, pos: Vec2) -> Vec2 {
        displaced(pos, m.apply(scaled(self.direction@, self.vision as int)))
    }

    /// The force that keeps the agent off the boundary, before it is
    /// normalised: the heading turned right or left, the boundary's normal
    /// at the forward probe, or nothing.
    pub open spec fn bounds_force<S: DistanceField>(
        &self,
        cfg: &BoidConfig,
        pos: Vec2,
        bounds: &MoveableBounds<S>,
    ) -> IntVec2 {
        let forward = self.forward_probe(pos);
        match avoidance_of(
            bounds.distance_at(forward),
            bounds.distance_at(self.side_probe(cfg.lprobe, pos)),
            bounds.distance_at(self.side_probe(cfg.rprobe, pos)),
        ) {
            Avoidance::SteerRight => cfg.rforce.apply(self.direction@),
            Avoidance::SteerLeft => cfg.lforce.apply(self.direction@),
            Avoidance::AlongNormal => bounds.normal_at(forward),
            Avoidance::Clear => IntVec2::zero(),
        }
    }

    /// The force that keeps the agent off the boundary, before it is
    /// normalised.
    pub fn calculate_bounds_force<S: DistanceField>(
        &self,
        bconfig: &BoidConfig,
        position: Vec2,
        bounds: &MoveableBounds<S>,
    ) -> (force: Vec2)
        requires
            self.wf(),
            bconfig.wf(),
            bounds.wf(),
            in_world(position),
        ensures
            force@ == self.bounds_force(bconfig, position, bounds),
    {
        proof {
            lemma_unit_within(self.direction@);
            lemma_scaled_within(self.direction@, self.vision as int, ONE + 2, 0x1_0000_0000);
        }
        let v = scale_vec(self.direction, self.vision);
        let tx2 = Vec2 { x: position.x + v.x, y: position.y + v.y };
        let l = bconfig.lprobe.mul_vec2(v);
        let r = bconfig.rprobe.mul_vec2(v);
        let rayl = Vec2 { x: position.x + l.x, y: position.y + l.y };
        let rayr = Vec2 { x: position.x + r.x, y: position.y + r.y };
        let colf = bounds.distance_to_edge(tx2);
        let coll = bounds.distance_to_edge(rayl);
        let colr = bounds.distance_to_edge(rayr);
        match avoidance_for(colf, coll, colr) {
            Avoidance::SteerRight => bconfig.rforce.mul_vec2(self.direction),
            Avoidance::SteerLeft => bconfig.lforce.mul_vec2(self.direction),
            Avoidance::AlongNormal => bounds.edge_normal(tx2),
            Avoidance::Clear => Vec2 { x: 0, y: 0 },
        }
    }
}

impl Agent {
    /// The agent stands in the world, its parts are well formed, and the
    /// player is never tamed.
    pub open spec fn wf(&self) -> bool {
        &&& in_world(self.position)
        &&& self.boid.wf()
        &&& self.moveable.wf()
        &&& self.boid.is_player ==> self.tame is Wild
    }
}

impl Agent {
    /// Whether the agent is well formed.
    pub fn is_wf(&self) -> (ok: bool)
        ensures
            ok == self.wf(),
    {
        let wild = match self.tame {
            TameState::Wild => true,
            TameState::Tamed => false,
        };
        point_in_world(self.position) && self.boid.is_wf() && self.moveable.is_wf() && (
        !self.boid.is_player || wild)
    }
}

/// Every agent of the population is well formed.
pub open spec fn agents_wf(agents: Seq<Agent>) -> bool {
    forall|i: int| 0 <= i < agents.len() ==> (#[trigger] agents[i]).wf()
}

/// Whether every agent of the population is well formed.
pub fn agents_are_wf(agents: &Vec<Agent>) -> (ok: bool)
    ensures
        ok == agents_wf(agents@),
{
    let mut i: usize = 0;
    while i < agents.len()
        invariant
            i <= agents.len(),
            forall|j: int| 0 <= j < i ==> (#[trigger] agents@[j]).wf(),
        decreases agents.len() - i,
    {
        if !agents[i].is_wf() {
            return false;
        }
        i += 1;
    }
    true
}

/// The largest magnitude of a component of one neighbour's contribution
/// to a force: 2^100.
pub const TERM_MAX: i128 = 0x10_0000_0000_0000_0000_0000_0000;

/// The three flocking forces before they are normalised, as mathematical
/// vectors.
pub struct Forces {
    pub separation: IntVec2,
    pub cohesion: IntVec2,
    pub alignment: IntVec2,
}

impl Forces {
    /// No force at all.
    pub open spec fn zero() -> Forces {
        Forces { separation: IntVec2::zero(), cohesion: IntVec2::zero(), alignment: IntVec2::zero() }
    }

    /// The sum, force by force.
    pub open spec fn plus(self, o: Forces) -> Forces {
        Forces {
            separation: self.separation.plus(o.separation),
            cohesion: self.cohesion.plus(o.cohesion),
            alignment: self.alignment.plus(o.alignment),
        }
    }
}

/// The three flocking forces before they are normalised.
#[derive(Clone, Copy, Debug, PartialEq, Eq, Structural)]
pub struct FlockForces {
    pub separation: Wide2,
    pub cohesion: Wide2,
    pub alignment: Wide2,
}

impl View for FlockForces {
    type V = Forces;

    open spec fn view(&self) -> Forces {
        Forces { separation: self.separation@, cohesion: self.cohesion@, alignment: self.alignment@ }
    }
}

impl FlockForces {
    /// Every component of every force has magnitude at most `bound`.
    pub open spec fn within(self, bound: int) -> bool {
        self.separation.within(bound) && self.cohesion.within(bound) && self.alignment.within(bound)
    }
}

/// The distance from `pos` to `other`, rounded down.
pub open spec fn distance(pos: Vec2, other: Vec2) -> int {
    isqrt(other@.minus(pos@).len2())
}

/// How much a neighbour counts: the player by the configured influence,
/// anyone else once.
pub open spec fn influence(cfg: &BoidConfig, other: Agent) -> int {
    if other.boid.is_player {
        cfg.player_influence as int
    } else {
        ONE as int
    }
}

/// `1 - d / radius`: 1 at no distance, falling linearly to 0 at `radius`.
pub open spec fn falloff(d: int, radius: int) -> int {
    ONE - d * ONE / radius
}

/// A quotient of a distance by a radius lies between 0 and the distance,
/// and below 1 where the distance is below the radius.
pub proof fn lemma_ratio(d: int, radius: int)
    requires
        0 <= d,
        0 < radius,
    ensures
        0 <= d * ONE / radius <= d * ONE,
        d < radius ==> d * ONE / radius < ONE,
{
    let n = d * ONE;
    lemma_fundamental_div_mod(n, radius);
    let q = n / radius;
    assert(0 <= q <= n && (d < radius ==> q < ONE)) by (nonlinear_arith)
        requires
            n == radius * q + n % radius,
            0 <= n % radius < radius,
            n == d * 65536,
            0 <= d,
            0 < radius,
            ONE == 65536,
    ;
}

impl Boid {
    /// What one neighbour adds to the three forces of an agent at `pos`.
    /// Closer than the larger personal space, it pushes the agent away,
    /// the harder the closer. Farther than that but closer than the larger
    /// vision, it draws the agent toward itself and toward its heading:
    /// the player at full weight times its influence, anyone else the less
    /// the farther. Beyond both it adds nothing.
    pub open spec fn neighbor_forces(&self, cfg: &BoidConfig, pos: Vec2, other: Agent) -> Forces {
        let diff = other.position@.minus(pos@);
        let d = distance(pos, other.position);
        let maxp = max(self.personal_space as int, other.boid.personal_space as int);
        let maxv = max(self.vision as int, other.boid.vision as int);
        if d < maxp {
            Forces {
                separation: diff.times(-falloff(d, maxp)),
                cohesion: IntVec2::zero(),
                alignment: IntVec2::zero(),
            }
        } else if d < maxv {
            let weight = if other.boid.is_player {
                ONE as int
            } else {
                falloff(d, self.vision as int)
            };
            Forces {
                separation: IntVec2::zero(),
                cohesion: diff.times(influence(cfg, other)),
                alignment: other.boid.direction@.times(weight * influence(cfg, other)),
            }
        } else {
            Forces::zero()
        }
    }

    /// The three forces summed over the first `n` agents.
    pub open spec fn flock_forces(&self, cfg: &BoidConfig, pos: Vec2, agents: Seq<Agent>, n: int) -> Forces
        decreases n,
    {
        if n <= 0 {
            Forces::zero()
        } else {
            self.flock_forces(cfg, pos, agents, n - 1).plus(self.neighbor_forces(cfg, pos, agents[n - 1]))
        }
    }

    /// The speed that the sight of one player calls for. The agent and the
    /// player are both projected one second ahead, the agent once at the
    /// largest and once at the least speed. If the fast projection ends
    /// farther from the player than the slow one, and farther than both
    /// personal spaces together, the agent is to slow down to the least
    /// speed; if the slow one does, it is to speed up to the largest.
    pub open spec fn speed_toward(&self, cfg: &BoidConfig, pos: Vec2, player: Agent) -> Option<i64> {
        let max_dest = pos@.plus(scaled(self.direction@, cfg.max_speed as int));
        let min_dest = pos@.plus(scaled(self.direction@, cfg.min_speed as int));
        let player_dest = player.position@.plus(scaled(player.boid.direction@, player.boid.speed as int));
        let max_d2 = max_dest.minus(player_dest).len2();
        let min_d2 = min_dest.minus(player_dest).len2();
        let room = player.boid.personal_space + self.personal_space;
        if max_d2 > min_d2 && max_d2 > room * room {
            Some(cfg.min_speed)
        } else if min_d2 > max_d2 && min_d2 > room * room {
            Some(cfg.max_speed)
        } else {
            None
        }
    }

    /// The speed that the players among the first `n` agents call for:
    /// that of the last one that calls for any.
    pub open spec fn speed_request(&self, cfg: &BoidConfig, pos: Vec2, agents: Seq<Agent>, n: int) -> Option<i64>
        decreases n,
    {
        if n <= 0 {
            None
        } else {
            let earlier = self.speed_request(cfg, pos, agents, n - 1);
            if agents[n - 1].boid.is_player {
                match self.speed_toward(cfg, pos, agents[n - 1]) {
                    Some(s) => Some(s),
                    None => earlier,
                }
            } else {
                earlier
            }
        }
    }

    /// The four forces, each normalised and weighted, summed and
    /// normalised again. The alignment counts only where `aligned` holds.
    pub open spec fn combined(
        cfg: &BoidConfig,
        bounds_force: IntVec2,
        flock: Forces,
        aligned: bool,
    ) -> IntVec2 {
        let b = unit_of(bounds_force.x, bounds_force.y);
        let s = unit_of(flock.separation.x, flock.separation.y);
        let a = unit_of(flock.alignment.x, flock.alignment.y);
        let c = unit_of(flock.cohesion.x, flock.cohesion.y);
        let alignment = if aligned {
            cfg.alignment as int
        } else {
            0
        };
        let total = b.times(cfg.boundary as int).plus(s.times(cfg.repulsion as int)).plus(
            a.times(alignment),
        ).plus(c.times(cfg.cohesion as int));
        unit_of(total.x, total.y)
    }

    /// The steering force of an agent at `pos` among `agents`: zero for the
    /// player, else the combination of boundary avoidance, separation,
    /// alignment and cohesion. Alignment counts for a tamed agent and
    /// where the configuration lets every agent wander.
    pub open spec fn steering<S: DistanceField>(
        &self,
        agents: Seq<Agent>,
        cfg: &BoidConfig,
        pos: Vec2,
        bounds: &MoveableBounds<S>,
        is_tamed: bool,
    ) -> IntVec2 {
        if self.is_player {
            IntVec2::zero()
        } else {
            Self::combined(
                cfg,
                self.bounds_force(cfg, pos, bounds),
                self.flock_forces(cfg, pos, agents, agents.len() as int),
                is_tamed || cfg.wander,
            )
        }
    }

    /// The speed that the agent asks for: none for the player and for a
    /// wild agent, else what the players in sight call for.
    pub open spec fn requested_speed(
        &self,
        agents: Seq<Agent>,
        cfg: &BoidConfig,
        pos: Vec2,
        is_tamed: bool,
    ) -> Option<i64> {
        if self.is_player || !is_tamed {
            None
        } else {
            self.speed_request(cfg, pos, agents, agents.len() as int)
        }
    }

    /// What one neighbour adds to the three forces of an agent at `pos`.
    pub fn neighbor_terms(&self, cfg: &BoidConfig, pos: Vec2, other: &Agent) -> (t: FlockForces)
        requires
            self.wf(),
            cfg.wf(),
            in_world(pos),
            other.wf(),
        ensures
            t@ == self.neighbor_forces(cfg, pos, *other),
            t.within(TERM_MAX as int),
    {
        let zero = Wide2 { x: 0, y: 0 };
        let dx: i128 = other.position.x as i128 - pos.x as i128;
        let dy: i128 = other.position.y as i128 - pos.y as i128;
        proof {
            lemma_mul_bound(dx as int, dx as int, 0x200_0000_0000, 0x200_0000_0000);
            lemma_mul_bound(dy as int, dy as int, 0x200_0000_0000, 0x200_0000_0000);
            assert(dx * dx >= 0 && dy * dy >= 0) by (nonlinear_arith);
            lemma_unit_within(other.boid.direction@);
        }
        let d2: u128 = (dx * dx + dy * dy) as u128;
        let d: i128 = isqrt_u128(d2) as i128;
        let maxp: i128 = if self.personal_space >= other.boid.personal_space {
            self.personal_space as i128
        } else {
            other.boid.personal_space as i128
        };
        let maxv: i128 = if self.vision >= other.boid.vision {
            self.vision as i128
        } else {
            other.boid.vision as i128
        };
        let factor: i128 = if other.boid.is_player {
            cfg.player_influence as i128
        } else {
            65536
        };
        assert(d2 == other.position@.minus(pos@).len2());
        assert(d == distance(pos, other.position));
        if d < maxp {
            proof {
                lemma_ratio(d as int, maxp as int);
            }
            let w: i128 = 65536 - d * 65536 / maxp;
            proof {
                lemma_mul_bound(dx as int, -w as int, 0x200_0000_0000, 65536);
                lemma_mul_bound(dy as int, -w as int, 0x200_0000_0000, 65536);
            }
            FlockForces { separation: Wide2 { x: dx * (-w), y: dy * (-w) }, cohesion: zero, alignment: zero }
        } else if d < maxv {
            proof {
                lemma_ratio(d as int, self.vision as int);
            }
            let weight: i128 = if other.boid.is_player {
                65536
            } else {
                65536 - d * 65536 / (self.vision as i128)
            };
            proof {
                lemma_mul_bound(dx as int, factor as int, 0x200_0000_0000, 0x1_0000_0000);
                lemma_mul_bound(dy as int, factor as int, 0x200_0000_0000, 0x1_0000_0000);
                lemma_mul_bound(weight as int, factor as int, 0x1_0000_0000_0000, 0x1_0000_0000);
                lemma_mul_bound(
                    other.boid.direction.x as int,
                    weight * factor,
                    ONE + 2,
                    0x1_0000_0000_0000_0000_0000int,
                );
                lemma_mul_bound(
                    other.boid.direction.y as int,
                    weight * factor,
                    ONE + 2,
                    0x1_0000_0000_0000_0000_0000int,
                );
            }
            let wf: i128 = weight * factor;
            FlockForces {
                separation: zero,
                cohesion: Wide2 { x: dx * factor, y: dy * factor },
                alignment: Wide2 {
                    x: other.boid.direction.x as i128 * wf,
                    y: other.boid.direction.y as i128 * wf,
                },
            }
        } else {
            FlockForces { separation: zero, cohesion: zero, alignment: zero }
        }
    }

    /// The speed that the sight of one player calls for.
    pub fn player_speed_request(&self, cfg: &BoidConfig, pos: Vec2, player: &Agent) -> (s: Option<i64>)
        requires
            self.wf(),
            cfg.wf(),
            in_world(pos),
            player.wf(),
        ensures
            s == self.speed_toward(cfg, pos, *player),
    {
        proof {
            lemma_unit_within(self.direction@);
            lemma_unit_within(player.boid.direction@);
            lemma_scaled_within(self.direction@, cfg.max_speed as int, ONE + 2, 0x1_0000_0000);
            lemma_scaled_within(self.direction@, cfg.min_speed as int, ONE + 2, 0x1_0000_0000);
            lemma_scaled_within(player.boid.direction@, player.boid.speed as int, ONE + 2, 0x1_0000_0000);
        }
        let fast = scale_vec(self.direction, cfg.max_speed);
        let slow = scale_vec(self.direction, cfg.min_speed);
        let ahead = scale_vec(player.boid.direction, player.boid.speed);
        let px: i128 = player.position.x as i128 + ahead.x as i128;
        let py: i128 = player.position.y as i128 + ahead.y as i128;
        let fx: i128 = pos.x as i128 + fast.x as i128 - px;
        let fy: i128 = pos.y as i128 + fast.y as i128 - py;
        let sx: i128 = pos.x as i128 + slow.x as i128 - px;
        let sy: i128 = pos.y as i128 + slow.y as i128 - py;
        let room: i128 = player.boid.personal_space as i128 + self.personal_space as i128;
        proof {
            lemma_mul_bound(fx as int, fx as int, 0x400_0000_0000, 0x400_0000_0000);
            lemma_mul_bound(fy as int, fy as int, 0x400_0000_0000, 0x400_0000_0000);
            lemma_mul_bound(sx as int, sx as int, 0x400_0000_0000, 0x400_0000_0000);
            lemma_mul_bound(sy as int, sy as int, 0x400_0000_0000, 0x400_0000_0000);
            lemma_mul_bound(room as int, room as int, 0x2_0000_0000, 0x2_0000_0000);
        }
        let max_d2: i128 = fx * fx + fy * fy;
        let min_d2: i128 = sx * sx + sy * sy;
        let room2: i128 = room * room;
        if max_d2 > min_d2 && max_d2 > room2 {
            Some(cfg.min_speed)
        } else if min_d2 > max_d2 && min_d2 > room2 {
            Some(cfg.max_speed)
        } else {
            None
        }
    }
}

impl Boid {
    /// The four forces, each normalised and weighted, summed and
    /// normalised again.
    pub fn combine(
        cfg: &BoidConfig,
        bounds_force: Vec2,
        flock: &FlockForces,
        aligned: bool,
    ) -> (force: Vec2)
        requires
            cfg.wf(),
        ensures
            force@ == Self::combined(cfg, bounds_force@, flock@, aligned),
            force@ == IntVec2::zero() || force.is_unit(),
    {
        let b = bounds_force.normalize_or_zero();
        let s = flock.separation.normalize_or_zero();
        let a = flock.alignment.normalize_or_zero();
        let c = flock.cohesion.normalize_or_zero();
        let alignment: i64 = if aligned {
            cfg.alignment
        } else {
            0
        };
        proof {
            lemma_mul_bound(b.x as int, cfg.boundary as int, ONE as int, 0x1_0000_0000);
            lemma_mul_bound(b.y as int, cfg.boundary as int, ONE as int, 0x1_0000_0000);
            lemma_mul_bound(s.x as int, cfg.repulsion as int, ONE as int, 0x1_0000_0000);
            lemma_mul_bound(s.y as int, cfg.repulsion as int, ONE as int, 0x1_0000_0000);
            lemma_mul_bound(a.x as int, alignment as int, ONE as int, 0x1_0000_0000);
            lemma_mul_bound(a.y as int, alignment as int, ONE as int, 0x1_0000_0000);
            lemma_mul_bound(c.x as int, cfg.cohesion as int, ONE as int, 0x1_0000_0000);
            lemma_mul_bound(c.y as int, cfg.cohesion as int, ONE as int, 0x1_0000_0000);
        }
        let total = Wide2 {
            x: b.x as i128 * cfg.boundary as i128 + s.x as i128 * cfg.repulsion as i128 + a.x as i128
                * alignment as i128 + c.x as i128 * cfg.cohesion as i128,
            y: b.y as i128 * cfg.boundary as i128 + s.y as i128 * cfg.repulsion as i128 + a.y as i128
                * alignment as i128 + c.y as i128 * cfg.cohesion as i128,
        };
        total.normalize_or_zero()
    }

    /// The steering force of this agent, standing at `position2d` among
    /// `agents`, and the speed that it asks for. The player steers by
    /// itself: its force is zero and it asks for no speed.
    pub fn calculate_forces<S: DistanceField>(
        &self,
        agents: &Vec<Agent>,
        bconfig: &BoidConfig,
        position2d: Vec2,
        bounds: &MoveableBounds<S>,
        is_tamed: bool,
    ) -> (r: (Vec2, Option<i64>))
        requires
            self.wf(),
            bconfig.wf(),
            bounds.wf(),
            in_world(position2d),
            agents_wf(agents@),
            agents.len() <= MAX_AGENTS,
        ensures
            r.0@ == self.steering(agents@, bconfig, position2d, bounds, is_tamed),
            r.1 == self.requested_speed(agents@, bconfig, position2d, is_tamed),
            r.0@ == IntVec2::zero() || r.0.is_unit(),
            self.is_player ==> r.0@ == IntVec2::zero() && r.1 is None,
            r.1 matches Some(s) ==> s == bconfig.min_speed || s == bconfig.max_speed,
    {
        if self.is_player {
            return (Vec2 { x: 0, y: 0 }, None);
        }
        let bounds_force = self.calculate_bounds_force(bconfig, position2d, bounds);
        let zero = Wide2 { x: 0, y: 0 };
        let mut acc = FlockForces { separation: zero, cohesion: zero, alignment: zero };
        let mut speed: Option<i64> = None;
        let mut i: usize = 0;
        while i < agents.len()
            invariant
                i <= agents.len() <= MAX_AGENTS,
                self.wf(),
                bconfig.wf(),
                in_world(position2d),
                agents_wf(agents@),
                acc@ == self.flock_forces(bconfig, position2d, agents@, i as int),
                acc.within(i * TERM_MAX),
                speed == self.speed_request(bconfig, position2d, agents@, i as int),
                speed matches Some(s) ==> s == bconfig.min_speed || s == bconfig.max_speed,
            decreases agents.len() - i,
        {
            let other = &agents[i];
            assert(agents@[i as int].wf());
            let t = self.neighbor_terms(bconfig, position2d, other);
            acc = FlockForces {
                separation: Wide2 { x: acc.separation.x + t.separation.x, y: acc.separation.y + t.separation.y },
                cohesion: Wide2 { x: acc.cohesion.x + t.cohesion.x, y: acc.cohesion.y + t.cohesion.y },
                alignment: Wide2 { x: acc.alignment.x + t.alignment.x, y: acc.alignment.y + t.alignment.y },
            };
            if other.boid.is_player {
                match self.player_speed_request(bconfig, position2d, other) {
                    Some(s) => {
                        speed = Some(s);
                    },
                    None => {},
                }
            }
            i += 1;
        }
        let force = Self::combine(bconfig, bounds_force, &acc, is_tamed || bconfig.wander);
        (
            force,
            if is_tamed {
                speed
            } else {
                None
            },
        )
    }
}

/// The heading `h` turned toward `force` during `dt` at the turning
/// speed `turn`: the unit vector along `h + force * dt * turn`. The heading
/// stays as it is where nothing is added to it, and where the sum vanishes.
pub open spec fn turned(h: Vec2, force: IntVec2, dt: int, turn: int) -> IntVec2 {
    let delta = force.times(dt * turn);
    let sum = h@.times(ONE as int * ONE as int).plus(delta);
    if (delta.x == 0 && delta.y == 0) || (sum.x == 0 && sum.y == 0) {
        h@
    } else {
        unit_of(sum.x, sum.y)
    }
}

/// The heading `h` turned toward `force` during `dt` at the turning speed
/// `turn`.
pub fn turn_heading(h: Vec2, force: Vec2, dt: i64, turn: i64) -> (r: Vec2)
    requires
        h.is_unit(),
        force.within(ONE + 2),
        0 <= dt <= 0x10_0000,
        0 <= turn <= TURN_MAX,
    ensures
        r@ == turned(h, force@, dt as int, turn as int),
        r.is_unit(),
{
    proof {
        lemma_unit_within(h@);
        lemma_mul_bound(dt as int, turn as int, 0x10_0000, 0x100_0000);
        lemma_mul_bound(force.x as int, dt * turn, ONE + 2, 0x1000_0000_0000);
        lemma_mul_bound(force.y as int, dt * turn, ONE + 2, 0x1000_0000_0000);
    }
    let k: i128 = dt as i128 * turn as i128;
    let dx: i128 = force.x as i128 * k;
    let dy: i128 = force.y as i128 * k;
    let one2: i128 = 65536 * 65536;
    let sx: i128 = h.x as i128 * one2 + dx;
    let sy: i128 = h.y as i128 * one2 + dy;
    if (dx == 0 && dy == 0) || (sx == 0 && sy == 0) {
        h
    } else {
        proof {
            lemma_unit_of(sx as int, sy as int);
        }
        normalize_wide(sx, sy)
    }
}

impl Boid {
    /// The velocity that the heading and the speed give: the normalised
    /// heading (straight up where there is none) times the speed.
    pub open spec fn velocity_of(&self) -> IntVec2 {
        if self.direction.x == 0 && self.direction.y == 0 {
            scaled(IntVec2 { x: 0, y: ONE as int }, self.speed as int)
        } else {
            scaled(unit_of(self.direction.x as int, self.direction.y as int), self.speed as int)
        }
    }

    /// The velocity that the heading and the speed give.
    pub fn velocity(&self) -> (v: Vec2)
        requires
            0 <= self.speed <= SPEED_MAX,
        ensures
            v@ == self.velocity_of(),
            v.within(SPEED_MAX as int),
    {
        let n = if self.direction.is_zero() {
            Vec2 { x: 0, y: ONE }
        } else {
            self.direction.normalize_or_zero()
        };
        proof {
            lemma_scaled_within(n@, self.speed as int, ONE as int, SPEED_MAX as int);
        }
        scale_vec(n, self.speed)
    }
}

impl Agent {
    /// Whether the agent is within the vision of `player`: its squared
    /// distance is at most the squared vision radius.
    pub open spec fn in_reach_of(&self, player: Agent) -> bool {
        self.position@.minus(player.position@).len2() <= player.boid.vision * player.boid.vision
    }

    /// Whether the agent is within the vision of `player`.
    pub fn is_in_reach_of(&self, player: &Agent) -> (near: bool)
        requires
            in_world(self.position),
            in_world(player.position),
            0 <= player.boid.vision <= RADIUS_MAX,
        ensures
            near == self.in_reach_of(*player),
    {
        let dx: i128 = self.position.x as i128 - player.position.x as i128;
        let dy: i128 = self.position.y as i128 - player.position.y as i128;
        let v: i128 = player.boid.vision as i128;
        proof {
            lemma_mul_bound(dx as int, dx as int, 0x200_0000_0000, 0x200_0000_0000);
            lemma_mul_bound(dy as int, dy as int, 0x200_0000_0000, 0x200_0000_0000);
            lemma_mul_bound(v as int, v as int, 0x1_0000_0000, 0x1_0000_0000);
        }
        dx * dx + dy * dy <= v * v
    }

    /// The agent after the taming rule was applied to it. The player stays
    /// as it is. A wild agent within the player's vision becomes tamed and
    /// takes the sharp turning speed if the player boosts, the gentle one
    /// if not. A tamed agent outside it becomes wild again and takes the
    /// wild speed and turning speed. Any other agent stays as it is.
    pub open spec fn tamed(self, player: Agent, boost: bool, cfg: &BoidConfig) -> Agent {
        if self.boid.is_player {
            self
        } else if self.in_reach_of(player) && self.tame is Wild {
            Agent {
                boid: Boid {
                    turning_speed: if boost {
                        cfg.max_turn_speed
                    } else {
                        cfg.min_turn_speed
                    },
                    ..self.boid
                },
                tame: TameState::Tamed,
                color: if boost {
                    BoidColor::TamedBoosted
                } else {
                    BoidColor::Tamed
                },
                ..self
            }
        } else if !self.in_reach_of(player) && self.tame is Tamed {
            Agent {
                boid: Boid { turning_speed: cfg.wild_turn_speed, speed: cfg.wild_speed, ..self.boid },
                tame: TameState::Wild,
                color: BoidColor::Wild,
                ..self
            }
        } else {
            self
        }
    }

    /// The agent after the taming rule was applied to it.
    pub fn apply_taming(self, player: &Agent, boost: bool, cfg: &BoidConfig) -> (a: Agent)
        requires
            self.wf(),
            player.wf(),
            cfg.wf(),
        ensures
            a == self.tamed(*player, boost, cfg),
            a.wf(),
    {
        if self.boid.is_player {
            return self;
        }
        let near = self.is_in_reach_of(player);
        let was = match self.tame {
            TameState::Tamed => true,
            TameState::Wild => false,
        };
        let mut a = self;
        if near && !was {
            if boost {
                a.boid.turning_speed = cfg.max_turn_speed;
                a.color = BoidColor::TamedBoosted;
            } else {
                a.boid.turning_speed = cfg.min_turn_speed;
                a.color = BoidColor::Tamed;
            }
            a.tame = TameState::Tamed;
        }
        if !near && was {
            a.color = BoidColor::Wild;
            a.boid.turning_speed = cfg.wild_turn_speed;
            a.boid.speed = cfg.wild_speed;
            a.tame = TameState::Wild;
        }
        a
    }

    /// The agent after its turning speed followed the player's mode: a
    /// tamed agent turns sharply while the player boosts and gently while
    /// not; any other agent stays as it is.
    pub open spec fn boost_tracked(self, boost: bool, cfg: &BoidConfig) -> Agent {
        if !self.boid.is_player && self.tame is Tamed {
            Agent {
                boid: Boid {
                    turning_speed: if boost {
                        cfg.max_turn_speed
                    } else {
                        cfg.min_turn_speed
                    },
                    ..self.boid
                },
                color: if boost {
                    BoidColor::TamedBoosted
                } else {
                    BoidColor::Tamed
                },
                ..self
            }
        } else {
            self
        }
    }

    /// The agent after its turning speed followed the player's mode.
    pub fn track_boost(self, boost: bool, cfg: &BoidConfig) -> (a: Agent)
        requires
            self.wf(),
            cfg.wf(),
        ensures
            a == self.boost_tracked(boost, cfg),
            a.wf(),
    {
        let is_tamed = match self.tame {
            TameState::Tamed => true,
            TameState::Wild => false,
        };
        let mut a = self;
        if !self.boid.is_player && is_tamed {
            if boost {
                a.boid.turning_speed = cfg.max_turn_speed;
                a.color = BoidColor::TamedBoosted;
            } else {
                a.boid.turning_speed = cfg.min_turn_speed;
                a.color = BoidColor::Tamed;
            }
        }
        a
    }

    /// The agent after it turned toward `force` during `dt` and took the
    /// speed asked for: a tamed agent takes the requested speed if there is
    /// one, a wild agent that is not the player takes the wild speed.
    pub open spec fn steered(self, force: IntVec2, request: Option<i64>, cfg: &BoidConfig, dt: int) -> Agent {
        let direction = turned(self.boid.direction, force, dt, self.boid.turning_speed as int);
        Agent {
            boid: Boid {
                direction: Vec2 { x: direction.x as i64, y: direction.y as i64 },
                speed: if self.tame is Tamed {
                    match request {
                        Some(s) => s,
                        None => self.boid.speed,
                    }
                } else if !self.boid.is_player {
                    cfg.wild_speed
                } else {
                    self.boid.speed
                },
                ..self.boid
            },
            ..self
        }
    }

    /// The agent after it turned toward `force` during `dt` and took the
    /// speed asked for.
    pub fn steer(self, force: Vec2, request: Option<i64>, cfg: &BoidConfig, dt: i64) -> (a: Agent)
        requires
            self.wf(),
            cfg.wf(),
            force.within(ONE + 2),
            0 <= dt <= 0x10_0000,
            request matches Some(s) ==> 0 <= s <= SPEED_MAX,
        ensures
            a == self.steered(force@, request, cfg, dt as int),
            a.wf(),
    {
        let mut a = self;
        a.boid.direction = turn_heading(self.boid.direction, force, dt, self.boid.turning_speed);
        match self.tame {
            TameState::Tamed => {
                match request {
                    Some(s) => {
                        a.boid.speed = s;
                    },
                    None => {},
                }
            },
            TameState::Wild => {
                if !self.boid.is_player {
                    a.boid.speed = cfg.wild_speed;
                }
            },
        }
        a
    }
}

impl Agent {
    /// The agent with the velocity that its heading and its speed give.
    pub open spec fn with_velocity(self) -> Agent {
        Agent {
            moveable: Moveable {
                velocity: Vec2 { x: self.boid.velocity_of().x as i64, y: self.boid.velocity_of().y as i64 },
            },
            ..self
        }
    }

    /// The displacement of the agent during `dt`: its velocity times `dt`.
    pub open spec fn travel(&self, dt: int) -> Vec2 {
        Vec2 {
            x: scaled(self.moveable.velocity@, dt).x as i64,
            y: scaled(self.moveable.velocity@, dt).y as i64,
        }
    }

    /// The agent after it tried to move for `dt`: it stands where the
    /// boundary lets it, and it is flagged as collided exactly if its
    /// displacement was not zero and was rejected. Its velocity stays as
    /// it is: the move, made or not, has the direction of the velocity.
    pub open spec fn moved<S: DistanceField>(self, bounds: &MoveableBounds<S>, dt: int) -> Agent {
        let travel = self.travel(dt);
        let position = bounds.bounced(self.position, travel).0;
        Agent {
            position,
            collided: position == self.position && (travel.x != 0 || travel.y != 0),
            ..self
        }
    }

    /// The agent after it tried to move for `dt`.
    pub fn advance<S: DistanceField>(self, bounds: &MoveableBounds<S>, dt: i64) -> (a: Agent)
        requires
            self.wf(),
            bounds.wf(),
            0 <= dt <= 0x10_0000,
        ensures
            a == self.moved(bounds, dt as int),
            a.wf(),
    {
        proof {
            lemma_scaled_within(self.moveable.velocity@, dt as int, 0x4_0000_0000, 0x10_0000);
        }
        let travel = scale_vec(self.moveable.velocity, dt);
        let (position, _) = bounds.bounce(self.position, travel);
        let mut a = self;
        a.collided = position.x == self.position.x && position.y == self.position.y && (travel.x != 0
            || travel.y != 0);
        a.position = position;
        a
    }
}

} // verus!
