//! The tunable configuration that every part of the simulation reads.

use vstd::prelude::*;
use crate::vec2::Mat2;

verus! {

/// The largest speed: 2^32, that is 65536 world units per second.
pub const SPEED_MAX: i64 = 0x1_0000_0000;

/// The largest turning speed: 2^24, that is 256.
pub const TURN_MAX: i64 = 0x100_0000;

/// The largest steering weight or influence multiplier: 2^32, that is 65536.
pub const WEIGHT_MAX: i64 = 0x1_0000_0000;

/// The cosine and the sine of 45 degrees.
pub const COS_45: i64 = 46341;

/// Speeds, turning speeds, steering weights and probe rotations. It is
/// handed to every computation as a value that stays fixed during a tick.
#[derive(Clone, Copy, Debug, PartialEq, Eq, Structural)]
pub struct BoidConfig {
    pub max_speed: i64,
    pub min_speed: i64,
    pub wild_speed: i64,
    pub min_turn_speed: i64,
    pub max_turn_speed: i64,
    pub safe_turn_speed: i64,
    pub wild_turn_speed: i64,
    pub boundary: i64,
    pub cohesion: i64,
    pub alignment: i64,
    pub repulsion: i64,
    pub lprobe: Mat2,
    pub rprobe: Mat2,
    pub lforce: Mat2,
    pub rforce: Mat2,
    pub player_influence: i64,
    pub wander: bool,
}

impl BoidConfig {
    /// The speeds are ordered `0 <= min <= wild <= max <= SPEED_MAX`, the
    /// turning speeds lie in `[0, TURN_MAX]`, the weights and the player's
    /// influence in `[0, WEIGHT_MAX]`, and the matrices are well formed.
    pub open spec fn wf(&self) -> bool {
        &&& 0 <= self.min_speed <= self.wild_speed <= self.max_speed <= SPEED_MAX
        &&& 0 <= self.min_turn_speed <= TURN_MAX
        &&& 0 <= self.max_turn_speed <= TURN_MAX
        &&& 0 <= self.safe_turn_speed <= TURN_MAX
        &&& 0 <= self.wild_turn_speed <= TURN_MAX
        &&& 0 <= self.boundary <= WEIGHT_MAX
        &&& 0 <= self.cohesion <= WEIGHT_MAX
        &&& 0 <= self.alignment <= WEIGHT_MAX
        &&& 0 <= self.repulsion <= WEIGHT_MAX
        &&& 0 <= self.player_influence <= WEIGHT_MAX
        &&& self.lprobe.wf()
        &&& self.rprobe.wf()
        &&& self.lforce.wf()
        &&& self.rforce.wf()
    }

    /// Whether the configuration is well formed.
    pub fn is_wf(&self) -> (ok: bool)
        ensures
            ok == self.wf(),
    {
        0 <= self.min_speed && self.min_speed <= self.wild_speed && self.wild_speed
            <= self.max_speed && self.max_speed <= SPEED_MAX && 0 <= self.min_turn_speed
            && self.min_turn_speed <= TURN_MAX && 0 <= self.max_turn_speed && self.max_turn_speed
            <= TURN_MAX && 0 <= self.safe_turn_speed && self.safe_turn_speed <= TURN_MAX && 0
            <= self.wild_turn_speed && self.wild_turn_speed <= TURN_MAX && 0 <= self.boundary
            && self.boundary <= WEIGHT_MAX && 0 <= self.cohesion && self.cohesion <= WEIGHT_MAX
            && 0 <= self.alignment && self.alignment <= WEIGHT_MAX && 0 <= self.repulsion
            && self.repulsion <= WEIGHT_MAX && 0 <= self.player_influence && self.player_influence
            <= WEIGHT_MAX && self.lprobe.is_wf() && self.rprobe.is_wf() && self.lforce.is_wf()
            && self.rforce.is_wf()
    }
}

impl Default for BoidConfig {
    /// Speeds from 500 to 1000 with wild agents at 500; turning speeds 1
    /// (gentle), 5 (sharp) and 10 (safe, wild); weights 50 for the boundary,
    /// 10 for separation, 1 for cohesion and alignment; the player counts a
    /// hundredfold; probes at 45 degrees to either side and avoidance turns
    /// of 90 degrees; no wandering.
    fn default() -> (c: BoidConfig)
        ensures
            c.wf(),
            c.max_speed == 1000 * 65536,
            c.min_speed == 500 * 65536,
            c.wild_speed == 500 * 65536,
            c.min_turn_speed == 65536,
            c.max_turn_speed == 5 * 65536,
            c.safe_turn_speed == 10 * 65536,
            c.wild_turn_speed == 10 * 65536,
            c.boundary == 50 * 65536,
            c.cohesion == 65536,
            c.alignment == 65536,
            c.repulsion == 10 * 65536,
            c.player_influence == 100 * 65536,
            !c.wander,
            c.lprobe == Mat2::rotation(COS_45, COS_45),
            c.rprobe == Mat2::rotation(COS_45, (-COS_45) as i64),
            c.lforce == Mat2::rotation(0, 65536),
            c.rforce == Mat2::rotation(0, (-65536) as i64),
    {
        BoidConfig {
            max_speed: 65_536_000,
            min_speed: 32_768_000,
            wild_speed: 32_768_000,
            min_turn_speed: 65536,
            max_turn_speed: 327_680,
            safe_turn_speed: 655_360,
            wild_turn_speed: 655_360,
            boundary: 3_276_800,
            cohesion: 65536,
            alignment: 65536,
            repulsion: 655_360,
            lprobe: Mat2::from_cos_sin(COS_45, COS_45),
            rprobe: Mat2::from_cos_sin(COS_45, -COS_45),
            lforce: Mat2::from_cos_sin(0, 65536),
            rforce: Mat2::from_cos_sin(0, -65536),
            player_influence: 6_553_600,
            wander: false,
        }
    }
}

} // verus!
