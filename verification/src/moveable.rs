//! The boundary of a level as a signed distance field, and how a move is
//! accepted or rejected against it.

use vstd::prelude::*;
use crate::fixed::{trunc_div, lemma_mul_bound, ONE};
use crate::vec2::{unit_of, normalize_wide, IntVec2, Vec2, VEC_MAX};
use crate::boid::components::{agents_wf, Agent};

verus! {

/// The world is the square of positions whose coordinates have magnitude at
/// most this: 2^40, that is 2^24 world units.
pub const COORD_MAX: i64 = 0x100_0000_0000;

/// The largest magnitude of a component of a velocity: 2^34.
pub const VELOCITY_MAX: i64 = 0x4_0000_0000;

/// The longest time step: 2^20, that is 16 seconds.
pub const DT_MAX: i64 = 0x10_0000;

/// The offset at which the distance is sampled around a point to estimate
/// the normal there: about a thousandth of a world unit.
pub const NORMAL_EPSILON: i64 = 66;

/// The largest sampling offset that a boundary can be built with.
pub const EPSILON_MAX: i64 = 0x1_0000_0000;

/// A signed distance over the plane: positive in the open region, zero on
/// the boundary, negative inside a wall.
pub trait DistanceField {
    /// What must hold of the field for it to be queried.
    spec fn valid(&self) -> bool;

    /// The signed distance from `p` to the boundary.
    spec fn dist_at(&self, p: Vec2) -> int;

    /// The signed distance from `p` to the boundary.
    fn dist(&self, p: Vec2) -> (d: i64)
        requires
            self.valid(),
        ensures
            d == self.dist_at(p),
    ;
}

/// A distance field given by a function that is defined everywhere and
/// returns the same distance whenever it is asked about the same point.
pub struct FnField<F> {
    pub f: F,
}

impl<F: Fn(Vec2) -> i64> FnField<F> {
    /// The field that `f` computes.
    pub fn new(f: F) -> (field: FnField<F>)
        ensures
            field.f == f,
    {
        FnField { f }
    }
}

impl<F: Fn(Vec2) -> i64> DistanceField for FnField<F> {
    open spec fn valid(&self) -> bool {
        &&& forall|p: Vec2| #[trigger] self.f.requires((p,))
        &&& forall|p: Vec2, a: i64, b: i64|
            #![trigger self.f.ensures((p,), a), self.f.ensures((p,), b)]
            self.f.ensures((p,), a) && self.f.ensures((p,), b) ==> a == b
    }

    open spec fn dist_at(&self, p: Vec2) -> int {
        (choose|d: i64| self.f.ensures((p,), d)) as int
    }

    fn dist(&self, p: Vec2) -> (d: i64) {
        let d = (self.f)(p);
        proof {
            let c = choose|d: i64| self.f.ensures((p,), d);
            assert(self.f.ensures((p,), d));
            assert(self.f.ensures((p,), c));
        }
        d
    }
}

/// A field mirrored through the origin: its distance at `p` is the inner
/// field's distance at `-p`.
pub struct Flip<S> {
    pub sdf: S,
}

impl<S> Flip<S> {
    /// The mirror image of `sdf`.
    pub fn new(sdf: S) -> (flip: Flip<S>)
        ensures
            flip.sdf == sdf,
    {
        Flip { sdf }
    }
}

/// `p` mirrored through the origin; the one coordinate that has no
/// negative, `i64::MIN`, goes to `i64::MAX`.
pub open spec fn mirrored(p: Vec2) -> Vec2 {
    Vec2 {
        x: if p.x == i64::MIN { i64::MAX } else { (-p.x) as i64 },
        y: if p.y == i64::MIN { i64::MAX } else { (-p.y) as i64 },
    }
}

impl<S: DistanceField> DistanceField for Flip<S> {
    open spec fn valid(&self) -> bool {
        self.sdf.valid()
    }

    open spec fn dist_at(&self, p: Vec2) -> int {
        self.sdf.dist_at(mirrored(p))
    }

    fn dist(&self, p: Vec2) -> (d: i64) {
        let x: i64 = if p.x == i64::MIN { i64::MAX } else { -p.x };
        let y: i64 = if p.y == i64::MIN { i64::MAX } else { -p.y };
        self.sdf.dist(Vec2 { x, y })
    }
}

/// A distance field together with the offset at which its normals are
/// estimated.
pub struct SdfBounds<S> {
    pub sdf: S,
    pub eps: i64,
}

/// The boundary that moves are checked against: none, or a distance field.
pub enum MoveableBounds<S> {
    Absent,
    Sdf(SdfBounds<S>),
}

/// The velocity of a body, in world units per second.
#[derive(Clone, Copy, Debug, PartialEq, Eq, Structural)]
pub struct Moveable {
    pub velocity: Vec2,
}

impl Moveable {
    /// The velocity is within `VELOCITY_MAX`.
    pub open spec fn wf(self) -> bool {
        self.velocity.within(VELOCITY_MAX as int)
    }
}

impl Moveable {
    /// Whether the velocity is within `VELOCITY_MAX`.
    pub fn is_wf(&self) -> (ok: bool)
        ensures
            ok == self.wf(),
    {
        self.velocity.is_within(VELOCITY_MAX)
    }
}

impl Default for Moveable {
    fn default() -> (m: Moveable)
        ensures
            m.velocity == (Vec2 { x: 0, y: 0 }),
    {
        Moveable { velocity: Vec2 { x: 0, y: 0 } }
    }
}

/// Whether `p` lies in the world.
pub open spec fn in_world(p: Vec2) -> bool {
    p.within(COORD_MAX as int)
}

/// The displacement `p` mirrored about a surface whose normal is `n`:
/// `p - 2 (p . n) n`, the products brought back to scale by one division
/// that rounds toward zero.
pub open spec fn reflected(p: IntVec2, n: IntVec2) -> IntVec2 {
    let dot = p.x * n.x + p.y * n.y;
    IntVec2 {
        x: p.x - trunc_div(2 * dot * n.x, ONE as int * ONE as int),
        y: p.y - trunc_div(2 * dot * n.y, ONE as int * ONE as int),
    }
}

impl<S: DistanceField> MoveableBounds<S> {
    /// The field can be queried, and the sampling offset is positive and at
    /// most `EPSILON_MAX`.
    pub open spec fn wf(&self) -> bool {
        match self {
            MoveableBounds::Absent => true,
            MoveableBounds::Sdf(b) => b.sdf.valid() && 0 < b.eps <= EPSILON_MAX,
        }
    }

    /// The signed distance from `p` to the boundary: the field's, or the
    /// least distance there is where there is no field.
    pub open spec fn distance_at(&self, p: Vec2) -> int {
        match self {
            MoveableBounds::Absent => i64::MIN as int,
            MoveableBounds::Sdf(b) => b.sdf.dist_at(p),
        }
    }

    /// The central differences of the distance around `p`, along x and
    /// along y.
    pub open spec fn gradient_at(&self, p: Vec2) -> IntVec2 {
        match self {
            MoveableBounds::Absent => IntVec2::zero(),
            MoveableBounds::Sdf(b) => IntVec2 {
                x: b.sdf.dist_at(Vec2 { x: (p.x + b.eps) as i64, y: p.y }) - b.sdf.dist_at(
                    Vec2 { x: (p.x - b.eps) as i64, y: p.y },
                ),
                y: b.sdf.dist_at(Vec2 { x: p.x, y: (p.y + b.eps) as i64 }) - b.sdf.dist_at(
                    Vec2 { x: p.x, y: (p.y - b.eps) as i64 },
                ),
            },
        }
    }

    /// The estimated normal of the boundary at `p`: the normalised central
    /// differences, zero where they vanish or where there is no field.
    pub open spec fn normal_at(&self, p: Vec2) -> IntVec2 {
        unit_of(self.gradient_at(p).x, self.gradient_at(p).y)
    }

    /// Whether a body may stand at `p`: `p` lies in the world and, where
    /// there is a field, in its open region.
    pub open spec fn accepts(&self, p: Vec2) -> bool {
        in_world(p) && (self is Absent || self.distance_at(p) > 0)
    }

    /// Where a body at `o` stands after trying the displacement `p`, and
    /// the displacement it is left with: it moves if the target is
    /// accepted and stays otherwise.
    pub open spec fn bounced(&self, o: Vec2, p: Vec2) -> (Vec2, Vec2) {
        let op = Vec2 { x: (o.x + p.x) as i64, y: (o.y + p.y) as i64 };
        if self.accepts(op) {
            (op, p)
        } else {
            (o, p)
        }
    }

    /// As `bounced`, but a rejected displacement is mirrored about the
    /// estimated normal at the target and tried once more; the body stays
    /// if the mirrored target lies outside the world or inside a wall.
    pub open spec fn bounced_reflecting(&self, o: Vec2, p: Vec2) -> (Vec2, Vec2) {
        let op = Vec2 { x: (o.x + p.x) as i64, y: (o.y + p.y) as i64 };
        let r = reflected(p@, self.normal_at(op));
        let or = Vec2 { x: (o.x + r.x) as i64, y: (o.y + r.y) as i64 };
        if self.accepts(op) {
            (op, p)
        } else if self is Absent || !in_world(or) || self.distance_at(or) < 0 {
            (o, p)
        } else {
            (or, Vec2 { x: r.x as i64, y: r.y as i64 })
        }
    }

    /// The boundary of `sdf`, with normals sampled at `NORMAL_EPSILON`.
    pub fn from_sdf(sdf: S) -> (bounds: MoveableBounds<S>)
        requires
            sdf.valid(),
        ensures
            bounds == MoveableBounds::Sdf(SdfBounds { sdf, eps: NORMAL_EPSILON }),
            bounds.wf(),
    {
        MoveableBounds::Sdf(SdfBounds { sdf, eps: NORMAL_EPSILON })
    }

    /// The signed distance from `p` to the boundary.
    pub fn distance_to_edge(&self, p: Vec2) -> (d: i64)
        requires
            self.wf(),
        ensures
            d == self.distance_at(p),
    {
        match self {
            MoveableBounds::Absent => i64::MIN,
            MoveableBounds::Sdf(b) => b.sdf.dist(p),
        }
    }

    /// The estimated unit normal of the boundary at `p`, or zero.
    pub fn edge_normal(&self, p: Vec2) -> (n: Vec2)
        requires
            self.wf(),
            p.within(i64::MAX - EPSILON_MAX),
        ensures
            n@ == self.normal_at(p),
    {
        match self {
            MoveableBounds::Absent => Vec2 { x: 0, y: 0 },
            MoveableBounds::Sdf(b) => {
                let xp = b.sdf.dist(Vec2 { x: p.x + b.eps, y: p.y });
                let xm = b.sdf.dist(Vec2 { x: p.x - b.eps, y: p.y });
                let yp = b.sdf.dist(Vec2 { x: p.x, y: p.y + b.eps });
                let ym = b.sdf.dist(Vec2 { x: p.x, y: p.y - b.eps });
                normalize_wide(xp as i128 - xm as i128, yp as i128 - ym as i128)
            },
        }
    }

    /// Whether a body may stand at `p`.
    pub fn is_open_at(&self, p: Vec2) -> (open: bool)
        requires
            self.wf(),
        ensures
            open == self.accepts(p),
    {
        if !point_in_world(p) {
            return false;
        }
        match self {
            MoveableBounds::Absent => true,
            MoveableBounds::Sdf(b) => b.sdf.dist(p) > 0,
        }
    }

    /// Tries the displacement `p` from `o`: the body moves to `o + p` if
    /// that point is accepted and stays at `o` otherwise. Returns the
    /// position and the displacement.
    pub fn bounce(&self, o: Vec2, p: Vec2) -> (r: (Vec2, Vec2))
        requires
            self.wf(),
            in_world(o),
            p.within(VEC_MAX as int),
        ensures
            r == self.bounced(o, p),
            in_world(r.0),
            r.1 == p,
    {
        let op = Vec2 { x: o.x + p.x, y: o.y + p.y };
        if self.is_open_at(op) {
            (op, p)
        } else {
            (o, p)
        }
    }

    /// Tries the displacement `p` from `o`; where it is rejected, tries its
    /// mirror image about the estimated normal at the target. Returns the
    /// position and the displacement that led there, or `o` and `p` where
    /// both are rejected.
    pub fn bounce_reflect(&self, o: Vec2, p: Vec2) -> (r: (Vec2, Vec2))
        requires
            self.wf(),
            in_world(o),
            p.within(VEC_MAX as int),
        ensures
            r == self.bounced_reflecting(o, p),
            in_world(r.0),
    {
        let op = Vec2 { x: o.x + p.x, y: o.y + p.y };
        if self.is_open_at(op) {
            return (op, p);
        }
        match self {
            MoveableBounds::Absent => (o, p),
            MoveableBounds::Sdf(b) => {
                let n = self.edge_normal(op);
                proof {
                    crate::vec2::lemma_unit_of(self.gradient_at(op).x, self.gradient_at(op).y);
                }
                let r = reflect(p, n);
                let or = Vec2 { x: o.x + r.x, y: o.y + r.y };
                if !point_in_world(or) {
                    return (o, p);
                }
                if b.sdf.dist(or) < 0 {
                    (o, p)
                } else {
                    (or, r)
                }
            },
        }
    }
}

impl<S: DistanceField> Default for MoveableBounds<S> {
    fn default() -> (bounds: MoveableBounds<S>)
        ensures
            bounds is Absent,
    {
        MoveableBounds::Absent
    }
}

/// Whether `p` lies in the world.
pub fn point_in_world(p: Vec2) -> (inside: bool)
    ensures
        inside == in_world(p),
{
    -COORD_MAX <= p.x && p.x <= COORD_MAX && -COORD_MAX <= p.y && p.y <= COORD_MAX
}

/// The displacement `p` mirrored about a surface with normal `n`.
pub fn reflect(p: Vec2, n: Vec2) -> (r: Vec2)
    requires
        p.within(VEC_MAX as int),
        n.within(ONE as int),
    ensures
        r@ == reflected(p@, n@),
        r.within(5 * VEC_MAX),
{
    proof {
        lemma_mul_bound(p.x as int, n.x as int, VEC_MAX as int, ONE as int);
        lemma_mul_bound(p.y as int, n.y as int, VEC_MAX as int, ONE as int);
    }
    let dot: i128 = p.x as i128 * n.x as i128 + p.y as i128 * n.y as i128;
    proof {
        lemma_mul_bound(2 * dot as int, n.x as int, 4 * VEC_MAX * ONE, ONE as int);
        lemma_mul_bound(2 * dot as int, n.y as int, 4 * VEC_MAX * ONE, ONE as int);
    }
    let one2: i128 = 65536 * 65536;
    let cx: i128 = (2 * dot * n.x as i128) / one2;
    let cy: i128 = (2 * dot * n.y as i128) / one2;
    Vec2 { x: (p.x as i128 - cx) as i64, y: (p.y as i128 - cy) as i64 }
}

/// The population after every agent tried to move for `dt`.
pub open spec fn population_moved<S: DistanceField>(
    agents: Seq<Agent>,
    bounds: &MoveableBounds<S>,
    dt: int,
) -> Seq<Agent> {
    Seq::new(agents.len(), |i: int| agents[i].moved(bounds, dt))
}

/// Moves every agent by its velocity times `dt`, as far as the boundary
/// lets it, and flags those whose move was rejected.
pub fn move_moveables<S: DistanceField>(agents: &mut Vec<Agent>, bounds: &MoveableBounds<S>, dt: i64)
    requires
        agents_wf(old(agents)@),
        bounds.wf(),
        0 <= dt <= DT_MAX,
    ensures
        final(agents)@ == population_moved(old(agents)@, bounds, dt as int),
        final(agents)@.len() == old(agents)@.len(),
        agents_wf(final(agents)@),
{
    let ghost before = agents@;
    let mut i: usize = 0;
    while i < agents.len()
        invariant
            i <= agents.len() == before.len(),
            bounds.wf(),
            0 <= dt <= DT_MAX,
            agents_wf(before),
            forall|j: int| 0 <= j < i ==> #[trigger] agents@[j] == before[j].moved(bounds, dt as int),
            forall|j: int| i <= j < before.len() ==> #[trigger] agents@[j] == before[j],
            forall|j: int| 0 <= j < i ==> (#[trigger] agents@[j]).wf(),
        decreases agents.len() - i,
    {
        let a = agents[i];
        assert(before[i as int].wf());
        agents.set(i, a.advance(bounds, dt));
        i += 1;
    }
    assert(agents@ =~= population_moved(before, bounds, dt as int));
}

} // verus!
