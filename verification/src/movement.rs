//! Unit movement and collision avoidance.
//!
//! Each unit is Idle (no move target) or Moving (target present). One
//! simulation tick moves every Moving unit: within the arrival tolerance
//! of 1 world unit it arrives and goes Idle; otherwise it steps at
//! `speed * elapsed` along the direction to the target, unless the
//! candidate position comes within one tile's side of any sea tile or
//! nature obstacle, in which case the step is rejected and the target
//! dropped — deliberately simple avoidance, not pathfinding.
//!
//! All positions are world milli-units, and the step arithmetic is exact
//! integer arithmetic over an integer square root.

use vstd::prelude::*;
use crate::coords::{world_x_milli, world_y_milli};
use crate::map_components::{Nature, SeaTile};
use crate::tank::Vehicle;

verus! {

/// Positions handled by the movement system stay within this many
/// milli-units of the origin; the map itself spans under 3 201 000.
pub const POS_LIMIT_MILLI: i64 = 50_000_000;

/// A unit's speed never exceeds this many world units per second.
pub const SPEED_LIMIT: i32 = 10_000;

/// One tick never covers more than this many milliseconds.
pub const TICK_LIMIT_MILLIS: u32 = 10_000;

/// Arrival tolerance: within 1 world unit of the target the unit arrives.
pub const ARRIVE_MILLI: i64 = 1000;

/// Collision radius: a candidate position closer than one tile's side
/// (32 world units) to a sea tile's or obstacle's world center is
/// rejected.
pub const COLLIDE_MILLI: i64 = crate::coords::TILE_SIZE_MILLI;

/// The destination of a unit in motion, in world milli-units.
#[derive(Clone, Copy, Debug, PartialEq, Eq, Structural)]
pub struct MoveTarget {
    pub x_milli: i64,
    pub y_milli: i64,
}

/// A unit as the simulation sees it: attributes, a continuous world
/// position, and the optional move target whose presence makes it Moving.
#[derive(Clone, Copy, Debug, PartialEq, Eq, Structural)]
pub struct UnitState {
    pub vehicle: Vehicle,
    pub x_milli: i64,
    pub y_milli: i64,
    pub target: Option<MoveTarget>,
}

/// The bounds under which one tick's arithmetic is exact.
pub open spec fn unit_wf(u: UnitState) -> bool {
    &&& -POS_LIMIT_MILLI <= u.x_milli <= POS_LIMIT_MILLI
    &&& -POS_LIMIT_MILLI <= u.y_milli <= POS_LIMIT_MILLI
    &&& 0 <= u.vehicle.speed <= SPEED_LIMIT
    &&& u.target matches Some(t) ==> {
        &&& -POS_LIMIT_MILLI <= t.x_milli <= POS_LIMIT_MILLI
        &&& -POS_LIMIT_MILLI <= t.y_milli <= POS_LIMIT_MILLI
    }
}

/// Squared Euclidean distance between two points.
pub open spec fn dist_sq(ax: int, ay: int, bx: int, by: int) -> int {
    (ax - bx) * (ax - bx) + (ay - by) * (ay - by)
}

/// The integer square root: the largest `r` with `r * r <= n`.
pub open spec fn sqrt_floor(n: nat) -> nat
    decreases n,
{
    if n == 0 {
        0
    } else {
        let s = sqrt_floor((n - 1) as nat);
        if (s + 1) * (s + 1) <= n {
            s + 1
        } else {
            s
        }
    }
}

/// The defining bounds of the integer square root.
pub proof fn lemma_sqrt_floor_bounds(n: nat)
    ensures
        (sqrt_floor(n) as int) * (sqrt_floor(n) as int) <= n as int,
        (n as int) < ((sqrt_floor(n) as int) + 1) * ((sqrt_floor(n) as int) + 1),
    decreases n,
{
    if n == 0 {
        assert(sqrt_floor(n) == 0);
    } else {
        lemma_sqrt_floor_bounds((n - 1) as nat);
        let s = sqrt_floor((n - 1) as nat) as int;
        if (s + 1) * (s + 1) <= n as int {
            assert(sqrt_floor(n) == s + 1);
            assert((n as int) - 1 < (s + 1) * (s + 1));
            assert((s + 1) * (s + 1) + 1 <= (s + 2) * (s + 2)) by (nonlinear_arith)
                requires s >= 0;
            assert((n as int) < (s + 2) * (s + 2));
        } else {
            assert(sqrt_floor(n) == s);
            assert((n as int) < (s + 1) * (s + 1));
        }
    }
}

/// Any `r` with `r*r <= n < (r+1)*(r+1)` is the integer square root.
pub proof fn lemma_sqrt_floor_unique(n: nat, r: nat)
    requires
        (r as int) * (r as int) <= n as int,
        (n as int) < ((r as int) + 1) * ((r as int) + 1),
    ensures
        r == sqrt_floor(n),
{
    lemma_sqrt_floor_bounds(n);
    let s = sqrt_floor(n) as int;
    if (r as int) < s {
        assert(((r as int) + 1) * ((r as int) + 1) <= s * s) by (nonlinear_arith)
            requires 0 <= (r as int) && (r as int) + 1 <= s;
    }
    if s < r as int {
        assert((s + 1) * (s + 1) <= (r as int) * (r as int)) by (nonlinear_arith)
            requires 0 <= s && s + 1 <= r as int;
    }
}

/// Computes the integer square root by binary search.
pub fn isqrt(n: u64) -> (r: u64)
    ensures
        r == sqrt_floor(n as nat),
        r * r <= n,
{
    let mut lo: u64 = 0;
    let mut hi: u64 = 4_294_967_296;
    while lo + 1 < hi
        invariant
            lo < hi <= 4_294_967_296,
            (lo as int) * (lo as int) <= n as int,
            (n as int) < (hi as int) * (hi as int),
        decreases hi - lo,
    {
        let mid: u64 = lo + (hi - lo) / 2;
        proof {
            assert((mid as int) * (mid as int) <= 4_294_967_296 * 4_294_967_296int)
                by (nonlinear_arith)
                requires 0 <= mid <= 4_294_967_296;
        }
        let sq: u128 = (mid as u128) * (mid as u128);
        if sq <= n as u128 {
            lo = mid;
        } else {
            hi = mid;
        }
    }
    proof {
        lemma_sqrt_floor_unique(n as nat, lo as nat);
        assert((lo as nat) * (lo as nat) <= n as nat);
    }
    lo
}

/// One axis of the step: the component of a step of length `step` along
/// the direction whose axis difference is `delta`, for a unit at distance
/// `d` from its target. Signs are handled so that division always acts on
/// non-negative values.
pub open spec fn move_component(delta: int, step: int, d: int) -> int {
    if delta >= 0 {
        (delta * step) / d
    } else {
        -(((-delta) * step) / d)
    }
}

/// Where a moving unit would land this tick: its position advanced by
/// `speed * elapsed` milli-units along the direction to the target.
pub open spec fn candidate_pos(u: UnitState, t: MoveTarget, dt_millis: int) -> (int, int) {
    let d2 = dist_sq(u.x_milli as int, u.y_milli as int, t.x_milli as int, t.y_milli as int);
    let d = sqrt_floor(d2 as nat) as int;
    let step = u.vehicle.speed * dt_millis;
    (
        u.x_milli + move_component(t.x_milli - u.x_milli, step, d),
        u.y_milli + move_component(t.y_milli - u.y_milli, step, d),
    )
}

/// Whether the point `(x, y)` collides: it lies strictly within the
/// collision radius of some sea tile's or some nature obstacle's world
/// center.
pub open spec fn blocked_at(x: int, y: int, sea: Seq<SeaTile>, nature: Seq<Nature>) -> bool {
    ||| exists|j: int|
        0 <= j < sea.len() && dist_sq(
            x,
            y,
            world_x_milli((#[trigger] sea[j]).position.x as int),
            world_y_milli(sea[j].position.y as int),
        ) < COLLIDE_MILLI * COLLIDE_MILLI
    ||| exists|j: int|
        0 <= j < nature.len() && dist_sq(
            x,
            y,
            world_x_milli((#[trigger] nature[j]).position.x as int),
            world_y_milli(nature[j].position.y as int),
        ) < COLLIDE_MILLI * COLLIDE_MILLI
}

/// The full per-tick transition of one unit. An idle unit is unchanged.
/// A moving unit within the arrival tolerance (a target equal to the
/// current position included) arrives: the target is dropped and the
/// position kept. Otherwise the candidate step is taken if it collides
/// with nothing, and rejected — dropping the target — if it collides.
pub open spec fn step_spec(
    u: UnitState,
    sea: Seq<SeaTile>,
    nature: Seq<Nature>,
    dt_millis: int,
) -> UnitState {
    match u.target {
        None => u,
        Some(t) => {
            let d2 = dist_sq(
                u.x_milli as int,
                u.y_milli as int,
                t.x_milli as int,
                t.y_milli as int,
            );
            if d2 <= ARRIVE_MILLI * ARRIVE_MILLI {
                UnitState { target: None, ..u }
            } else {
                let c = candidate_pos(u, t, dt_millis);
                if blocked_at(c.0, c.1, sea, nature) {
                    UnitState { target: None, ..u }
                } else {
                    UnitState { x_milli: c.0 as i64, y_milli: c.1 as i64, ..u }
                }
            }
        },
    }
}

/// Every position in a sea-tile or obstacle list lies on the 100 x 100
/// grid, so its world center is defined.
pub open spec fn colliders_wf(sea: Seq<SeaTile>, nature: Seq<Nature>) -> bool {
    &&& forall|j: int|
        0 <= j < sea.len() ==> (#[trigger] sea[j]).position.x < 100 && sea[j].position.y < 100
    &&& forall|j: int|
        0 <= j < nature.len() ==> (#[trigger] nature[j]).position.x < 100
            && nature[j].position.y < 100
}

/// Whether `(x, y)` lies strictly within the collision radius of any
/// listed sea tile or obstacle.
fn blocked(x: i64, y: i64, sea: &Vec<SeaTile>, nature: &Vec<Nature>) -> (b: bool)
    requires
        colliders_wf(sea@, nature@),
        -200_000_000 <= x <= 200_000_000,
        -200_000_000 <= y <= 200_000_000,
    ensures
        b == blocked_at(x as int, y as int, sea@, nature@),
{
    let mut j: usize = 0;
    let slen: usize = sea.len();
    while j < slen
        invariant
            j <= slen,
            slen == sea@.len(),
            colliders_wf(sea@, nature@),
            -200_000_000 <= x <= 200_000_000,
            -200_000_000 <= y <= 200_000_000,
            forall|j2: int|
                0 <= j2 < j ==> dist_sq(
                    x as int,
                    y as int,
                    world_x_milli((#[trigger] sea@[j2]).position.x as int),
                    world_y_milli(sea@[j2].position.y as int),
                ) >= COLLIDE_MILLI * COLLIDE_MILLI,
        decreases slen - j,
    {
        let w = crate::coords::world_of_tile(sea[j].position);
        let dx: i64 = x - w.0;
        let dy: i64 = y - w.1;
        proof {
            assert(0 <= (dx as int) * (dx as int) <= 250_000_000 * 250_000_000int)
                by (nonlinear_arith)
                requires -250_000_000 <= dx <= 250_000_000;
            assert(0 <= (dy as int) * (dy as int) <= 250_000_000 * 250_000_000int)
                by (nonlinear_arith)
                requires -250_000_000 <= dy <= 250_000_000;
        }
        let d2: i64 = dx * dx + dy * dy;
        if d2 < COLLIDE_MILLI * COLLIDE_MILLI {
            return true;
        }
        j = j + 1;
    }
    let mut j: usize = 0;
    let nlen: usize = nature.len();
    while j < nlen
        invariant
            j <= nlen,
            nlen == nature@.len(),
            colliders_wf(sea@, nature@),
            -200_000_000 <= x <= 200_000_000,
            -200_000_000 <= y <= 200_000_000,
            forall|j2: int|
                0 <= j2 < sea@.len() ==> dist_sq(
                    x as int,
                    y as int,
                    world_x_milli((#[trigger] sea@[j2]).position.x as int),
                    world_y_milli(sea@[j2].position.y as int),
                ) >= COLLIDE_MILLI * COLLIDE_MILLI,
            forall|j2: int|
                0 <= j2 < j ==> dist_sq(
                    x as int,
                    y as int,
                    world_x_milli((#[trigger] nature@[j2]).position.x as int),
                    world_y_milli(nature@[j2].position.y as int),
                ) >= COLLIDE_MILLI * COLLIDE_MILLI,
        decreases nlen - j,
    {
        let w = crate::coords::world_of_tile(nature[j].position);
        let dx: i64 = x - w.0;
        let dy: i64 = y - w.1;
        proof {
            assert(0 <= (dx as int) * (dx as int) <= 250_000_000 * 250_000_000int)
                by (nonlinear_arith)
                requires -250_000_000 <= dx <= 250_000_000;
            assert(0 <= (dy as int) * (dy as int) <= 250_000_000 * 250_000_000int)
                by (nonlinear_arith)
                requires -250_000_000 <= dy <= 250_000_000;
        }
        let d2: i64 = dx * dx + dy * dy;
        if d2 < COLLIDE_MILLI * COLLIDE_MILLI {
            return true;
        }
        j = j + 1;
    }
    false
}

/// Advances one unit by one tick of `dt_millis` milliseconds against the
/// static sea and obstacle collections; the result is exactly the
/// transition `step_spec` describes.
pub fn step_unit(
    u: &UnitState,
    sea: &Vec<SeaTile>,
    nature: &Vec<Nature>,
    dt_millis: u32,
) -> (r: UnitState)
    requires
        unit_wf(*u),
        colliders_wf(sea@, nature@),
        dt_millis <= TICK_LIMIT_MILLIS,
    ensures
        r == step_spec(*u, sea@, nature@, dt_millis as int),
{
    match u.target {
        None => *u,
        Some(t) => {
            let dx: i64 = t.x_milli - u.x_milli;
            let dy: i64 = t.y_milli - u.y_milli;
            proof {
                assert(0 <= (dx as int) * (dx as int) <= 100_000_000 * 100_000_000int)
                    by (nonlinear_arith)
                    requires -100_000_000 <= dx <= 100_000_000;
                assert(0 <= (dy as int) * (dy as int) <= 100_000_000 * 100_000_000int)
                    by (nonlinear_arith)
                    requires -100_000_000 <= dy <= 100_000_000;
            }
            let d2: i64 = dx * dx + dy * dy;
            proof {
                assert(d2 == dist_sq(
                    u.x_milli as int,
                    u.y_milli as int,
                    t.x_milli as int,
                    t.y_milli as int,
                )) by (nonlinear_arith)
                    requires
                        d2 == (dx as int) * (dx as int) + (dy as int) * (dy as int),
                        dx == t.x_milli - u.x_milli,
                        dy == t.y_milli - u.y_milli,
                        dist_sq(
                            u.x_milli as int,
                            u.y_milli as int,
                            t.x_milli as int,
                            t.y_milli as int,
                        ) == (u.x_milli - t.x_milli) * (u.x_milli - t.x_milli) + (u.y_milli
                            - t.y_milli) * (u.y_milli - t.y_milli);
            }
            if d2 <= ARRIVE_MILLI * ARRIVE_MILLI {
                UnitState { target: None, ..*u }
            } else {
                let d: u64 = isqrt(d2 as u64);
                proof {
                    lemma_sqrt_floor_bounds(d2 as nat);
                    assert((d2 as int) == (dx as int) * (dx as int) + (dy as int) * (dy as int));
                    assert((d2 as int) <= 2 * (100_000_000 * 100_000_000int));
                    assert((d as int) * (d as int) <= d2 as int);
                    assert((d2 as int) < ((d as int) + 1) * ((d as int) + 1));
                    lemma_step_geometry(dx as int, dy as int, d2 as int, d as int);
                }
                proof {
                    assert(0 <= (u.vehicle.speed as int) * (dt_millis as int)
                        <= 100_000_000int) by (nonlinear_arith)
                        requires 0 <= u.vehicle.speed <= 10_000 && 0 <= dt_millis <= 10_000;
                }
                let step: i64 = (u.vehicle.speed as i64) * (dt_millis as i64);
                let mx: i64 = signed_scale(dx, step, d as i64);
                let my: i64 = signed_scale(dy, step, d as i64);
                proof {
                    lemma_move_component_bound(dx as int, step as int, d as int);
                    lemma_move_component_bound(dy as int, step as int, d as int);
                }
                let cx: i64 = u.x_milli + mx;
                let cy: i64 = u.y_milli + my;
                if blocked(cx, cy, sea, nature) {
                    UnitState { target: None, ..*u }
                } else {
                    UnitState { x_milli: cx, y_milli: cy, ..*u }
                }
            }
        },
    }
}

/// The geometry facts one tick needs: past the arrival tolerance the
/// distance is at least one milli-unit, bounded by the position limits,
/// and each axis difference is bounded by the distance.
proof fn lemma_step_geometry(dx: int, dy: int, d2: int, d: int)
    requires
        d2 == dx * dx + dy * dy,
        -200_000_000 <= dx <= 200_000_000,
        -200_000_000 <= dy <= 200_000_000,
        d2 > ARRIVE_MILLI * ARRIVE_MILLI,
        0 <= d,
        d * d <= d2,
        d2 < (d + 1) * (d + 1),
    ensures
        1000 <= d <= 400_000_000,
        -d <= dx <= d,
        -d <= dy <= d,
{
    assert(0 <= dx * dx <= 200_000_000 * 200_000_000int) by (nonlinear_arith)
        requires -200_000_000 <= dx <= 200_000_000;
    assert(0 <= dy * dy <= 200_000_000 * 200_000_000int) by (nonlinear_arith)
        requires -200_000_000 <= dy <= 200_000_000;
    assert(d >= 1000) by (nonlinear_arith)
        requires d2 > 1_000_000 && d2 < (d + 1) * (d + 1) && 0 <= d;
    assert(d <= 400_000_000) by (nonlinear_arith)
        requires
            d * d <= d2,
            d2 <= 2 * (200_000_000 * 200_000_000int),
            0 <= d;
    assert(-d <= dx <= d) by (nonlinear_arith)
        requires
            dx * dx <= d2,
            d2 < (d + 1) * (d + 1),
            0 <= d;
    assert(-d <= dy <= d) by (nonlinear_arith)
        requires
            dy * dy <= d2,
            d2 < (d + 1) * (d + 1),
            0 <= d;
}

/// `(|delta| * step) / d` with the sign of `delta` restored.
fn signed_scale(delta: i64, step: i64, d: i64) -> (m: i64)
    requires
        1 <= d,
        0 <= step <= 100_000_000,
        -400_000_000 <= delta <= 400_000_000,
    ensures
        m == move_component(delta as int, step as int, d as int),
{
    if delta >= 0 {
        proof {
            assert(0 <= (delta as int) * (step as int) <= 400_000_000 * 100_000_000int)
                by (nonlinear_arith)
                requires 0 <= delta <= 400_000_000 && 0 <= step <= 100_000_000;
            vstd::arithmetic::div_mod::lemma_div_pos_is_pos(delta as int * step as int, d as int);
            vstd::arithmetic::div_mod::lemma_div_nonincreasing(delta as int * step as int, d as int);
        }
        (delta * step) / d
    } else {
        let nd: i64 = -delta;
        proof {
            assert(0 <= (nd as int) * (step as int) <= 400_000_000 * 100_000_000int)
                by (nonlinear_arith)
                requires 0 <= nd <= 400_000_000 && 0 <= step <= 100_000_000;
            vstd::arithmetic::div_mod::lemma_div_pos_is_pos(nd as int * step as int, d as int);
            vstd::arithmetic::div_mod::lemma_div_nonincreasing(nd as int * step as int, d as int);
        }
        -((nd * step) / d)
    }
}

/// The per-axis move never exceeds the step length in magnitude when the
/// axis difference is at most the distance.
proof fn lemma_move_component_bound(delta: int, step: int, d: int)
    requires
        1 <= d,
        0 <= step,
        -d <= delta <= d,
    ensures
        -step <= move_component(delta, step, d) <= step,
{
    if delta >= 0 {
        assert(delta * step <= d * step) by (nonlinear_arith)
            requires 0 <= delta <= d && 0 <= step;
        vstd::arithmetic::div_mod::lemma_div_pos_is_pos(delta * step, d);
        vstd::arithmetic::div_mod::lemma_multiply_divide_le(delta * step, d, step);
    } else {
        assert((-delta) * step <= d * step) by (nonlinear_arith)
            requires 0 <= -delta <= d && 0 <= step;
        vstd::arithmetic::div_mod::lemma_div_pos_is_pos((-delta) * step, d);
        vstd::arithmetic::div_mod::lemma_multiply_divide_le((-delta) * step, d, step);
    }
}

/// Marks a unit as Moving toward a destination: the Idle-to-Moving
/// transition driven by a move command.
pub fn set_move_target(u: &mut UnitState, target: MoveTarget)
    ensures
        final(u).target == Some(target),
        final(u).x_milli == old(u).x_milli,
        final(u).y_milli == old(u).y_milli,
        final(u).vehicle == old(u).vehicle,
{
    u.target = Some(target);
}

/// Advances every unit by one tick: each entry of the result is exactly
/// the `step_spec` transition of the corresponding input unit.
pub fn move_units(
    units: &Vec<UnitState>,
    sea: &Vec<SeaTile>,
    nature: &Vec<Nature>,
    dt_millis: u32,
) -> (r: Vec<UnitState>)
    requires
        forall|i: int| 0 <= i < units@.len() ==> unit_wf(#[trigger] units@[i]),
        colliders_wf(sea@, nature@),
        dt_millis <= TICK_LIMIT_MILLIS,
    ensures
        r@.len() == units@.len(),
        forall|i: int|
            0 <= i < units@.len() ==> #[trigger] r@[i] == step_spec(
                units@[i],
                sea@,
                nature@,
                dt_millis as int,
            ),
{
    let mut r: Vec<UnitState> = Vec::new();
    let len: usize = units.len();
    let mut i: usize = 0;
    while i < len
        invariant
            i <= len,
            len == units@.len(),
            forall|i2: int| 0 <= i2 < units@.len() ==> unit_wf(#[trigger] units@[i2]),
            colliders_wf(sea@, nature@),
            dt_millis <= TICK_LIMIT_MILLIS,
            r@.len() == i,
            forall|i2: int|
                0 <= i2 < i ==> #[trigger] r@[i2] == step_spec(
                    units@[i2],
                    sea@,
                    nature@,
                    dt_millis as int,
                ),
        decreases len - i,
    {
        let stepped = step_unit(&units[i], sea, nature, dt_millis);
        r.push(stepped);
        i = i + 1;
    }
    r
}

/// Arrival: a moving unit within the arrival tolerance of its target —
/// a zero-length step included — goes Idle within the tick: the target
/// is removed and the position unchanged.
pub proof fn lemma_movement_arrival(
    u: UnitState,
    t: MoveTarget,
    sea: Seq<SeaTile>,
    nature: Seq<Nature>,
    dt_millis: int,
)
    requires
        u.target == Some(t),
        dist_sq(u.x_milli as int, u.y_milli as int, t.x_milli as int, t.y_milli as int)
            <= ARRIVE_MILLI * ARRIVE_MILLI,
    ensures
        step_spec(u, sea, nature, dt_millis).target is None,
        step_spec(u, sea, nature, dt_millis).x_milli == u.x_milli,
        step_spec(u, sea, nature, dt_millis).y_milli == u.y_milli,
{
}

/// Collision safety: a unit that is outside the collision radius of a
/// sea tile or obstacle never crosses into that radius in one tick — a
/// blocked step leaves the position unchanged and clears the target
/// instead.
pub proof fn lemma_movement_collision(
    u: UnitState,
    sea: Seq<SeaTile>,
    nature: Seq<Nature>,
    dt_millis: int,
    j: int,
)
    requires
        unit_wf(u),
        0 <= dt_millis <= TICK_LIMIT_MILLIS,
        0 <= j < sea.len(),
        dist_sq(
            u.x_milli as int,
            u.y_milli as int,
            world_x_milli(sea[j].position.x as int),
            world_y_milli(sea[j].position.y as int),
        ) >= COLLIDE_MILLI * COLLIDE_MILLI,
    ensures
        dist_sq(
            step_spec(u, sea, nature, dt_millis).x_milli as int,
            step_spec(u, sea, nature, dt_millis).y_milli as int,
            world_x_milli(sea[j].position.x as int),
            world_y_milli(sea[j].position.y as int),
        ) >= COLLIDE_MILLI * COLLIDE_MILLI,
        (u.target is Some && step_spec(u, sea, nature, dt_millis) != u
            && step_spec(u, sea, nature, dt_millis).x_milli == u.x_milli
            && step_spec(u, sea, nature, dt_millis).y_milli == u.y_milli) ==> step_spec(
            u,
            sea,
            nature,
            dt_millis,
        ).target is None,
{
    let r = step_spec(u, sea, nature, dt_millis);
    match u.target {
        None => {},
        Some(t) => {
            let d2 = dist_sq(
                u.x_milli as int,
                u.y_milli as int,
                t.x_milli as int,
                t.y_milli as int,
            );
            if d2 <= ARRIVE_MILLI * ARRIVE_MILLI {
            } else {
                let c = candidate_pos(u, t, dt_millis);
                let dx = t.x_milli - u.x_milli;
                let dy = t.y_milli - u.y_milli;
                let d = sqrt_floor(d2 as nat) as int;
                let step = u.vehicle.speed * dt_millis;
                assert(d2 == dx * dx + dy * dy) by (nonlinear_arith)
                    requires
                        d2 == (u.x_milli - t.x_milli) * (u.x_milli - t.x_milli) + (u.y_milli
                            - t.y_milli) * (u.y_milli - t.y_milli),
                        dx == t.x_milli - u.x_milli,
                        dy == t.y_milli - u.y_milli;
                assert(0 <= step <= 100_000_000) by (nonlinear_arith)
                    requires
                        step == u.vehicle.speed * dt_millis,
                        0 <= u.vehicle.speed <= 10_000,
                        0 <= dt_millis <= 10_000;
                assert(0 <= dx * dx <= 100_000_000 * 100_000_000int) by (nonlinear_arith)
                    requires -100_000_000 <= dx <= 100_000_000;
                assert(0 <= dy * dy <= 100_000_000 * 100_000_000int) by (nonlinear_arith)
                    requires -100_000_000 <= dy <= 100_000_000;
                lemma_sqrt_floor_bounds(d2 as nat);
                lemma_step_geometry(dx, dy, d2, d);
                lemma_move_component_bound(dx, step, d);
                lemma_move_component_bound(dy, step, d);
                assert(c.0 as i64 == c.0);
                assert(c.1 as i64 == c.1);
                if blocked_at(c.0, c.1, sea, nature) {
                } else {
                    assert(!(dist_sq(
                        c.0,
                        c.1,
                        world_x_milli(sea[j].position.x as int),
                        world_y_milli(sea[j].position.y as int),
                    ) < COLLIDE_MILLI * COLLIDE_MILLI));
                }
            }
        },
    }
}

} // verus!
