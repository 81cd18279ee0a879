use vstd::prelude::*;
use crate::clock::GridClock;
use crate::player::PlayerState;
use crate::world::{EntityId, OldPosition, Position};

verus! {

/// Side of a grid cell, in pixels.
pub const TILE: i128 = 32;

/// A point on screen in pixels, held exactly as `x_num / den`, `y_num / den`.
#[derive(Clone, Copy, Debug, PartialEq, Eq, Structural)]
pub struct ScreenPoint {
    pub x_num: i128,
    pub y_num: i128,
    pub den: u64,
}

/// Denominator of the clock's elapsed fraction; a zero-length clock counts as one.
pub open spec fn frac_den(t: GridClock) -> int {
    if t.duration == 0 {
        1
    } else {
        t.duration as int
    }
}

/// Numerator of the elapsed fraction, clamped to the whole; a zero-length
/// clock counts as complete.
pub open spec fn frac_num(t: GridClock) -> int {
    if t.duration == 0 {
        1
    } else if t.elapsed > t.duration {
        t.duration as int
    } else {
        t.elapsed as int
    }
}

/// Numerator (over `frac_den`) of `TILE * lerp(from, to, fraction)` on one axis.
pub open spec fn lerp_num(from: int, to: int, t: GridClock) -> int {
    from * TILE * frac_den(t) + (to - from) * TILE * frac_num(t)
}

/// How a carried item moves relative to its holder.
#[derive(Clone, Copy, Debug, PartialEq, Eq, Structural)]
pub enum CarryMotion {
    /// Held still in the hand.
    Holding,
    /// Rising from the ground into the hand.
    Lifting,
    /// Going down from the hand to the ground.
    Lowering,
}

pub open spec fn carry_motion_spec(state: PlayerState, item: EntityId) -> CarryMotion {
    match state {
        PlayerState::Pick(_) => CarryMotion::Lifting,
        PlayerState::Drop => CarryMotion::Lowering,
        PlayerState::PickAndDrop(g) => if g == item {
            CarryMotion::Lifting
        } else {
            CarryMotion::Lowering
        },
        _ => CarryMotion::Holding,
    }
}

proof fn lemma_lerp_bounds(from: int, to: int, den: int, num: int)
    requires
        i32::MIN <= from <= i32::MAX,
        i32::MIN <= to <= i32::MAX,
        1 <= den <= u64::MAX,
        0 <= num <= den,
    ensures
        -0x1_0000_0000_0000_0000_0000_0000_0000 <= from * TILE * den <= 0x1_0000_0000_0000_0000_0000_0000_0000,
        -0x1_0000_0000_0000_0000_0000_0000_0000 <= (to - from) * TILE * num <= 0x1_0000_0000_0000_0000_0000_0000_0000,
{
    assert(-0x8000_0000 * 32 <= from * TILE <= 0x8000_0000 * 32) by (nonlinear_arith)
        requires i32::MIN <= from <= i32::MAX;
    assert(-0x1_0000_0000 * 32 <= (to - from) * TILE <= 0x1_0000_0000 * 32) by (nonlinear_arith)
        requires i32::MIN <= from <= i32::MAX, i32::MIN <= to <= i32::MAX;
    let a = from * TILE;
    let b = (to - from) * TILE;
    assert(-0x1_0000_0000_0000_0000_0000_0000_0000 <= a * den <= 0x1_0000_0000_0000_0000_0000_0000_0000) by (nonlinear_arith)
        requires -0x8000_0000 * 32 <= a <= 0x8000_0000 * 32, 1 <= den <= u64::MAX;
    assert(-0x1_0000_0000_0000_0000_0000_0000_0000 <= b * num <= 0x1_0000_0000_0000_0000_0000_0000_0000) by (nonlinear_arith)
        requires -0x1_0000_0000 * 32 <= b <= 0x1_0000_0000 * 32, 0 <= num <= u64::MAX;
}

/// On-screen position of an entity between its old and current cells, from the
/// clock's elapsed fraction (clamped to 1, and 1 for a zero-length clock).
/// Depends on its arguments alone, so it can be recomputed every frame.
pub fn world_position_transform_delta(pos: Position, old_pos: OldPosition, timer: &GridClock) -> (r: ScreenPoint)
    ensures
        r.den as int == frac_den(*timer),
        r.x_num as int == lerp_num(old_pos.x as int, pos.x as int, *timer),
        r.y_num as int == lerp_num(old_pos.y as int, pos.y as int, *timer),
{
    let den: u64 = if timer.duration == 0 { 1 } else { timer.duration };
    let num: u64 = if timer.duration == 0 {
        1
    } else if timer.elapsed > timer.duration {
        timer.duration
    } else {
        timer.elapsed
    };
    proof {
        lemma_lerp_bounds(old_pos.x as int, pos.x as int, den as int, num as int);
        lemma_lerp_bounds(old_pos.y as int, pos.y as int, den as int, num as int);
    }
    let x_num: i128 = (old_pos.x as i128) * TILE * (den as i128) + ((pos.x as i128) - (
    old_pos.x as i128)) * TILE * (num as i128);
    let y_num: i128 = (old_pos.y as i128) * TILE * (den as i128) + ((pos.y as i128) - (
    old_pos.y as i128)) * TILE * (num as i128);
    ScreenPoint { x_num, y_num, den }
}

/// On-screen position of an entity resting on a cell.
pub fn world_position_transform(pos: Position) -> (r: ScreenPoint)
    ensures
        r.den == 1,
        r.x_num == pos.x * TILE,
        r.y_num == pos.y * TILE,
{
    ScreenPoint { x_num: (pos.x as i128) * TILE, y_num: (pos.y as i128) * TILE, den: 1 }
}

/// How an item carried by an agent in `state` moves: it rises during a pick
/// (and during a swap, if it is the item being picked up), goes down during a
/// drop (and during a swap, if it is the item being let go), and is held still
/// otherwise.
pub fn item_position_transform(state: PlayerState, item: EntityId) -> (r: CarryMotion)
    ensures
        r == carry_motion_spec(state, item),
{
    match state {
        PlayerState::Pick(_) => CarryMotion::Lifting,
        PlayerState::Drop => CarryMotion::Lowering,
        PlayerState::PickAndDrop(g) => {
            if g == item {
                CarryMotion::Lifting
            } else {
                CarryMotion::Lowering
            }
        },
        _ => CarryMotion::Holding,
    }
}

/// Which sprite animation shows an agent's action.
#[derive(Clone, Copy, Debug, PartialEq, Eq, Structural)]
pub enum PlayerAnimation {
    Idle,
    Walk,
    Pick,
}

pub open spec fn animation_spec(state: PlayerState) -> PlayerAnimation {
    match state {
        PlayerState::Idle => PlayerAnimation::Idle,
        PlayerState::Walk(_, _) => PlayerAnimation::Walk,
        _ => PlayerAnimation::Pick,
    }
}

/// The animation for an action: picking, dropping and swapping share one.
pub fn animation_for(state: PlayerState) -> (r: PlayerAnimation)
    ensures
        r == animation_spec(state),
{
    match state {
        PlayerState::Idle => PlayerAnimation::Idle,
        PlayerState::Walk(_, _) => PlayerAnimation::Walk,
        _ => PlayerAnimation::Pick,
    }
}

/// With nothing elapsed on a running clock the entity is drawn at its old
/// cell; once the clock is done, at its current cell; in between it moves
/// monotonically from one to the other along each axis.
pub proof fn lemma_interpolation_endpoints_and_monotone(
    from: i32,
    to: i32,
    t1: GridClock,
    t2: GridClock,
)
    requires
        t1.duration == t2.duration,
        t1.elapsed <= t2.elapsed,
    ensures
        t1.duration > 0 && t1.elapsed == 0 ==> lerp_num(from as int, to as int, t1) == from
            * TILE * frac_den(t1),
        t1.elapsed >= t1.duration ==> lerp_num(from as int, to as int, t1) == to * TILE
            * frac_den(t1),
        frac_den(t1) == frac_den(t2),
        from <= to ==> lerp_num(from as int, to as int, t1) <= lerp_num(from as int, to as int, t2),
        from >= to ==> lerp_num(from as int, to as int, t1) >= lerp_num(from as int, to as int, t2),
{
    let d = (to - from) * TILE;
    let n1 = frac_num(t1);
    let n2 = frac_num(t2);
    assert(n1 <= n2);
    assert(d >= 0 ==> d * n1 <= d * n2) by (nonlinear_arith)
        requires n1 <= n2;
    assert(d <= 0 ==> d * n1 >= d * n2) by (nonlinear_arith)
        requires n1 <= n2;
    assert((to - from) * TILE * n1 == d * n1);
    assert((to - from) * TILE * n2 == d * n2);
    if t1.duration > 0 && t1.elapsed == 0 {
        assert(n1 == 0);
        assert((to - from) * TILE * n1 == 0) by (nonlinear_arith)
            requires n1 == 0;
    }
    if t1.elapsed >= t1.duration {
        assert(from * TILE * frac_den(t1) + (to - from) * TILE * frac_den(t1) == to * TILE
            * frac_den(t1)) by (nonlinear_arith);
    }
}

} // verus!
