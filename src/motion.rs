//! Arithmetic of movement: sub-step counts, rounding, snapping to tile boundaries, damping,
//! and the collision decision tables.

use vstd::prelude::*;

use crate::direction::Direction;
use crate::position::{RAW_LIMIT, TILE_SIZE};
use crate::types::Contacts;

verus! {

/// Largest magnitude of a velocity component, in position units per tick.
pub const MAX_SPEED: i64 = 1_000_000;

/// Most sub-steps that one tick of movement is cut into.
pub const MAX_SUBSTEPS: i64 = 16;


/// Velocity components below this magnitude after damping are set to zero.
pub const REST_SPEED: i64 = 10;

/// A velocity in position units per tick; `y` grows downwards.
#[derive(Copy, Clone, Debug, PartialEq, Eq, Structural)]
pub struct Velocity {
    pub x: i64,
    pub y: i64,
}

impl Velocity {
    pub fn zero() -> (r: Velocity)
        ensures
            r.x == 0 && r.y == 0,
    {
        Velocity { x: 0, y: 0 }
    }

    pub open spec fn bounded(self) -> bool {
        -MAX_SPEED <= self.x <= MAX_SPEED && -MAX_SPEED <= self.y <= MAX_SPEED
    }
}

/// Whether `n` sub-steps of one tile each cover the distance of velocity `(vx, vy)`.
pub open spec fn covers(n: int, vx: int, vy: int) -> bool {
    n * n * (TILE_SIZE * TILE_SIZE) >= vx * vx + vy * vy
}

/// The least count from `n` on that covers the velocity, capped at `MAX_SUBSTEPS`.
pub open spec fn first_cover(n: int, vx: int, vy: int) -> int
    decreases MAX_SUBSTEPS - n,
{
    if n >= MAX_SUBSTEPS || covers(n, vx, vy) {
        n
    } else {
        first_cover(n + 1, vx, vy)
    }
}

/// Number of sub-steps of a tick: the least `n >= 1` with `n` tiles at least the speed.
pub open spec fn substep_count(vx: int, vy: int) -> int {
    first_cover(1, vx, vy)
}

/// `a / n` rounded towards zero.
pub open spec fn div_trunc(a: int, n: int) -> int {
    if a >= 0 {
        a / n
    } else {
        -((-a) / n)
    }
}

/// The direction of a step along the x axis.
pub open spec fn x_direction(dx: int) -> Direction {
    if dx == 0 {
        Direction::Neutral
    } else if dx > 0 {
        Direction::Right
    } else {
        Direction::Left
    }
}

/// The direction of a step along the y axis; `y` grows downwards.
pub open spec fn y_direction(dy: int) -> Direction {
    if dy == 0 {
        Direction::Neutral
    } else if dy > 0 {
        Direction::Down
    } else {
        Direction::Up
    }
}

/// The largest multiple of `TILE_SIZE` at most `c`.
pub open spec fn snap_down(c: int) -> int {
    (c / TILE_SIZE as int) * TILE_SIZE
}

/// The least multiple of `TILE_SIZE` at least `c`.
pub open spec fn snap_up(c: int) -> int {
    -snap_down(-c)
}

/// A velocity component after one tick of damping by four fifths, rounded towards zero,
/// and set to zero below `REST_SPEED`.
pub open spec fn damped(v: int) -> int {
    let d = div_trunc(v * 4, 5);
    if -REST_SPEED < d < REST_SPEED {
        0
    } else {
        d
    }
}

/// Whether a step along x in `direction` is blocked, from the contacts before and after the
/// step and the last direction of movement.
pub open spec fn blocks_x(direction: Direction, start: Contacts, end: Contacts, last: Direction) -> bool {
    match direction {
        Direction::Right => {
            ||| start.top_left && start.top_right && end.bottom_right
            ||| start.top_left && end.bottom_right && (last == Direction::Right || last == Direction::Up)
            ||| start.bottom_left && start.bottom_right && end.top_right
            ||| start.bottom_left && end.top_right && (last == Direction::Down || last == Direction::Right)
            ||| end.top_right && end.bottom_right
        },
        Direction::Left => {
            ||| start.top_left && start.top_right && end.bottom_left
            ||| start.top_right && end.bottom_left && (last == Direction::Left || last == Direction::Up)
            ||| start.bottom_left && start.bottom_right && end.top_left
            ||| start.bottom_right && end.top_left && (last == Direction::Left || last == Direction::Down)
            ||| end.top_left && end.bottom_left
        },
        _ => false,
    }
}

/// Whether a step along y in `direction` is blocked; the table of `blocks_x` with the axes
/// exchanged.
pub open spec fn blocks_y(direction: Direction, start: Contacts, end: Contacts, last: Direction) -> bool {
    match direction {
        Direction::Down => {
            ||| start.top_right && start.bottom_right && end.bottom_left
            ||| start.top_right && end.bottom_left && (last == Direction::Down || last == Direction::Right)
            ||| start.top_left && start.bottom_left && end.bottom_right
            ||| start.top_left && end.bottom_right && (last == Direction::Down || last == Direction::Left)
            ||| end.bottom_left && end.bottom_right
        },
        Direction::Up => {
            ||| start.top_right && start.bottom_right && end.top_left
            ||| start.bottom_right && end.top_left && (last == Direction::Up || last == Direction::Right)
            ||| start.top_left && start.bottom_left && end.top_right
            ||| start.bottom_left && end.top_right && (last == Direction::Up || last == Direction::Left)
            ||| end.top_left && end.top_right
        },
        _ => false,
    }
}

/// The number of sub-steps for velocity `v`.
pub fn substeps_for(v: Velocity) -> (n: i64)
    requires
        v.bounded(),
    ensures
        n == substep_count(v.x as int, v.y as int),
        1 <= n <= MAX_SUBSTEPS,
{
    assert(0 <= v.x * v.x <= 1_000_000_000_000 && 0 <= v.y * v.y <= 1_000_000_000_000) by (nonlinear_arith)
        requires
            -1_000_000 <= v.x <= 1_000_000,
            -1_000_000 <= v.y <= 1_000_000,
    ;
    let square: i64 = v.x * v.x + v.y * v.y;
    let mut n: i64 = 1;
    while n < MAX_SUBSTEPS && n * n * (TILE_SIZE * TILE_SIZE) < square
        invariant
            1 <= n <= MAX_SUBSTEPS,
            1 <= n * n <= 256,
            square == v.x * v.x + v.y * v.y,
            first_cover(n as int, v.x as int, v.y as int) == substep_count(v.x as int, v.y as int),
        decreases MAX_SUBSTEPS - n,
    {
        n = n + 1;
        assert(1 <= n * n <= 256) by (nonlinear_arith)
            requires
                1 <= n <= 16,
        ;
    }
    n
}

/// `a / n` rounded towards zero.
pub fn divide_towards_zero(a: i64, n: i64) -> (r: i64)
    requires
        n > 0,
        -MAX_SPEED * 5 <= a <= MAX_SPEED * 5,
    ensures
        r == div_trunc(a as int, n as int),
        a >= 0 ==> 0 <= r <= a,
        a < 0 ==> a <= r <= 0,
{
    if a >= 0 {
        proof {
            vstd::arithmetic::div_mod::lemma_div_pos_is_pos(a as int, n as int);
            vstd::arithmetic::div_mod::lemma_div_nonincreasing(a as int, n as int);
        }
        a / n
    } else {
        proof {
            vstd::arithmetic::div_mod::lemma_div_pos_is_pos(-a as int, n as int);
            vstd::arithmetic::div_mod::lemma_div_nonincreasing(-a as int, n as int);
        }
        -((-a) / n)
    }
}

/// The direction of a step along the x axis.
pub fn direction_of_x(dx: i64) -> (r: Direction)
    ensures
        r == x_direction(dx as int),
{
    if dx == 0 {
        Direction::Neutral
    } else if dx > 0 {
        Direction::Right
    } else {
        Direction::Left
    }
}

/// The direction of a step along the y axis.
pub fn direction_of_y(dy: i64) -> (r: Direction)
    ensures
        r == y_direction(dy as int),
{
    if dy == 0 {
        Direction::Neutral
    } else if dy > 0 {
        Direction::Down
    } else {
        Direction::Up
    }
}

/// The tile boundary at or before `c`.
pub fn snap_to_boundary_below(c: i64) -> (r: i64)
    requires
        -RAW_LIMIT <= c <= RAW_LIMIT,
    ensures
        r == snap_down(c as int),
        c - TILE_SIZE < r <= c,
{
    let shifted = c + RAW_LIMIT;
    let r = (shifted / TILE_SIZE) * TILE_SIZE - RAW_LIMIT;
    assert((shifted as int) / (TILE_SIZE as int) == (c as int) / (TILE_SIZE as int) + 160);
    r
}

/// The tile boundary at or after `c`.
pub fn snap_to_boundary_above(c: i64) -> (r: i64)
    requires
        -RAW_LIMIT <= c <= RAW_LIMIT,
    ensures
        r == snap_up(c as int),
        c <= r < c + TILE_SIZE,
{
    -snap_to_boundary_below(-c)
}

/// One tick of damping of a velocity component.
pub fn damp(v: i64) -> (r: i64)
    requires
        -MAX_SPEED <= v <= MAX_SPEED,
    ensures
        r == damped(v as int),
        -MAX_SPEED <= r <= MAX_SPEED,
{
    let d = divide_towards_zero(v * 4, 5);
    if -REST_SPEED < d && d < REST_SPEED {
        0
    } else {
        d
    }
}

/// The decision table for a step along x.
pub fn collision_x(direction: Direction, start: Contacts, end: Contacts, last: Direction) -> (r: bool)
    ensures
        r == blocks_x(direction, start, end, last),
{
    match (direction, start.as_tuple(), end.as_tuple(), last) {
        (Direction::Right, (true, true, _, _), (_, _, _, true), _) => true,
        (Direction::Right, (true, _, _, _), (_, _, _, true), Direction::Right) => true,
        (Direction::Right, (true, _, _, _), (_, _, _, true), Direction::Up) => true,
        (Direction::Right, (_, _, true, true), (_, true, _, _), _) => true,
        (Direction::Right, (_, _, true, _), (_, true, _, _), Direction::Down) => true,
        (Direction::Right, (_, _, true, _), (_, true, _, _), Direction::Right) => true,
        (Direction::Right, _, (_, true, _, true), _) => true,
        (Direction::Left, (true, true, _, _), (_, _, true, _), _) => true,
        (Direction::Left, (_, true, _, _), (_, _, true, _), Direction::Left) => true,
        (Direction::Left, (_, true, _, _), (_, _, true, _), Direction::Up) => true,
        (Direction::Left, (_, _, true, true), (true, _, _, _), _) => true,
        (Direction::Left, (_, _, _, true), (true, _, _, _), Direction::Left) => true,
        (Direction::Left, (_, _, _, true), (true, _, _, _), Direction::Down) => true,
        (Direction::Left, _, (true, _, true, _), _) => true,
        _ => false,
    }
}

/// The decision table for a step along y.
pub fn collision_y(direction: Direction, start: Contacts, end: Contacts, last: Direction) -> (r: bool)
    ensures
        r == blocks_y(direction, start, end, last),
{
    match (direction, start.as_tuple(), end.as_tuple(), last) {
        (Direction::Down, (_, true, _, true), (_, _, true, _), _) => true,
        (Direction::Down, (_, true, _, _), (_, _, true, _), Direction::Down) => true,
        (Direction::Down, (_, true, _, _), (_, _, true, _), Direction::Right) => true,
        (Direction::Down, (true, _, true, _), (_, _, _, true), _) => true,
        (Direction::Down, (true, _, _, _), (_, _, _, true), Direction::Down) => true,
        (Direction::Down, (true, _, _, _), (_, _, _, true), Direction::Left) => true,
        (Direction::Down, _, (_, _, true, true), _) => true,
        (Direction::Up, (_, true, _, true), (true, _, _, _), _) => true,
        (Direction::Up, (_, _, _, true), (true, _, _, _), Direction::Up) => true,
        (Direction::Up, (_, _, _, true), (true, _, _, _), Direction::Right) => true,
        (Direction::Up, (true, _, true, _), (_, true, _, _), _) => true,
        (Direction::Up, (_, _, true, _), (_, true, _, _), Direction::Up) => true,
        (Direction::Up, (_, _, true, _), (_, true, _, _), Direction::Left) => true,
        (Direction::Up, _, (true, true, _, _), _) => true,
        _ => false,
    }
}

} // verus!
