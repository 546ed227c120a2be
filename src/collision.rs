//! The collision resolver as a specification: contacts, sub-steps, the move of one entity,
//! and the laws of movement.

use vstd::prelude::*;

use crate::direction::Direction;
use crate::frame::Frame;
use crate::motion::{
    blocks_x, blocks_y, damped, div_trunc, snap_down, snap_up, substep_count, x_direction,
    y_direction, Velocity, MAX_SPEED, REST_SPEED,
};
use crate::position::{normalized, tile_index_normalized, WorldPosition, MAX_HOPS, TILE_SIZE, UNIT};
use crate::types::{Contacts, FrameId};
use crate::world::Entity;

verus! {

/// Whether the tile `(x, y)` of frame `f`, followed across an edge where needed, is solid.
pub open spec fn solid_at(frames: Seq<Frame>, f: FrameId, x: int, y: int) -> Option<bool> {
    match tile_index_normalized(frames, f, x, y) {
        Some(t) => Some(frames[t.0.0 as int].tile_at(t.1, t.2).solid()),
        None => None,
    }
}

/// Index of the last tile that ends at or before coordinate `c` (the tile before it when
/// `c` lies on a boundary).
pub open spec fn tile_before(c: int) -> int {
    (c + UNIT + TILE_SIZE - 1) / TILE_SIZE as int - 1
}

/// Index of the tile that holds coordinate `c`.
pub open spec fn tile_after(c: int) -> int {
    (c + UNIT) / TILE_SIZE as int
}

/// The contacts around the in-bounds point `(p.1, p.2)` of frame `p.0`.
pub open spec fn contacts_of(frames: Seq<Frame>, p: (FrameId, int, int)) -> Option<Contacts> {
    let l = tile_before(p.1);
    let r = tile_after(p.1);
    let u = tile_before(p.2);
    let d = tile_after(p.2);
    match (
        solid_at(frames, p.0, l, u),
        solid_at(frames, p.0, r, u),
        solid_at(frames, p.0, l, d),
        solid_at(frames, p.0, r, d),
    ) {
        (Some(a), Some(b), Some(c), Some(e)) => Some(
            Contacts { top_left: a, top_right: b, bottom_left: c, bottom_right: e },
        ),
        _ => None,
    }
}

/// The contacts around the point `(x, y)` of frame `f`, once normalized.
#[verifier::opaque]
pub open spec fn contacts_at(frames: Seq<Frame>, f: FrameId, x: int, y: int) -> Option<Contacts> {
    match normalized(frames, f, x, y, MAX_HOPS as nat) {
        Some(p) => contacts_of(frames, p),
        None => None,
    }
}

/// Why a move could not be made.
#[derive(Copy, Clone, Debug, PartialEq, Eq, Structural)]
pub enum MoveError {
    /// A position met on the way lies outside both axes of a frame at once, or needs more
    /// edge crossings than normalization follows.
    UnresolvedPosition,
}

/// What a move fixes before its sub-steps: the frame its raw coordinates are taken in, the
/// displacement of one sub-step, its directions, and the directions of the last move.
pub struct MovePlan {
    pub frame: FrameId,
    pub dx: int,
    pub dy: int,
    pub dir_x: Direction,
    pub dir_y: Direction,
    pub last_x: Direction,
    pub last_y: Direction,
    pub last: Direction,
}

/// The state of a move between two sub-steps.
pub struct MoveState {
    pub x: int,
    pub y: int,
    pub vx: int,
    pub vy: int,
    pub set_x: Direction,
    pub set_y: Direction,
    pub grounded: bool,
}

/// A coordinate moved to the tile boundary behind it in `direction` of travel.
pub open spec fn snapped(direction: Direction, c: int) -> int {
    if direction == Direction::Right || direction == Direction::Down {
        snap_down(c)
    } else {
        snap_up(c)
    }
}

/// One sub-step: the x axis, then the y axis, each blocked or not by the decision tables.
#[verifier::opaque]
pub open spec fn substep(frames: Seq<Frame>, plan: MovePlan, s: MoveState) -> Option<MoveState> {
    match (
        contacts_at(frames, plan.frame, s.x, s.y),
        contacts_at(frames, plan.frame, s.x + plan.dx, s.y),
    ) {
        (Some(c0), Some(c1)) => {
            let bx = blocks_x(plan.dir_x, c0, c1, plan.last);
            let x = if bx {
                snapped(plan.dir_x, s.x + plan.dx)
            } else {
                s.x + plan.dx
            };
            match (
                contacts_at(frames, plan.frame, x, s.y),
                contacts_at(frames, plan.frame, x, s.y + plan.dy),
            ) {
                (Some(c2), Some(c3)) => {
                    let by = blocks_y(plan.dir_y, c2, c3, plan.last);
                    let y = if by {
                        snapped(plan.dir_y, s.y + plan.dy)
                    } else {
                        s.y + plan.dy
                    };
                    Some(
                        MoveState {
                            x,
                            y,
                            vx: if bx { 0 } else { s.vx },
                            vy: if by { 0 } else { s.vy },
                            set_x: if bx { s.set_x } else { plan.last_x },
                            set_y: if by { s.set_y } else { plan.last_y },
                            grounded: s.grounded || (by && plan.dir_y == Direction::Down),
                        },
                    )
                },
                _ => None,
            }
        },
        _ => None,
    }
}

/// The state after the first `n` sub-steps.
pub open spec fn run_substeps(frames: Seq<Frame>, plan: MovePlan, start: MoveState, n: nat) -> Option<MoveState>
    decreases n,
{
    if n == 0 {
        Some(start)
    } else {
        match run_substeps(frames, plan, start, (n - 1) as nat) {
            Some(s) => substep(frames, plan, s),
            None => None,
        }
    }
}

/// The direction of a whole move: the previous one when it moved on neither axis, else the
/// vertical one when there is one, else the horizontal one.
pub open spec fn combined_direction(dir_x: Direction, dir_y: Direction, previous: Direction) -> Direction {
    if dir_x == Direction::Neutral && dir_y == Direction::Neutral {
        previous
    } else if dir_y == Direction::Neutral {
        dir_x
    } else {
        dir_y
    }
}

/// The plan of the move of `e`: the displacement of one sub-step is the velocity divided by
/// the number of sub-steps, and the direction of each axis is the sign of the velocity.
pub open spec fn plan_of(e: Entity) -> MovePlan {
    let n = substep_count(e.velocity.x as int, e.velocity.y as int);
    let dx = div_trunc(e.velocity.x as int, n);
    let dy = div_trunc(e.velocity.y as int, n);
    MovePlan {
        frame: e.position.frame_id,
        dx,
        dy,
        dir_x: x_direction(e.velocity.x as int),
        dir_y: y_direction(e.velocity.y as int),
        last_x: e.last_movement_direction_x,
        last_y: e.last_movement_direction_y,
        last: e.last_movement_direction,
    }
}

/// The state of the move of `e` before its first sub-step.
pub open spec fn start_of(e: Entity) -> MoveState {
    let plan = plan_of(e);
    MoveState {
        x: e.position.x as int,
        y: e.position.y as int,
        vx: e.velocity.x as int,
        vy: e.velocity.y as int,
        set_x: plan.dir_x,
        set_y: plan.dir_y,
        grounded: false,
    }
}

/// The entity `e` after one tick of movement over `frames`: its velocity integrated in
/// sub-steps against the tiles, the result normalized, and the velocity damped. `None` when a
/// position on the way cannot be resolved.
#[verifier::opaque]
pub open spec fn moved(frames: Seq<Frame>, e: Entity) -> Option<Entity> {
    let plan = plan_of(e);
    let n = substep_count(e.velocity.x as int, e.velocity.y as int);
    match run_substeps(frames, plan, start_of(e), n as nat) {
        Some(s) => match normalized(frames, plan.frame, s.x, s.y, MAX_HOPS as nat) {
            Some(p) => Some(
                Entity {
                    position: WorldPosition { frame_id: p.0, x: p.1 as i64, y: p.2 as i64 },
                    velocity: Velocity { x: damped(s.vx) as i64, y: damped(s.vy) as i64 },
                    last_movement_direction: combined_direction(
                        plan.dir_x,
                        plan.dir_y,
                        e.last_movement_direction,
                    ),
                    last_movement_direction_x: s.set_x,
                    last_movement_direction_y: s.set_y,
                    grounded: s.grounded,
                    ..e
                },
            ),
            None => None,
        },
        None => None,
    }
}

/// A move records as its direction the vertical sign of the velocity when there is one, else
/// the horizontal sign, and keeps the previous direction when the entity stands still.
pub proof fn lemma_move_direction(frames: Seq<Frame>, e: Entity)
    requires
        moved(frames, e) is Some,
    ensures
        moved(frames, e).unwrap().last_movement_direction == combined_direction(
            x_direction(e.velocity.x as int),
            y_direction(e.velocity.y as int),
            e.last_movement_direction,
        ),
{
    reveal(moved);
}

/// `after` holds the entities of `before` before index `k` moved over `frames`, and the
/// others as they were.
pub open spec fn moved_before(frames: Seq<Frame>, before: Seq<Entity>, after: Seq<Entity>, k: int) -> bool {
    &&& after.len() == before.len()
    &&& forall|j: int|
        0 <= j < before.len() ==> #[trigger] after[j] == if j < k {
            moved(frames, before[j]).unwrap()
        } else {
            before[j]
        }
}

/// Once a sub-step fails, every longer run fails.
pub(crate) proof fn lemma_run_stays_failed(frames: Seq<Frame>, plan: MovePlan, start: MoveState, i: nat, m: nat)
    requires
        run_substeps(frames, plan, start, i) is None,
        i <= m,
    ensures
        run_substeps(frames, plan, start, m) is None,
    decreases m - i,
{
    if i < m {
        lemma_run_stays_failed(frames, plan, start, i, (m - 1) as nat);
    }
}

/// Bound on the magnitude of a velocity component after `k` ticks without impulse, from
/// `MAX_SPEED`: four fifths of the previous bound, or zero once that falls below `REST_SPEED`.
#[verifier::opaque]
pub open spec fn rest_bound(k: nat) -> int
    decreases k,
{
    if k == 0 {
        MAX_SPEED as int
    } else {
        let b = rest_bound((k - 1) as nat) * 4 / 5;
        if b < REST_SPEED {
            0
        } else {
            b
        }
    }
}

/// Whether both components of `v` are at most `b` in magnitude.
pub open spec fn speed_within(v: Velocity, b: int) -> bool {
    -b <= v.x <= b && -b <= v.y <= b
}

/// Ticks after which every velocity has come to rest when no impulse is applied.
pub const REST_TICKS: usize = 60;

/// During a move each velocity component either keeps its value or drops to zero.
proof fn lemma_run_keeps_or_stops(frames: Seq<Frame>, plan: MovePlan, start: MoveState, n: nat)
    ensures
        run_substeps(frames, plan, start, n) matches Some(s) ==> {
            &&& (s.vx == start.vx || s.vx == 0)
            &&& (s.vy == start.vy || s.vy == 0)
        },
    decreases n,
{
    reveal(substep);
    if n > 0 {
        lemma_run_keeps_or_stops(frames, plan, start, (n - 1) as nat);
    }
}

/// Damping maps a component of magnitude at most `b` to one of magnitude at most the next
/// bound.
proof fn lemma_damped_below(v: int, b: int)
    requires
        0 <= b,
        -b <= v <= b,
    ensures
        ({
            let nb = if b * 4 / 5 < REST_SPEED { 0 } else { b * 4 / 5 };
            -nb <= damped(v) <= nb
        }),
{
    if v >= 0 {
        vstd::arithmetic::div_mod::lemma_div_is_ordered(v * 4, b * 4, 5);
    } else {
        vstd::arithmetic::div_mod::lemma_div_is_ordered(-v * 4, b * 4, 5);
    }
}

/// Moving an entity is deterministic: the same frames and the same entity state give the
/// same outcome. The grounded flag it had before does not matter, since a move sets it anew.
pub proof fn lemma_move_deterministic(frames_a: Seq<Frame>, frames_b: Seq<Frame>, a: Entity, b: Entity)
    requires
        frames_a == frames_b,
        (Entity { grounded: false, ..a }) == (Entity { grounded: false, ..b }),
    ensures
        moved(frames_a, a) == moved(frames_b, b),
{
    reveal(moved);
    assert(plan_of(a) == plan_of(b));
    assert(start_of(a) == start_of(b));
}

/// A move leaves every velocity component of a bounded entity at four fifths of `MAX_SPEED`
/// at most.
pub proof fn lemma_moved_bounded(frames: Seq<Frame>, e: Entity)
    requires
        e.velocity.bounded(),
        moved(frames, e) is Some,
    ensures
        speed_within(moved(frames, e).unwrap().velocity, 800_000),
{
    reveal(rest_bound);
    assert(rest_bound(0) == MAX_SPEED);
    assert(rest_bound(1) == 800_000);
    lemma_moved_slows(frames, e, 0);
}

/// One move takes a velocity within `rest_bound(k)` to one within `rest_bound(k + 1)`.
proof fn lemma_moved_slows(frames: Seq<Frame>, e: Entity, k: nat)
    requires
        speed_within(e.velocity, rest_bound(k)),
        moved(frames, e) is Some,
    ensures
        speed_within(moved(frames, e).unwrap().velocity, rest_bound(k + 1)),
{
    reveal(moved);
    reveal(rest_bound);
    let b = rest_bound(k);
    let plan = plan_of(e);
    let n = substep_count(e.velocity.x as int, e.velocity.y as int);
    lemma_run_keeps_or_stops(frames, plan, start_of(e), n as nat);
    let s = run_substeps(frames, plan, start_of(e), n as nat).unwrap();
    lemma_rest_bound_nonnegative(k);
    lemma_damped_below(s.vx, b);
    lemma_damped_below(s.vy, b);
}

proof fn lemma_rest_bound_nonnegative(k: nat)
    ensures
        rest_bound(k) >= 0,
    decreases k,
{
    reveal(rest_bound);
    if k > 0 {
        lemma_rest_bound_nonnegative((k - 1) as nat);
    }
}

/// Without impulses, damping brings every velocity exactly to rest in a bounded number of
/// ticks: along a run of moves each component stays within `rest_bound` of the ticks so far,
/// and after `REST_TICKS` ticks the velocity is zero.
pub proof fn lemma_comes_to_rest(frames: Seq<Frame>, es: Seq<Entity>)
    requires
        es.len() > 0,
        es[0].velocity.bounded(),
        forall|k: int| 0 <= k < es.len() - 1 ==> moved(frames, #[trigger] es[k]) == Some(es[k + 1]),
    ensures
        forall|k: int| 0 <= k < es.len() ==> speed_within((#[trigger] es[k]).velocity, rest_bound(k as nat)),
        es.len() > REST_TICKS ==> (es[REST_TICKS as int].velocity == Velocity { x: 0, y: 0 }),
{
    assert forall|k: int| 0 <= k < es.len() implies speed_within(
        (#[trigger] es[k]).velocity,
        rest_bound(k as nat),
    ) by {
        lemma_speed_at(frames, es, k as nat);
    }
    if es.len() > REST_TICKS {
        lemma_rest_bound_reaches_zero();
        assert(speed_within(es[REST_TICKS as int].velocity, rest_bound(REST_TICKS as nat)));
    }
}

/// The speed bound along a run of moves, one tick at a time.
proof fn lemma_speed_at(frames: Seq<Frame>, es: Seq<Entity>, k: nat)
    requires
        k < es.len(),
        es[0].velocity.bounded(),
        forall|j: int| 0 <= j < es.len() - 1 ==> moved(frames, #[trigger] es[j]) == Some(es[j + 1]),
    ensures
        speed_within(es[k as int].velocity, rest_bound(k)),
    decreases k,
{
    if k == 0 {
        reveal(rest_bound);
    } else {
        lemma_speed_at(frames, es, (k - 1) as nat);
        assert(moved(frames, es[k - 1]) == Some(es[k as int]));
        lemma_moved_slows(frames, es[k - 1], (k - 1) as nat);
    }
}

/// The bound reaches zero within `REST_TICKS` ticks.
proof fn lemma_rest_bound_reaches_zero()
    ensures
        rest_bound(REST_TICKS as nat) == 0,
{
    reveal(rest_bound);
    reveal_with_fuel(rest_bound, 61);
}

/// After a move, an entity is grounded exactly when a downward step of one of its sub-steps
/// was blocked.
pub proof fn lemma_grounded_means_landed(frames: Seq<Frame>, e: Entity)
    requires
        moved(frames, e) is Some,
    ensures
        moved(frames, e).unwrap().grounded == run_substeps(
            frames,
            plan_of(e),
            start_of(e),
            substep_count(e.velocity.x as int, e.velocity.y as int) as nat,
        ).unwrap().grounded,
        moved(frames, e).unwrap().grounded ==> plan_of(e).dir_y == Direction::Down,
{
    reveal(moved);
    lemma_run_grounded(frames, plan_of(e), start_of(e), substep_count(e.velocity.x as int, e.velocity.y as int) as nat);
}

/// A run of sub-steps ends grounded only when it started grounded or moved down.
proof fn lemma_run_grounded(frames: Seq<Frame>, plan: MovePlan, start: MoveState, n: nat)
    ensures
        run_substeps(frames, plan, start, n) matches Some(s) ==> (s.grounded ==> start.grounded
            || plan.dir_y == Direction::Down),
    decreases n,
{
    reveal(substep);
    if n > 0 {
        lemma_run_grounded(frames, plan, start, (n - 1) as nat);
    }
}


} // verus!
