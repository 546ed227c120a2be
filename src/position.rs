//! Fixed-point positions and their normalization across frame edges, for points and for
//! tile indices.

use vstd::prelude::*;

use crate::direction::{Angle, Direction};
use crate::frame::{Frame, FrameLink, FRAME_WIDTH};
use crate::types::FrameId;

verus! {

/// Half the side of a frame in position units: a frame spans `[-UNIT, UNIT)` on each axis.
/// Positions are fixed-point numbers, `UNIT` of them making one world unit.
pub const UNIT: i64 = 1_000_000;

/// Side of one tile in position units: `2 * UNIT / FRAME_WIDTH`.
pub const TILE_SIZE: i64 = 125_000;

/// Most edge crossings that one normalization follows.
pub const MAX_HOPS: usize = 4;

/// Largest magnitude of a raw coordinate: a multiple of `TILE_SIZE` beyond anything one tick
/// of movement reaches.
pub const RAW_LIMIT: i64 = 20_000_000;

/// A normalized position: a frame and coordinates in `[-UNIT, UNIT)`.
#[derive(Copy, Clone, Debug, PartialEq, Eq, Structural)]
pub struct WorldPosition {
    pub frame_id: FrameId,
    pub x: i64,
    pub y: i64,
}

/// A candidate position whose coordinates may lie outside its frame.
#[derive(Copy, Clone, Debug, PartialEq, Eq, Structural)]
pub struct RawWorldPosition {
    pub root_frame_id: FrameId,
    pub x: i64,
    pub y: i64,
}

/// Whether `(x, y)` lies inside a frame.
pub open spec fn in_bounds(x: int, y: int) -> bool {
    -UNIT <= x < UNIT && -UNIT <= y < UNIT
}

pub open spec fn coordinate_in_bounds(c: int) -> bool {
    -UNIT <= c < UNIT
}

/// The edge through which a point outside its frame leaves it, checked in the order
/// right, left, down, up; `Neutral` for a point inside.
pub open spec fn exit_edge(x: int, y: int) -> Direction {
    if x >= UNIT {
        Direction::Right
    } else if x < -UNIT {
        Direction::Left
    } else if y >= UNIT {
        Direction::Down
    } else if y < -UNIT {
        Direction::Up
    } else {
        Direction::Neutral
    }
}

/// The point expressed relative to the frame beyond `edge`, before any rotation.
pub open spec fn shifted(edge: Direction, x: int, y: int) -> (int, int) {
    match edge {
        Direction::Right => (x - 2 * UNIT, y),
        Direction::Left => (x + 2 * UNIT, y),
        Direction::Down => (x, y - 2 * UNIT),
        Direction::Up => (x, y + 2 * UNIT),
        Direction::Neutral => (x, y),
    }
}

/// The point turned clockwise by `angle` about the centre of its frame.
pub open spec fn rotate(angle: Angle, x: int, y: int) -> (int, int) {
    match angle {
        Angle::Clockwise0 => (x, y),
        Angle::Clockwise90 => (-y, x),
        Angle::Clockwise180 => (-x, -y),
        Angle::Clockwise270 => (y, -x),
    }
}

/// The rotation applied when leaving through `exit` and entering through `entry`.
pub open spec fn crossing_angle(exit: Direction, entry: Direction) -> Angle {
    exit.angle_towards(entry.turned(Angle::Clockwise180))
}

/// Coordinates of a point after it leaves its frame through `exit` and enters the neighbour
/// through `entry`.
pub open spec fn transfer(exit: Direction, entry: Direction, x: int, y: int) -> (int, int) {
    let s = shifted(exit, x, y);
    rotate(crossing_angle(exit, entry), s.0, s.1)
}

/// The link of frame `f` across `edge`, if `f` names a frame of `frames`.
pub open spec fn link_of(frames: Seq<Frame>, f: FrameId, edge: Direction) -> Option<FrameLink> {
    if f.0 < frames.len() {
        frames[f.0 as int].borders.link(edge)
    } else {
        None
    }
}

/// One crossing of frame `f`'s edge `edge` by the point `(x, y)`: where it lands.
pub open spec fn cross(frames: Seq<Frame>, f: FrameId, edge: Direction, x: int, y: int) -> Option<(FrameId, int, int)> {
    match link_of(frames, f, edge) {
        Some(l) => {
            let t = transfer(edge, l.entry_edge, x, y);
            Some((l.frame, t.0, t.1))
        },
        None => None,
    }
}

/// The frame and in-bounds coordinates that `(x, y)` in frame `f` denotes, following at most
/// `hops` edge crossings. `None` when the point lies outside both axes of a frame at once,
/// when a crossing has no link, or when more crossings would be needed.
pub open spec fn normalized(frames: Seq<Frame>, f: FrameId, x: int, y: int, hops: nat) -> Option<(FrameId, int, int)>
    decreases hops,
{
    if in_bounds(x, y) {
        if f.0 < frames.len() {
            Some((f, x, y))
        } else {
            None
        }
    } else if !coordinate_in_bounds(x) && !coordinate_in_bounds(y) {
        None
    } else if hops == 0 {
        None
    } else {
        match cross(frames, f, exit_edge(x, y), x, y) {
            Some(c) => normalized(frames, c.0, c.1, c.2, (hops - 1) as nat),
            None => None,
        }
    }
}

/// Whether the position that `p` describes is `n`.
pub open spec fn is_position(p: Option<(FrameId, int, int)>, n: Option<WorldPosition>) -> bool {
    match (p, n) {
        (Some(p), Some(n)) => p.0 == n.frame_id && p.1 == n.x && p.2 == n.y,
        (None, None) => true,
        _ => false,
    }
}

impl RawWorldPosition {
    /// The normalized position this raw position denotes among `frames`.
    pub open spec fn resolved(self, frames: Seq<Frame>) -> Option<(FrameId, int, int)> {
        normalized(frames, self.root_frame_id, self.x as int, self.y as int, MAX_HOPS as nat)
    }

    /// This position turned clockwise by `angle` about the centre of its frame.
    pub fn rotated(&self, angle: Angle) -> (r: RawWorldPosition)
        requires
            -RAW_LIMIT <= self.x <= RAW_LIMIT,
            -RAW_LIMIT <= self.y <= RAW_LIMIT,
        ensures
            r.root_frame_id == self.root_frame_id,
            (r.x as int, r.y as int) == rotate(angle, self.x as int, self.y as int),
    {
        let (rotated_x, rotated_y) = match angle {
            Angle::Clockwise0 => (self.x, self.y),
            Angle::Clockwise90 => (-self.y, self.x),
            Angle::Clockwise180 => (-self.x, -self.y),
            Angle::Clockwise270 => (self.y, -self.x),
        };
        RawWorldPosition { root_frame_id: self.root_frame_id, x: rotated_x, y: rotated_y }
    }
}

impl WorldPosition {
    /// The same position, as a raw one.
    pub open spec fn raw(self) -> RawWorldPosition {
        RawWorldPosition { root_frame_id: self.frame_id, x: self.x, y: self.y }
    }
}

/// Whether every edge link among `frames` leads to a frame of `frames` through one of its
/// edges, and that edge links straight back.
pub open spec fn links_symmetric(frames: Seq<Frame>) -> bool {
    forall|i: int, d: Direction|
        0 <= i < frames.len() && d.is_edge() && (#[trigger] frames[i].borders.link(d)).is_some()
            ==> {
            let l = frames[i].borders.link(d).unwrap();
            &&& l.entry_edge.is_edge()
            &&& l.frame.0 < frames.len()
            &&& frames[l.frame.0 as int].borders.link(l.entry_edge) == Some(
                FrameLink { frame: FrameId(i as usize), entry_edge: d },
            )
        }
}

/// Leaving through `exit` into `entry` and coming back from `entry` into `exit` brings every
/// point back where it was, and the two rotations cancel.
pub proof fn lemma_transfer_round_trip(exit: Direction, entry: Direction, x: int, y: int)
    requires
        exit.is_edge(),
        entry.is_edge(),
    ensures
        ({
            let t = transfer(exit, entry, x, y);
            transfer(entry, exit, t.0, t.1) == (x, y)
        }),
        crossing_angle(exit, entry).followed_by(crossing_angle(entry, exit)) == Angle::Clockwise0,
{
}

/// Crossing any linked edge of a frame and then crossing back through the edge one entered by
/// returns to the same frame with the same coordinates, by two rotations that cancel.
pub proof fn lemma_topology_round_trip(frames: Seq<Frame>, f: FrameId, d: Direction, x: int, y: int)
    requires
        links_symmetric(frames),
        f.0 < frames.len(),
        d.is_edge(),
        link_of(frames, f, d).is_some(),
    ensures
        ({
            let l = link_of(frames, f, d).unwrap();
            let c = cross(frames, f, d, x, y).unwrap();
            &&& c.0 == l.frame
            &&& cross(frames, c.0, l.entry_edge, c.1, c.2) == Some((f, x, y))
            &&& crossing_angle(d, l.entry_edge).followed_by(crossing_angle(l.entry_edge, d))
                == Angle::Clockwise0
        }),
{
    let l = link_of(frames, f, d).unwrap();
    assert(frames[f.0 as int].borders.link(d).is_some());
    lemma_transfer_round_trip(d, l.entry_edge, x, y);
}

/// A position already inside its frame normalizes to itself, and so does every result of
/// normalization.
pub proof fn lemma_normalize_idempotent(frames: Seq<Frame>, f: FrameId, x: int, y: int, hops: nat)
    requires
        f.0 < frames.len(),
    ensures
        in_bounds(x, y) ==> normalized(frames, f, x, y, hops) == Some((f, x, y)),
        normalized(frames, f, x, y, hops) matches Some(p) ==> {
            &&& in_bounds(p.1, p.2)
            &&& p.0.0 < frames.len()
            &&& normalized(frames, p.0, p.1, p.2, hops) == Some(p)
        },
{
    lemma_normalized_in_bounds(frames, f, x, y, hops);
}

/// What normalization returns lies inside a frame of `frames`.
proof fn lemma_normalized_in_bounds(frames: Seq<Frame>, f: FrameId, x: int, y: int, hops: nat)
    ensures
        normalized(frames, f, x, y, hops) matches Some(p) ==> in_bounds(p.1, p.2) && p.0.0 < frames.len(),
    decreases hops,
{
    if !in_bounds(x, y) && hops > 0 {
        if let Some(c) = cross(frames, f, exit_edge(x, y), x, y) {
            lemma_normalized_in_bounds(frames, c.0, c.1, c.2, (hops - 1) as nat);
        }
    }
}

/// A point inside a frame, moved by at most one tile along one axis, lies outside the frame
/// along that axis at most: resolving it never meets both axes out of bounds.
pub proof fn lemma_single_axis_step(x: int, y: int, d: int)
    requires
        in_bounds(x, y),
        -TILE_SIZE <= d <= TILE_SIZE,
    ensures
        coordinate_in_bounds(x + d) || coordinate_in_bounds(y),
        coordinate_in_bounds(x) || coordinate_in_bounds(y + d),
        -2 * UNIT <= x + d < 2 * UNIT,
        -2 * UNIT <= y + d < 2 * UNIT,
{
}

/// Tile `(x, y)` turned clockwise by `angle` about the centre of the grid.
pub open spec fn rotate_tile(angle: Angle, x: int, y: int) -> (int, int) {
    let w = FRAME_WIDTH as int;
    match angle {
        Angle::Clockwise0 => (x, y),
        Angle::Clockwise90 => (w - 1 - y, x),
        Angle::Clockwise180 => (w - 1 - x, w - 1 - y),
        Angle::Clockwise270 => (y, w - 1 - x),
    }
}

/// The edge of the grid beyond which tile `(x, y)` lies, checked in the order right, left,
/// down, up; `Neutral` for a tile of the grid.
pub open spec fn tile_exit_edge(x: int, y: int) -> Direction {
    let w = FRAME_WIDTH as int;
    if x >= w {
        Direction::Right
    } else if x < 0 {
        Direction::Left
    } else if y >= w {
        Direction::Down
    } else if y < 0 {
        Direction::Up
    } else {
        Direction::Neutral
    }
}

/// Tile `(x, y)` expressed relative to the grid beyond `edge`, before any rotation.
pub open spec fn tile_shifted(edge: Direction, x: int, y: int) -> (int, int) {
    let w = FRAME_WIDTH as int;
    match edge {
        Direction::Right => (x - w, y),
        Direction::Left => (x + w, y),
        Direction::Down => (x, y - w),
        Direction::Up => (x, y + w),
        Direction::Neutral => (x, y),
    }
}

/// Whether tile `(x, y)` lies in the grid or in one of the four grids next to it.
pub open spec fn tile_index_reachable(x: int, y: int) -> bool {
    let w = FRAME_WIDTH as int;
    &&& -2 * w <= x < 2 * w
    &&& -2 * w <= y < 2 * w
    &&& (0 <= x < w || 0 <= y < w)
}

/// The frame and tile of the grid that tile `(x, y)` of frame `f` denotes, crossing at most
/// one edge with the same rotation as positions. `None` when the tile is beyond a corner or
/// further than one grid away, or when the edge has no link.
pub open spec fn tile_index_normalized(frames: Seq<Frame>, f: FrameId, x: int, y: int) -> Option<(FrameId, int, int)> {
    if !tile_index_reachable(x, y) {
        None
    } else {
        let edge = tile_exit_edge(x, y);
        match link_of(frames, f, edge) {
            Some(l) => {
                let s = tile_shifted(edge, x, y);
                let r = rotate_tile(crossing_angle(edge, l.entry_edge), s.0, s.1);
                if l.frame.0 < frames.len() {
                    Some((l.frame, r.0, r.1))
                } else {
                    None
                }
            },
            None => None,
        }
    }
}

} // verus!
