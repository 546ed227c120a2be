//! The cube topology: the well-formedness of linked frames, the six faces and their edge
//! table, and the agreement of tile-index and position crossings.

use vstd::prelude::*;

use crate::collision::tile_after;
use crate::direction::Direction;
use crate::frame::{Frame, FrameLink, FrameLinks, FRAME_WIDTH};
use crate::position::{
    coordinate_in_bounds, cross, crossing_angle, exit_edge, in_bounds, links_symmetric,
    lemma_transfer_round_trip, normalized, rotate, rotate_tile, shifted, tile_index_normalized,
    tile_shifted, transfer, MAX_HOPS,
    TILE_SIZE, UNIT,
};
use crate::types::FrameId;

verus! {

/// Every frame is well formed, sits at the index its identifier names, links to itself
/// through `Neutral`, has all four edges linked, and the links are symmetric.
pub open spec fn frames_wf(frames: Seq<Frame>) -> bool {
    &&& 0 < frames.len() < usize::MAX
    &&& forall|i: int|
        0 <= i < frames.len() ==> {
            &&& (#[trigger] frames[i]).wf()
            &&& frames[i].position == FrameId(i as usize)
            &&& frames[i].borders.neutral == Some(
                FrameLink { frame: FrameId(i as usize), entry_edge: Direction::Neutral },
            )
            &&& frames[i].borders.up.is_some()
            &&& frames[i].borders.down.is_some()
            &&& frames[i].borders.left.is_some()
            &&& frames[i].borders.right.is_some()
        }
    &&& links_symmetric(frames)
}

/// Number of frames of the cube.
pub const FRAME_COUNT: usize = 6;

/// Indices of the cube's frames.
pub const FRONT: usize = 0;
pub const LEFT: usize = 1;
pub const RIGHT: usize = 2;
pub const UP: usize = 3;
pub const DOWN: usize = 4;
pub const BACK: usize = 5;

/// Where an edge of a face of the cube leads: `(frame, entry edge)`. Front meets the four
/// side faces on their natural edges; back meets up and down on their own edges and left
/// and right crosswise; the side faces meet up and down on the edges that touch.
pub open spec fn cube_edge(i: usize, d: Direction) -> Option<(usize, Direction)> {
    match (i, d) {
        (0, Direction::Up) => Some((3, Direction::Down)),
        (0, Direction::Left) => Some((1, Direction::Right)),
        (0, Direction::Right) => Some((2, Direction::Left)),
        (0, Direction::Down) => Some((4, Direction::Up)),
        (1, Direction::Right) => Some((0, Direction::Left)),
        (1, Direction::Left) => Some((5, Direction::Right)),
        (1, Direction::Up) => Some((3, Direction::Left)),
        (1, Direction::Down) => Some((4, Direction::Right)),
        (2, Direction::Left) => Some((0, Direction::Right)),
        (2, Direction::Right) => Some((5, Direction::Left)),
        (2, Direction::Up) => Some((3, Direction::Right)),
        (2, Direction::Down) => Some((4, Direction::Left)),
        (3, Direction::Down) => Some((0, Direction::Up)),
        (3, Direction::Up) => Some((5, Direction::Up)),
        (3, Direction::Left) => Some((1, Direction::Up)),
        (3, Direction::Right) => Some((2, Direction::Up)),
        (4, Direction::Up) => Some((0, Direction::Down)),
        (4, Direction::Down) => Some((5, Direction::Down)),
        (4, Direction::Right) => Some((1, Direction::Down)),
        (4, Direction::Left) => Some((2, Direction::Down)),
        (5, Direction::Up) => Some((3, Direction::Up)),
        (5, Direction::Right) => Some((1, Direction::Left)),
        (5, Direction::Left) => Some((2, Direction::Right)),
        (5, Direction::Down) => Some((4, Direction::Down)),
        _ => None,
    }
}

/// The links of face `i` of the cube.
pub open spec fn cube_borders(i: usize) -> FrameLinks {
    let link = |d: Direction|
        match cube_edge(i, d) {
            Some(e) => Some(FrameLink { frame: FrameId(e.0), entry_edge: e.1 }),
            None => None,
        };
    FrameLinks {
        up: link(Direction::Up),
        down: link(Direction::Down),
        left: link(Direction::Left),
        right: link(Direction::Right),
        neutral: Some(FrameLink { frame: FrameId(i), entry_edge: Direction::Neutral }),
    }
}

/// The faces of the cube, each linked as `cube_borders` says, form a consistent topology.
pub(crate) proof fn lemma_cube_wf(frames: Seq<Frame>)
    requires
        frames.len() == FRAME_COUNT,
        forall|i: int|
            0 <= i < FRAME_COUNT ==> {
                &&& (#[trigger] frames[i]).wf()
                &&& frames[i].position == FrameId(i as usize)
                &&& frames[i].borders == cube_borders(i as usize)
            },
    ensures
        frames_wf(frames),
{
    assert forall|i: int, d: Direction|
        0 <= i < frames.len() && d.is_edge() && (#[trigger] frames[i].borders.link(d)).is_some() implies {
        let l = frames[i].borders.link(d).unwrap();
        &&& l.entry_edge.is_edge()
        &&& l.frame.0 < frames.len()
        &&& frames[l.frame.0 as int].borders.link(l.entry_edge) == Some(
            FrameLink { frame: FrameId(i as usize), entry_edge: d },
        )
    } by {
        let l = frames[i].borders.link(d).unwrap();
        assert(frames[i].borders == cube_borders(i as usize));
        assert(frames[l.frame.0 as int].borders == cube_borders(l.frame.0));
    }
}

/// Frames that differ only in their tiles are equally well formed.
pub(crate) proof fn lemma_retiled_wf(before: Seq<Frame>, after: Seq<Frame>)
    requires
        frames_wf(before),
        after.len() == before.len(),
        forall|i: int|
            0 <= i < before.len() ==> {
                &&& (#[trigger] after[i]).borders == before[i].borders
                &&& after[i].position == before[i].position
                &&& after[i].wf()
            },
    ensures
        frames_wf(after),
{
    assert forall|i: int| 0 <= i < after.len() implies {
        &&& (#[trigger] after[i]).wf()
        &&& after[i].position == FrameId(i as usize)
        &&& after[i].borders.neutral == Some(FrameLink { frame: FrameId(i as usize), entry_edge: Direction::Neutral })
        &&& after[i].borders.up.is_some()
        &&& after[i].borders.down.is_some()
        &&& after[i].borders.left.is_some()
        &&& after[i].borders.right.is_some()
    } by {
        assert(before[i].wf());
    }
    assert forall|i: int, d: Direction|
        0 <= i < after.len() && d.is_edge() && (#[trigger] after[i].borders.link(d)).is_some() implies {
        let l = after[i].borders.link(d).unwrap();
        &&& l.entry_edge.is_edge()
        &&& l.frame.0 < after.len()
        &&& after[l.frame.0 as int].borders.link(l.entry_edge) == Some(
            FrameLink { frame: FrameId(i as usize), entry_edge: d },
        )
    } by {
        assert(after[i].borders == before[i].borders);
        assert(before[i].borders.link(d).is_some());
        let l = after[i].borders.link(d).unwrap();
        assert(after[l.frame.0 as int].borders == before[l.frame.0 as int].borders);
    }
}

/// Frames with the same links and count send every tile index to the same place.
pub(crate) proof fn lemma_same_links_same_tiles(a: Seq<Frame>, b: Seq<Frame>, f: FrameId, x: int, y: int)
    requires
        a.len() == b.len(),
        forall|i: int| 0 <= i < a.len() ==> (#[trigger] a[i]).borders == b[i].borders,
    ensures
        tile_index_normalized(a, f, x, y) == tile_index_normalized(b, f, x, y),
{
    if f.0 < a.len() {
        assert(a[f.0 as int].borders == b[f.0 as int].borders);
    }
}

/// Whether coordinate `c` lies inside a tile rather than on a boundary between tiles.
pub open spec fn off_boundary(c: int) -> bool {
    c % TILE_SIZE as int != 0
}

/// The tile of a coordinate moved by a whole frame moves by a whole grid.
proof fn lemma_tile_of_shift(c: int)
    ensures
        tile_after(c + 2 * UNIT) == tile_after(c) + FRAME_WIDTH,
        tile_after(c - 2 * UNIT) == tile_after(c) - FRAME_WIDTH,
        off_boundary(c + 2 * UNIT) == off_boundary(c),
        off_boundary(c - 2 * UNIT) == off_boundary(c),
{
    let t = TILE_SIZE as int;
    vstd::arithmetic::div_mod::lemma_fundamental_div_mod(c + UNIT, t);
    vstd::arithmetic::div_mod::lemma_fundamental_div_mod(c, t);
    let q = (c + UNIT) / t;
    let r = (c + UNIT) % t;
    let m = c / t;
    let n = c % t;
    assert(c + 2 * UNIT + UNIT == (q + 16) * t + r);
    assert(c - 2 * UNIT + UNIT == (q - 16) * t + r);
    assert(c + 2 * UNIT == (m + 16) * t + n);
    assert(c - 2 * UNIT == (m - 16) * t + n);
    vstd::arithmetic::div_mod::lemma_fundamental_div_mod_converse_div(c + 2 * UNIT + UNIT, t, q + 16, r);
    vstd::arithmetic::div_mod::lemma_fundamental_div_mod_converse_div(c - 2 * UNIT + UNIT, t, q - 16, r);
    vstd::arithmetic::div_mod::lemma_fundamental_div_mod_converse_mod(c + 2 * UNIT, t, m + 16, n);
    vstd::arithmetic::div_mod::lemma_fundamental_div_mod_converse_mod(c - 2 * UNIT, t, m - 16, n);
}

/// Off the boundaries, negating a coordinate mirrors its tile about the middle of the grid.
proof fn lemma_tile_of_negation(c: int)
    requires
        off_boundary(c),
    ensures
        tile_after(-c) == FRAME_WIDTH - 1 - tile_after(c),
        off_boundary(-c),
{
    vstd::arithmetic::div_mod::lemma_fundamental_div_mod(c, TILE_SIZE as int);
    vstd::arithmetic::div_mod::lemma_fundamental_div_mod_converse_mod(
        c + UNIT,
        TILE_SIZE as int,
        c / TILE_SIZE as int + 8,
        c % TILE_SIZE as int,
    );
    vstd::arithmetic::div_mod::lemma_fundamental_div_mod(c + UNIT, TILE_SIZE as int);
    let q = (c + UNIT) / TILE_SIZE as int;
    let r = (c + UNIT) % TILE_SIZE as int;
    vstd::arithmetic::div_mod::lemma_fundamental_div_mod_converse_div(
        -c + UNIT,
        TILE_SIZE as int,
        15 - q,
        TILE_SIZE - r,
    );
    vstd::arithmetic::div_mod::lemma_fundamental_div_mod_converse_mod(
        -c,
        TILE_SIZE as int,
        -(c / TILE_SIZE as int) - 1,
        TILE_SIZE - c % TILE_SIZE as int,
    );
}

/// Tile-index crossing agrees with position crossing: for a point off the tile boundaries,
/// inside its frame or beyond one of its edges by less than a frame, the tile that tile-index
/// normalization gives for the point's tile is the tile of the normalized point.
pub proof fn lemma_tile_crossing_agrees(frames: Seq<Frame>, f: FrameId, x: int, y: int)
    requires
        frames_wf(frames),
        f.0 < frames.len(),
        off_boundary(x),
        off_boundary(y),
        -3 * UNIT < x < 3 * UNIT,
        -3 * UNIT < y < 3 * UNIT,
        coordinate_in_bounds(x) || coordinate_in_bounds(y),
    ensures
        ({
            let p = normalized(frames, f, x, y, MAX_HOPS as nat);
            let t = tile_index_normalized(frames, f, tile_after(x), tile_after(y));
            &&& p is Some
            &&& t == Some((p.unwrap().0, tile_after(p.unwrap().1), tile_after(p.unwrap().2)))
        }),
{
    let edge = exit_edge(x, y);
    assert(frames[f.0 as int].wf());
    let l = frames[f.0 as int].borders.link(edge).unwrap();
    let s = shifted(edge, x, y);
    lemma_tile_of_shift(x);
    lemma_tile_of_shift(y);
    let ts = tile_shifted(edge, tile_after(x), tile_after(y));
    assert(tile_after(s.0) == ts.0 && tile_after(s.1) == ts.1);
    assert(off_boundary(s.0) && off_boundary(s.1));
    assert(-UNIT < s.0 < UNIT && -UNIT < s.1 < UNIT);
    lemma_tile_of_negation(s.0);
    lemma_tile_of_negation(s.1);
    let a = crossing_angle(edge, l.entry_edge);
    let r = rotate(a, s.0, s.1);
    assert(tile_after(r.0) == rotate_tile(a, ts.0, ts.1).0);
    assert(tile_after(r.1) == rotate_tile(a, ts.0, ts.1).1);
    assert(in_bounds(r.0, r.1));
    if edge == Direction::Neutral {
        assert(normalized(frames, f, x, y, MAX_HOPS as nat) == Some((f, x, y)));
    } else {
        assert(l.frame.0 < frames.len());
        assert(cross(frames, f, edge, x, y) == Some((l.frame, r.0, r.1)));
        assert(normalized(frames, l.frame, r.0, r.1, (MAX_HOPS - 1) as nat) == Some((l.frame, r.0, r.1)));
        assert(normalized(frames, f, x, y, MAX_HOPS as nat) == Some((l.frame, r.0, r.1)));
    }
}


/// Whether `(x, y)` lies strictly beyond edge `d` of its frame, by less than a frame, and
/// strictly inside the frame along the other axis.
pub open spec fn just_beyond(d: Direction, x: int, y: int) -> bool {
    match d {
        Direction::Right => UNIT < x < 3 * UNIT && -UNIT < y < UNIT,
        Direction::Left => -3 * UNIT < x < -UNIT && -UNIT < y < UNIT,
        Direction::Down => UNIT < y < 3 * UNIT && -UNIT < x < UNIT,
        Direction::Up => -3 * UNIT < y < -UNIT && -UNIT < x < UNIT,
        Direction::Neutral => false,
    }
}

/// Crossing out and straight back is the identity. A point strictly inside frame `f`, moved by
/// `(dx, dy)` to just beyond edge `d`, normalizes into the linked frame; moving that result back
/// by the same step, turned as the crossing turns, normalizes to the starting point in `f`.
/// The two turns cancel.
pub proof fn lemma_normalize_round_trip(frames: Seq<Frame>, f: FrameId, d: Direction, x0: int, y0: int, dx: int, dy: int)
    requires
        frames_wf(frames),
        f.0 < frames.len(),
        -UNIT < x0 < UNIT,
        -UNIT < y0 < UNIT,
        just_beyond(d, x0 + dx, y0 + dy),
    ensures
        ({
            let l = frames[f.0 as int].borders.link(d).unwrap();
            let a = crossing_angle(d, l.entry_edge);
            let q = normalized(frames, f, x0 + dx, y0 + dy, MAX_HOPS as nat);
            let d2 = rotate(a, dx, dy);
            &&& q is Some
            &&& q.unwrap().0 == l.frame
            &&& normalized(frames, l.frame, q.unwrap().1 - d2.0, q.unwrap().2 - d2.1, MAX_HOPS as nat)
                == Some((f, x0, y0))
            &&& a.followed_by(crossing_angle(l.entry_edge, d)) == crate::direction::Angle::Clockwise0
        }),
{
    assert(frames[f.0 as int].wf());
    let l = frames[f.0 as int].borders.link(d).unwrap();
    assert(frames[f.0 as int].borders.link(d).is_some());
    let e = l.entry_edge;
    let a = crossing_angle(d, e);
    let x = x0 + dx;
    let y = y0 + dy;
    assert(exit_edge(x, y) == d);
    let t = transfer(d, e, x, y);
    assert(in_bounds(t.0, t.1));
    assert(cross(frames, f, d, x, y) == Some((l.frame, t.0, t.1)));
    assert(normalized(frames, l.frame, t.0, t.1, (MAX_HOPS - 1) as nat) == Some((l.frame, t.0, t.1)));
    let d2 = rotate(a, dx, dy);
    let b = transfer(d, e, x0, y0);
    assert(t.0 - d2.0 == b.0 && t.1 - d2.1 == b.1);
    lemma_transfer_round_trip(d, e, x0, y0);
    assert(frames[l.frame.0 as int].borders.link(e) == Some(FrameLink { frame: f, entry_edge: d }));
    assert(exit_edge(b.0, b.1) == e);
    assert(!in_bounds(b.0, b.1));
    assert(coordinate_in_bounds(b.0) || coordinate_in_bounds(b.1));
    assert(cross(frames, l.frame, e, b.0, b.1) == Some((f, x0, y0)));
    assert(normalized(frames, f, x0, y0, (MAX_HOPS - 1) as nat) == Some((f, x0, y0)));
}

} // verus!
