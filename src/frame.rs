//! A frame: a square grid of tiles and the links across its four edges.

use vstd::prelude::*;

use crate::direction::Direction;
use crate::types::{FrameId, Tile};

verus! {

/// Number of tiles along each side of a frame.
pub const FRAME_WIDTH: usize = 16;

/// Number of tiles in a frame.
pub const FRAME_TILE_COUNT: usize = 256;

/// Rolls of `1..=SOLID_ROLL_MAX` out of `1..=100` make a solid tile in a populated frame.
pub const SOLID_ROLL_MAX: u8 = 17;

/// A directed link across an edge: crossing it lands in `frame`, entering through `entry_edge`.
#[derive(Copy, Clone, Debug, PartialEq, Eq, Structural)]
pub struct FrameLink {
    pub frame: FrameId,
    pub entry_edge: Direction,
}

/// One optional link per direction of a frame.
#[derive(Copy, Clone, Debug, PartialEq, Eq, Structural)]
pub struct FrameLinks {
    pub up: Option<FrameLink>,
    pub down: Option<FrameLink>,
    pub left: Option<FrameLink>,
    pub right: Option<FrameLink>,
    pub neutral: Option<FrameLink>,
}

impl FrameLinks {
    /// The slot of `direction`.
    pub open spec fn link(self, direction: Direction) -> Option<FrameLink> {
        match direction {
            Direction::Up => self.up,
            Direction::Down => self.down,
            Direction::Left => self.left,
            Direction::Right => self.right,
            Direction::Neutral => self.neutral,
        }
    }

    /// These links with the slot of `direction` replaced by `l`.
    pub open spec fn with_link(self, direction: Direction, l: Option<FrameLink>) -> FrameLinks {
        match direction {
            Direction::Up => FrameLinks { up: l, ..self },
            Direction::Down => FrameLinks { down: l, ..self },
            Direction::Left => FrameLinks { left: l, ..self },
            Direction::Right => FrameLinks { right: l, ..self },
            Direction::Neutral => FrameLinks { neutral: l, ..self },
        }
    }

    pub fn at_direction(&self, direction: Direction) -> (r: Option<FrameLink>)
        ensures
            r == self.link(direction),
    {
        match direction {
            Direction::Up => self.up,
            Direction::Down => self.down,
            Direction::Left => self.left,
            Direction::Right => self.right,
            Direction::Neutral => self.neutral,
        }
    }

    pub fn at_direction_mut(&mut self, direction: Direction) -> (r: &mut Option<FrameLink>)
        ensures
            *r == old(self).link(direction),
            *final(self) == old(self).with_link(direction, *final(r)),
    {
        match direction {
            Direction::Up => &mut self.up,
            Direction::Down => &mut self.down,
            Direction::Left => &mut self.left,
            Direction::Right => &mut self.right,
            Direction::Neutral => &mut self.neutral,
        }
    }
}

/// Whether `(x, y)` names a tile of the grid.
pub open spec fn in_grid(x: int, y: int) -> bool {
    0 <= x < FRAME_WIDTH && 0 <= y < FRAME_WIDTH
}

/// Position of tile `(x, y)` in the row-major list of a frame's tiles.
pub open spec fn grid_index(x: int, y: int) -> int {
    y * FRAME_WIDTH + x
}

/// The tile that a roll of `1..=100` gives in a populated frame.
pub open spec fn tile_of_roll(roll: u8) -> Tile {
    if roll <= SOLID_ROLL_MAX {
        Tile::Solid
    } else {
        Tile::Empty
    }
}

/// One square face of the world: a grid of tiles and the links across its edges.
pub struct Frame {
    /// The tiles, row by row.
    pub tiles: Vec<Tile>,
    /// The cell that writes outside the grid go to.
    pub invalid_tile: Tile,
    pub borders: FrameLinks,
    pub position: FrameId,
    pub orientation: Direction,
}

impl Frame {
    /// The tiles, row by row.
    pub open spec fn tiles(&self) -> Seq<Tile> {
        self.tiles@
    }

    /// What a write to a cell outside the grid lands in.
    pub open spec fn spare_tile(&self) -> Tile {
        self.invalid_tile
    }

    pub open spec fn wf(&self) -> bool {
        self.tiles().len() == FRAME_TILE_COUNT
    }

    /// The tile at `(x, y)`; `Invalid` outside the grid.
    pub open spec fn tile_at(&self, x: int, y: int) -> Tile {
        if in_grid(x, y) {
            self.tiles()[grid_index(x, y)]
        } else {
            Tile::Invalid
        }
    }

    /// The links of a new frame: only the neutral one, back to the frame itself.
    pub open spec fn initial_borders(position: FrameId) -> FrameLinks {
        FrameLinks {
            up: None,
            down: None,
            left: None,
            right: None,
            neutral: Some(FrameLink { frame: position, entry_edge: Direction::Neutral }),
        }
    }

    /// An empty frame, linked to nothing but itself.
    pub fn new(position: FrameId) -> (r: Frame)
        ensures
            r.wf(),
            r.borders == Frame::initial_borders(position),
            r.position == position,
            r.orientation == Direction::Neutral,
            forall|i: int| 0 <= i < FRAME_TILE_COUNT ==> #[trigger] r.tiles()[i] == Tile::Empty,
    {
        let borders = FrameLinks {
            up: None,
            down: None,
            left: None,
            right: None,
            neutral: Some(FrameLink { frame: position, entry_edge: Direction::Neutral }),
        };
        let mut tiles: Vec<Tile> = Vec::new();
        let mut i: usize = 0;
        while i < FRAME_TILE_COUNT
            invariant
                i <= FRAME_TILE_COUNT,
                tiles@.len() == i,
                forall|j: int| 0 <= j < i ==> #[trigger] tiles@[j] == Tile::Empty,
            decreases FRAME_TILE_COUNT - i,
        {
            tiles.push(Tile::Empty);
            i = i + 1;
        }
        Frame {
            tiles,
            invalid_tile: Tile::Invalid,
            borders,
            position,
            orientation: Direction::Neutral,
        }
    }

    /// The tile at `(x, y)`, or `Invalid` when that is outside the grid.
    pub fn tile(&self, x: isize, y: isize) -> (r: &Tile)
        requires
            self.wf(),
        ensures
            *r == self.tile_at(x as int, y as int),
    {
        if x < 0 || y < 0 || x >= FRAME_WIDTH as isize || y >= FRAME_WIDTH as isize {
            return &Tile::Invalid;
        }
        &self.tiles[y as usize * FRAME_WIDTH + x as usize]
    }

    /// Write access to the tile at `(x, y)`. Outside the grid the access goes to a spare cell
    /// that no read of the grid sees.
    pub fn tile_mut(&mut self, x: isize, y: isize) -> (r: &mut Tile)
        requires
            old(self).wf(),
        ensures
            final(self).wf(),
            final(self).borders == old(self).borders,
            final(self).position == old(self).position,
            final(self).orientation == old(self).orientation,
            in_grid(x as int, y as int) ==> {
                &&& *r == old(self).tile_at(x as int, y as int)
                &&& final(self).tiles() == old(self).tiles().update(
                    grid_index(x as int, y as int),
                    *final(r),
                )
            },
            !in_grid(x as int, y as int) ==> {
                &&& *r == old(self).spare_tile()
                &&& final(self).tiles() == old(self).tiles()
            },
    {
        if x < 0 || y < 0 || x >= FRAME_WIDTH as isize || y >= FRAME_WIDTH as isize {
            return &mut self.invalid_tile;
        }
        &mut self.tiles[y as usize * FRAME_WIDTH + x as usize]
    }

    /// A frame whose tile `i` (row by row) is solid when `rolls[i]` is at most
    /// `SOLID_ROLL_MAX` and empty otherwise; each roll is a draw from `1..=100`.
    pub fn new_populated(position: FrameId, rolls: &Vec<u8>) -> (r: Frame)
        requires
            rolls@.len() == FRAME_TILE_COUNT,
            forall|i: int| 0 <= i < rolls@.len() ==> 1 <= #[trigger] rolls@[i] <= 100,
        ensures
            r.wf(),
            r.borders == Frame::initial_borders(position),
            r.position == position,
            r.orientation == Direction::Neutral,
            forall|i: int|
                0 <= i < FRAME_TILE_COUNT ==> #[trigger] r.tiles()[i] == tile_of_roll(rolls@[i]),
    {
        let mut frame = Frame::new(position);
        let mut i: usize = 0;
        while i < FRAME_TILE_COUNT
            invariant
                i <= FRAME_TILE_COUNT,
                rolls@.len() == FRAME_TILE_COUNT,
                frame.wf(),
                frame.borders == Frame::initial_borders(position),
                frame.position == position,
                frame.orientation == Direction::Neutral,
                forall|j: int| 0 <= j < i ==> #[trigger] frame.tiles()[j] == tile_of_roll(rolls@[j]),
            decreases FRAME_TILE_COUNT - i,
        {
            let tile = if rolls[i] <= SOLID_ROLL_MAX {
                Tile::Solid
            } else {
                Tile::Empty
            };
            let x = (i % FRAME_WIDTH) as isize;
            let y = (i / FRAME_WIDTH) as isize;
            *frame.tile_mut(x, y) = tile;
            i = i + 1;
        }
        frame
    }
}

} // verus!
