//! Identifiers, tiles and the contact quad.

use vstd::prelude::*;

verus! {

/// Identifier of an entity, handed out by the world from an increasing counter.
#[derive(Copy, Clone, Debug, PartialEq, Eq, Hash, Structural)]
pub struct EntityId(pub usize);

/// Identifier of a frame: its index in the world's collection of frames.
#[derive(Copy, Clone, Debug, PartialEq, Eq, Hash, Structural)]
pub struct FrameId(pub usize);

impl FrameId {
    pub fn new(inner: usize) -> (r: FrameId)
        ensures
            r.0 == inner,
    {
        FrameId(inner)
    }

    /// The reserved identifier that names no frame.
    pub fn invalid() -> (r: FrameId)
        ensures
            r.0 == usize::MAX,
    {
        FrameId(usize::MAX)
    }
}

/// State of one cell of a frame's grid; `Invalid` stands for a cell outside the grid.
#[derive(Copy, Clone, Debug, PartialEq, Eq, Structural)]
pub enum Tile {
    Empty,
    Solid,
    Invalid,
}

impl Tile {
    /// Whether the tile stops movement: every tile but `Empty`.
    pub open spec fn solid(self) -> bool {
        self != Tile::Empty
    }

    pub fn is_solid(&self) -> (r: bool)
        ensures
            r == self.solid(),
    {
        match *self {
            Tile::Empty => false,
            Tile::Solid => true,
            Tile::Invalid => true,
        }
    }
}

/// Solidity of the four tiles around a point of the grid.
#[derive(Copy, Clone, Debug, PartialEq, Eq, Structural)]
pub struct Contacts {
    pub top_left: bool,
    pub top_right: bool,
    pub bottom_left: bool,
    pub bottom_right: bool,
}

impl Contacts {
    pub fn as_tuple(&self) -> (r: (bool, bool, bool, bool))
        ensures
            r == (self.top_left, self.top_right, self.bottom_left, self.bottom_right),
    {
        (self.top_left, self.top_right, self.bottom_left, self.bottom_right)
    }
}

} // verus!
