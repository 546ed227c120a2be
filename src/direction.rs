//! Edge directions and quarter-turn angles, and the rotation algebra between them.

use vstd::prelude::*;

verus! {

/// A rotation by a whole number of quarter turns, measured clockwise.
#[derive(Copy, Clone, Debug, PartialEq, Eq, Structural)]
pub enum Angle {
    Clockwise0,
    Clockwise90,
    Clockwise180,
    Clockwise270,
}

/// One of the four edges of a frame, or `Neutral` for "no edge" (the frame itself).
#[derive(Copy, Clone, Debug, PartialEq, Eq, Structural)]
pub enum Direction {
    Up,
    Down,
    Left,
    Right,
    Neutral,
}

impl Angle {
    /// Number of clockwise quarter turns, in `0..4`.
    pub open spec fn quarters(self) -> int {
        match self {
            Angle::Clockwise0 => 0,
            Angle::Clockwise90 => 1,
            Angle::Clockwise180 => 2,
            Angle::Clockwise270 => 3,
        }
    }

    /// The angle of `q` quarter turns, taken modulo a full turn.
    pub open spec fn of_quarters(q: int) -> Angle {
        let r = q % 4;
        if r == 0 {
            Angle::Clockwise0
        } else if r == 1 {
            Angle::Clockwise90
        } else if r == 2 {
            Angle::Clockwise180
        } else {
            Angle::Clockwise270
        }
    }

    /// Turning by `self` and then by `other`.
    pub open spec fn followed_by(self, other: Angle) -> Angle {
        Angle::of_quarters(self.quarters() + other.quarters())
    }

    /// The angle turned by half a revolution more.
    pub fn reverse(&self) -> (r: Angle)
        ensures
            r == Angle::of_quarters(self.quarters() + 2),
    {
        match *self {
            Angle::Clockwise0 => Angle::Clockwise180,
            Angle::Clockwise90 => Angle::Clockwise270,
            Angle::Clockwise180 => Angle::Clockwise0,
            Angle::Clockwise270 => Angle::Clockwise90,
        }
    }

    /// The opposite rotation: turning by `self` and then by the result is no turn at all.
    pub fn negative(&self) -> (r: Angle)
        ensures
            r == Angle::of_quarters(4 - self.quarters()),
            self.followed_by(r) == Angle::Clockwise0,
    {
        match *self {
            Angle::Clockwise0 => Angle::Clockwise0,
            Angle::Clockwise90 => Angle::Clockwise270,
            Angle::Clockwise180 => Angle::Clockwise180,
            Angle::Clockwise270 => Angle::Clockwise90,
        }
    }
}

impl Direction {
    /// Clockwise quarter turns from `Up` to this edge; `Neutral` counts as `Up`.
    pub open spec fn quarters(self) -> int {
        match self {
            Direction::Up => 0,
            Direction::Right => 1,
            Direction::Down => 2,
            Direction::Left => 3,
            Direction::Neutral => 0,
        }
    }

    /// The edge reached from `Up` by `q` clockwise quarter turns.
    pub open spec fn of_quarters(q: int) -> Direction {
        let r = q % 4;
        if r == 0 {
            Direction::Up
        } else if r == 1 {
            Direction::Right
        } else if r == 2 {
            Direction::Down
        } else {
            Direction::Left
        }
    }

    pub open spec fn is_edge(self) -> bool {
        self != Direction::Neutral
    }

    /// What `rotated` returns.
    pub open spec fn turned(self, angle: Angle) -> Direction {
        if self == Direction::Neutral {
            Direction::Neutral
        } else {
            Direction::of_quarters(self.quarters() + angle.quarters())
        }
    }

    /// What `angle_to` returns.
    pub open spec fn angle_towards(self, other: Direction) -> Angle {
        if other == Direction::Neutral {
            Angle::Clockwise0
        } else {
            Angle::of_quarters(other.quarters() - self.quarters() + 4)
        }
    }

    /// The opposite edge: `Up` and `Down` swap, `Left` and `Right` swap, `Neutral` stays.
    pub fn reverse(&self) -> (r: Direction)
        ensures
            r == self.turned(Angle::Clockwise180),
    {
        match self {
            Direction::Up => Direction::Down,
            Direction::Down => Direction::Up,
            Direction::Left => Direction::Right,
            Direction::Right => Direction::Left,
            Direction::Neutral => Direction::Neutral,
        }
    }

    /// The canonical orientation of an edge: `Up` 0°, `Right` 90°, `Down` 180°, `Left` 270°.
    fn as_angle(&self) -> (r: Angle)
        ensures
            r.quarters() == self.quarters(),
    {
        match self {
            Direction::Up => Angle::Clockwise0,
            Direction::Right => Angle::Clockwise90,
            Direction::Down => Angle::Clockwise180,
            Direction::Left => Angle::Clockwise270,
            Direction::Neutral => Angle::Clockwise0,
        }
    }

    /// The rotation that carries the orientation of `self` onto that of `other`.
    pub fn angle_to(&self, other: Direction) -> (r: Angle)
        ensures
            r == self.angle_towards(other),
            self.is_edge() && other.is_edge() ==> self.turned(r) == other,
    {
        other.rotated(self.as_angle().negative()).as_angle()
    }

    /// All five directions, the edges first.
    pub fn iter() -> (r: Vec<Direction>)
        ensures
            r@ == seq![Direction::Up, Direction::Down, Direction::Left, Direction::Right, Direction::Neutral],
    {
        vec![Direction::Up, Direction::Down, Direction::Left, Direction::Right, Direction::Neutral]
    }

    /// The edge reached by turning this one clockwise by `angle`; `Neutral` stays `Neutral`.
    pub fn rotated(&self, angle: Angle) -> (r: Direction)
        ensures
            r == self.turned(angle),
    {
        match (*self, angle) {
            (Direction::Neutral, _) => Direction::Neutral,
            (current, Angle::Clockwise0) => current,
            (Direction::Up, Angle::Clockwise90) => Direction::Right,
            (Direction::Up, Angle::Clockwise180) => Direction::Down,
            (Direction::Up, Angle::Clockwise270) => Direction::Left,
            (Direction::Right, Angle::Clockwise90) => Direction::Down,
            (Direction::Right, Angle::Clockwise180) => Direction::Left,
            (Direction::Right, Angle::Clockwise270) => Direction::Up,
            (Direction::Down, Angle::Clockwise90) => Direction::Left,
            (Direction::Down, Angle::Clockwise180) => Direction::Up,
            (Direction::Down, Angle::Clockwise270) => Direction::Right,
            (Direction::Left, Angle::Clockwise90) => Direction::Up,
            (Direction::Left, Angle::Clockwise180) => Direction::Right,
            (Direction::Left, Angle::Clockwise270) => Direction::Down,
        }
    }
}

/// Turning any direction four times by a quarter turn leaves it where it was.
pub proof fn lemma_four_quarter_turns(d: Direction)
    ensures
        d.turned(Angle::Clockwise90).turned(Angle::Clockwise90).turned(Angle::Clockwise90).turned(
            Angle::Clockwise90,
        ) == d,
{
}

/// Rotation is a group action on directions: the zero angle changes nothing, and turning by
/// `a` and then by `b` is turning by their sum.
pub proof fn lemma_rotation_action(d: Direction, a: Angle, b: Angle)
    ensures
        d.turned(Angle::Clockwise0) == d,
        d.turned(a).turned(b) == d.turned(a.followed_by(b)),
{
}

/// Going round a cycle of four edges, the relative angles between consecutive edges add up to
/// no turn at all; once round the compass in quarter turns, each step is a quarter turn.
pub proof fn lemma_angle_cycle(d0: Direction, d1: Direction, d2: Direction, d3: Direction)
    requires
        d0.is_edge(),
        d1.is_edge(),
        d2.is_edge(),
        d3.is_edge(),
    ensures
        d0.angle_towards(d1).followed_by(d1.angle_towards(d2)).followed_by(
            d2.angle_towards(d3),
        ).followed_by(d3.angle_towards(d0)) == Angle::Clockwise0,
        Direction::Up.angle_towards(Direction::Right) == Angle::Clockwise90,
        Direction::Right.angle_towards(Direction::Down) == Angle::Clockwise90,
        Direction::Down.angle_towards(Direction::Left) == Angle::Clockwise90,
        Direction::Left.angle_towards(Direction::Up) == Angle::Clockwise90,
{
}

} // verus!
