//! The world: frames and entities, construction of the cube, and the tick.

use vstd::prelude::*;

use crate::collision::{
    contacts_at, contacts_of, lemma_run_stays_failed, moved, moved_before, plan_of, run_substeps, solid_at,
    lemma_moved_bounded, speed_within, start_of, substep, tile_after, MoveError, MovePlan, MoveState,
};
use crate::controls::{
    edit_target, edited, entity_after_keys, held_velocity, impulse_sum, last_edit, lemma_impulse_sum, IMPULSE,
    JUMP_SPEED,
};
use crate::cube::{
    cube_borders, frames_wf, lemma_cube_wf, lemma_retiled_wf, lemma_same_links_same_tiles,
    BACK, DOWN, FRAME_COUNT, FRONT, LEFT, RIGHT, UP,
};
use crate::direction::{Angle, Direction};
use crate::frame::{grid_index, in_grid, tile_of_roll, Frame, FrameLink, FRAME_TILE_COUNT, FRAME_WIDTH};
use crate::input::{distinct, InputState, Keycode};
use crate::motion::{
    collision_x, collision_y, damp, direction_of_x, direction_of_y, divide_towards_zero,
    snap_to_boundary_above, snap_to_boundary_below, substep_count, substeps_for, x_direction,
    y_direction, Velocity, MAX_SPEED, MAX_SUBSTEPS,
};
use crate::position::{
    in_bounds, is_position, normalized, tile_index_normalized, RawWorldPosition, WorldPosition,
    MAX_HOPS, RAW_LIMIT, TILE_SIZE, UNIT,
};
use crate::types::{Contacts, EntityId, FrameId, Tile};

verus! {

/// What kind of thing an entity is.
#[derive(Copy, Clone, Debug, PartialEq, Eq, Structural)]
pub enum EntityKind {
    Player,
}

/// Something that moves over the frames.
#[derive(Copy, Clone, Debug, PartialEq, Eq, Structural)]
pub struct Entity {
    pub position: WorldPosition,
    pub velocity: Velocity,
    /// Direction of the last movement, the vertical one preferred.
    pub last_movement_direction: Direction,
    pub last_movement_direction_x: Direction,
    pub last_movement_direction_y: Direction,
    pub kind: EntityKind,
    pub orientation: Direction,
    pub id: EntityId,
    /// Whether the entity rests on a solid tile below it.
    pub grounded: bool,
}


/// An entity stands in a frame of `frames`, inside it, and its speed is bounded.
pub open spec fn entity_wf(frames: Seq<Frame>, e: Entity) -> bool {
    &&& e.position.frame_id.0 < frames.len()
    &&& in_bounds(e.position.x as int, e.position.y as int)
    &&& e.velocity.bounded()
}


/// A move in progress, in executable form.
#[derive(Copy, Clone)]
struct Motion {
    x: i64,
    y: i64,
    vx: i64,
    vy: i64,
    set_x: Direction,
    set_y: Direction,
    grounded: bool,
}

impl Motion {
    spec fn view(self) -> MoveState {
        MoveState {
            x: self.x as int,
            y: self.y as int,
            vx: self.vx as int,
            vy: self.vy as int,
            set_x: self.set_x,
            set_y: self.set_y,
            grounded: self.grounded,
        }
    }
}

/// The plan of a move, in executable form.
struct Course {
    frame: FrameId,
    dx: i64,
    dy: i64,
    dir_x: Direction,
    dir_y: Direction,
    last_x: Direction,
    last_y: Direction,
    last: Direction,
}

impl Course {
    spec fn view(self) -> MovePlan {
        MovePlan {
            frame: self.frame,
            dx: self.dx as int,
            dy: self.dy as int,
            dir_x: self.dir_x,
            dir_y: self.dir_y,
            last_x: self.last_x,
            last_y: self.last_y,
            last: self.last,
        }
    }
}

/// Largest distance that one sub-step moves a coordinate, the snap to a boundary included.
pub const SUBSTEP_REACH: i64 = 1_125_000;


/// The player as it starts: at `(0.3, 0.1)` of frame `frame_id`, at rest, facing up.
pub open spec fn initial_player(frame_id: FrameId, id: EntityId) -> Entity {
    Entity {
        position: WorldPosition { frame_id, x: 300_000, y: 100_000 },
        velocity: Velocity { x: 0, y: 0 },
        last_movement_direction: Direction::Neutral,
        last_movement_direction_x: Direction::Neutral,
        last_movement_direction_y: Direction::Neutral,
        kind: EntityKind::Player,
        orientation: Direction::Up,
        id,
        grounded: false,
    }
}


/// The world: six frames glued into a cube, and the entities on them.
pub struct World {
    frames: Vec<Frame>,
    entities: Vec<Entity>,
    pub focus_entity: Option<EntityId>,
    iota: usize,
}

impl World {
    pub closed spec fn frames(&self) -> Seq<Frame> {
        self.frames@
    }

    pub closed spec fn entities(&self) -> Seq<Entity> {
        self.entities@
    }

    /// The next identifier to hand out.
    pub closed spec fn iota(&self) -> usize {
        self.iota
    }

    pub closed spec fn focus(&self) -> Option<EntityId> {
        self.focus_entity
    }

    pub open spec fn has_entity(&self, id: EntityId) -> bool {
        exists|i: int| 0 <= i < self.entities().len() && (#[trigger] self.entities()[i]).id == id
    }

    /// Position of the entity `id` among the entities.
    pub open spec fn entity_index(&self, id: EntityId) -> int {
        choose|i: int| 0 <= i < self.entities().len() && (#[trigger] self.entities()[i]).id == id
    }

    pub open spec fn entity(&self, id: EntityId) -> Entity {
        self.entities()[self.entity_index(id)]
    }

    pub open spec fn wf(&self) -> bool {
        &&& frames_wf(self.frames())
        &&& self.entities().len() < usize::MAX
        &&& forall|i: int|
            0 <= i < self.entities().len() ==> entity_wf(self.frames(), #[trigger] self.entities()[i])
        &&& forall|i: int, j: int|
            0 <= i < self.entities().len() && 0 <= j < self.entities().len()
                && (#[trigger] self.entities()[i]).id == (#[trigger] self.entities()[j]).id ==> i == j
        &&& forall|i: int| 0 <= i < self.entities().len() ==> (#[trigger] self.entities()[i]).id.0 < self.iota()
        &&& self.focus() matches Some(id) ==> self.has_entity(id)
    }

    /// Replacing one entity by a well-placed one of the same identifier, and perhaps retiling
    /// the frames, keeps the world well formed and every entity where it was.
    proof fn lemma_entity_replaced(before: World, after: World, idx: int)
        requires
            before.wf(),
            frames_wf(after.frames()),
            after.frames().len() == before.frames().len(),
            0 <= idx < before.entities().len(),
            after.iota() == before.iota(),
            after.focus() == before.focus(),
            after.entities() == before.entities().update(idx, after.entities()[idx]),
            after.entities()[idx].id == before.entities()[idx].id,
            entity_wf(after.frames(), after.entities()[idx]),
        ensures
            after.wf(),
            forall|id: EntityId| #[trigger] after.has_entity(id) == before.has_entity(id),
            forall|id: EntityId| before.has_entity(id) ==> #[trigger] after.entity_index(id) == before.entity_index(id),
    {
        assert forall|i: int| 0 <= i < after.entities().len() implies (#[trigger] after.entities()[i]).id
            == before.entities()[i].id && entity_wf(after.frames(), after.entities()[i]) by {
            if i != idx {
                assert(entity_wf(before.frames(), before.entities()[i]));
            }
        }
        assert forall|id: EntityId| #[trigger] after.has_entity(id) == before.has_entity(id) by {
            if before.has_entity(id) {
                let k = choose|k: int| 0 <= k < before.entities().len() && (#[trigger] before.entities()[k]).id == id;
                assert(after.entities()[k].id == id);
            }
            if after.has_entity(id) {
                let k = choose|k: int| 0 <= k < after.entities().len() && (#[trigger] after.entities()[k]).id == id;
                assert(before.entities()[k].id == id);
            }
        }
        assert forall|id: EntityId| before.has_entity(id) implies #[trigger] after.entity_index(id) == before.entity_index(id) by {
            let a = after.entity_index(id);
            let b = before.entity_index(id);
            assert(after.has_entity(id));
            assert(after.entities()[a].id == id);
            assert(before.entities()[a].id == id);
            assert(before.entities()[b].id == id);
        }
        if let Some(fid) = after.focus() {
            assert(before.has_entity(fid));
        }
    }

    /// The index of entity `id`, if there is one.
    fn find_entity(&self, id: EntityId) -> (r: Option<usize>)
        requires
            self.wf(),
        ensures
            r matches Some(i) ==> i == self.entity_index(id) && self.has_entity(id),
            r is None ==> !self.has_entity(id),
    {
        let mut i: usize = 0;
        while i < self.entities.len()
            invariant
                self.wf(),
                i <= self.entities@.len(),
                forall|j: int| 0 <= j < i ==> (#[trigger] self.entities@[j]).id != id,
            decreases self.entities@.len() - i,
        {
            if self.entities[i].id == id {
                assert(self.entities()[i as int].id == id);
                assert(self.has_entity(id));
                let ghost k = self.entity_index(id);
                assert(0 <= k < self.entities().len() && self.entities()[k].id == id);
                assert(self.entities()[i as int].id == self.entities()[k].id);
                assert(i as int == k);
                return Some(i);
            }
            i = i + 1;
        }
        None
    }

    pub fn get_entity(&self, entity_id: EntityId) -> (r: Option<&Entity>)
        requires
            self.wf(),
        ensures
            r matches Some(e) ==> self.has_entity(entity_id) && *e == self.entity(entity_id),
            r is None ==> !self.has_entity(entity_id),
    {
        match self.find_entity(entity_id) {
            Some(i) => Some(&self.entities[i]),
            None => None,
        }
    }

    /// The identifiers of all entities, in a stable order.
    pub fn entity_ids(&self) -> (r: Vec<EntityId>)
        ensures
            r@.len() == self.entities().len(),
            forall|i: int| 0 <= i < r@.len() ==> r@[i] == (#[trigger] self.entities()[i]).id,
    {
        let mut ids: Vec<EntityId> = Vec::new();
        let mut i: usize = 0;
        while i < self.entities.len()
            invariant
                i <= self.entities@.len(),
                ids@.len() == i,
                forall|j: int| 0 <= j < i ==> ids@[j] == (#[trigger] self.entities@[j]).id,
            decreases self.entities@.len() - i,
        {
            ids.push(self.entities[i].id);
            i = i + 1;
        }
        ids
    }

    pub fn get_frame(&self, frame_position: FrameId) -> (r: Option<&Frame>)
        ensures
            r matches Some(f) ==> frame_position.0 < self.frames().len() && *f
                == self.frames()[frame_position.0 as int],
            r is None ==> frame_position.0 >= self.frames().len(),
    {
        if frame_position.0 < self.frames.len() {
            Some(&self.frames[frame_position.0])
        } else {
            None
        }
    }

    /// Hands out a fresh identifier.
    pub fn generate_id(&mut self) -> (r: usize)
        requires
            old(self).iota() < usize::MAX,
        ensures
            r == old(self).iota(),
            final(self).iota() == old(self).iota() + 1,
            final(self).frames() == old(self).frames(),
            final(self).entities() == old(self).entities(),
            final(self).focus() == old(self).focus(),
    {
        let current = self.iota;
        self.iota = self.iota + 1;
        current
    }

    /// The frame and tile that tile `(x, y)` of frame `origin_frame_position` denotes, one
    /// edge crossing at most away. A tile beyond a corner of the frame, further than one frame
    /// away, or across an unlinked edge is a broken topology, which callers leave out.
    pub fn normalize_tile_index(&self, origin_frame_position: FrameId, x: isize, y: isize) -> (r: (FrameId, isize, isize))
        requires
            tile_index_normalized(self.frames(), origin_frame_position, x as int, y as int) is Some,
        ensures
            ({
                let t = tile_index_normalized(self.frames(), origin_frame_position, x as int, y as int).unwrap();
                r.0 == t.0 && r.1 == t.1 && r.2 == t.2
            }),
    {
        self.find_tile(origin_frame_position, x, y).unwrap()
    }

    /// The frame and tile that tile `(x, y)` of frame `origin_frame_position` denotes, one
    /// edge crossing at most away; `None` when the tile is beyond a corner of the frame, further
    /// than one frame away, or across an unlinked edge.
    fn find_tile(&self, origin_frame_position: FrameId, x: isize, y: isize) -> (r: Option<(FrameId, isize, isize)>)
        ensures
            match (r, tile_index_normalized(self.frames(), origin_frame_position, x as int, y as int)) {
                (Some(a), Some(b)) => a.0 == b.0 && a.1 == b.1 && a.2 == b.2,
                (None, None) => true,
                _ => false,
            },
    {
        let w = FRAME_WIDTH as isize;
        if !(-2 * w <= x && x < 2 * w && -2 * w <= y && y < 2 * w && ((0 <= x && x < w) || (0
            <= y && y < w))) {
            return None;
        }
        let (direction, real_x, real_y) = if x >= w {
            (Direction::Right, x - w, y)
        } else if x < 0 {
            (Direction::Left, x + w, y)
        } else if y >= w {
            (Direction::Down, x, y - w)
        } else if y < 0 {
            (Direction::Up, x, y + w)
        } else {
            (Direction::Neutral, x, y)
        };
        if origin_frame_position.0 >= self.frames.len() {
            return None;
        }
        match self.frames[origin_frame_position.0].borders.at_direction(direction) {
            None => None,
            Some(l) => {
                if l.frame.0 >= self.frames.len() {
                    return None;
                }
                let angle = direction.angle_to(l.entry_edge.reverse());
                let (tx, ty) = match angle {
                    Angle::Clockwise0 => (real_x, real_y),
                    Angle::Clockwise90 => (w - 1 - real_y, real_x),
                    Angle::Clockwise180 => (w - 1 - real_x, w - 1 - real_y),
                    Angle::Clockwise270 => (real_y, w - 1 - real_x),
                };
                Some((l.frame, tx, ty))
            },
        }
    }

    /// Whether tile `(x, y)` of frame `f`, followed across an edge where needed, is solid.
    fn is_solid(&self, f: FrameId, x: isize, y: isize) -> (r: Option<bool>)
        requires
            frames_wf(self.frames()),
        ensures
            r == solid_at(self.frames(), f, x as int, y as int),
    {
        match self.find_tile(f, x, y) {
            Some((g, tx, ty)) => {
                let frame = &self.frames[g.0];
                assert(frame.wf());
                Some(frame.tile(tx, ty).is_solid())
            },
            None => None,
        }
    }

    /// Solidity of the four tiles around `position`, once normalized; `None` when the
    /// position or one of the tiles cannot be resolved.
    pub fn point_contacts(&self, position: RawWorldPosition) -> (r: Option<Contacts>)
        requires
            frames_wf(self.frames()),
            -RAW_LIMIT <= position.x <= RAW_LIMIT,
            -RAW_LIMIT <= position.y <= RAW_LIMIT,
        ensures
            r == contacts_at(self.frames(), position.root_frame_id, position.x as int, position.y as int),
    {
        reveal(contacts_at);
        let p = match position.resolve(self) {
            Some(p) => p,
            None => {
                return None;
            },
        };
        let ax = p.x + UNIT;
        let ay = p.y + UNIT;
        let tile_x_left = ((ax + TILE_SIZE - 1) / TILE_SIZE - 1) as isize;
        let tile_x_right = (ax / TILE_SIZE) as isize;
        let tile_y_up = ((ay + TILE_SIZE - 1) / TILE_SIZE - 1) as isize;
        let tile_y_down = (ay / TILE_SIZE) as isize;
        let up_left = self.is_solid(p.frame_id, tile_x_left, tile_y_up);
        let up_right = self.is_solid(p.frame_id, tile_x_right, tile_y_up);
        let down_left = self.is_solid(p.frame_id, tile_x_left, tile_y_down);
        let down_right = self.is_solid(p.frame_id, tile_x_right, tile_y_down);
        assert(contacts_at(self.frames(), position.root_frame_id, position.x as int, position.y as int)
            == contacts_of(self.frames(), (p.frame_id, p.x as int, p.y as int)));
        match (up_left, up_right, down_left, down_right) {
            (Some(a), Some(b), Some(c), Some(d)) => Some(
                Contacts { top_left: a, top_right: b, bottom_left: c, bottom_right: d },
            ),
            _ => None,
        }
    }

    /// The tile of its own frame that holds `position`.
    pub fn tile_index_at_position(&self, position: WorldPosition) -> (r: (isize, isize))
        requires
            in_bounds(position.x as int, position.y as int),
        ensures
            r.0 == tile_after(position.x as int),
            r.1 == tile_after(position.y as int),
    {
        let tx = ((position.x + UNIT) / TILE_SIZE) as isize;
        let ty = ((position.y + UNIT) / TILE_SIZE) as isize;
        (tx, ty)
    }

    /// The tile at `position`.
    pub fn tile_at_position(&self, position: WorldPosition) -> (r: Tile)
        requires
            frames_wf(self.frames()),
            position.frame_id.0 < self.frames().len(),
            in_bounds(position.x as int, position.y as int),
        ensures
            r == self.frames()[position.frame_id.0 as int].tile_at(
                tile_after(position.x as int),
                tile_after(position.y as int),
            ),
    {
        let frame = &self.frames[position.frame_id.0];
        assert(frame.wf());
        let (tx, ty) = self.tile_index_at_position(position);
        *frame.tile(tx, ty)
    }

    /// The tile under entity `id`.
    pub fn tile_at_entity(&self, id: EntityId) -> (r: Tile)
        requires
            self.wf(),
            self.has_entity(id),
        ensures
            ({
                let p = self.entity(id).position;
                r == self.frames()[p.frame_id.0 as int].tile_at(tile_after(p.x as int), tile_after(p.y as int))
            }),
    {
        let i = self.find_entity(id).unwrap();
        let position = self.entities[i].position;
        self.tile_at_position(position)
    }

    /// The tile index of entity `id` in its frame.
    pub fn tile_index_at_entity(&self, id: EntityId) -> (r: (isize, isize))
        requires
            self.wf(),
            self.has_entity(id),
        ensures
            r.0 == tile_after(self.entity(id).position.x as int),
            r.1 == tile_after(self.entity(id).position.y as int),
    {
        let i = self.find_entity(id).unwrap();
        let position = self.entities[i].position;
        self.tile_index_at_position(position)
    }

    /// A world of six frames glued into a cube, with the player at the front. Tile `k` of
    /// frame `i` is solid when `tile_rolls[i][k]`, a draw from `1..=100`, is at most
    /// `SOLID_ROLL_MAX`.
    pub fn new(tile_rolls: &Vec<Vec<u8>>) -> (r: World)
        requires
            tile_rolls@.len() == FRAME_COUNT,
            forall|i: int|
                0 <= i < FRAME_COUNT ==> (#[trigger] tile_rolls@[i])@.len() == FRAME_TILE_COUNT,
            forall|i: int, k: int|
                0 <= i < FRAME_COUNT && 0 <= k < FRAME_TILE_COUNT ==> 1 <= #[trigger] tile_rolls@[i]@[k] <= 100,
        ensures
            r.wf(),
            r.frames().len() == FRAME_COUNT,
            forall|i: int|
                0 <= i < FRAME_COUNT ==> {
                    &&& (#[trigger] r.frames()[i]).position == FrameId(i as usize)
                    &&& r.frames()[i].borders == cube_borders(i as usize)
                    &&& r.frames()[i].orientation == Direction::Neutral
                },
            forall|i: int, k: int|
                0 <= i < FRAME_COUNT && 0 <= k < FRAME_TILE_COUNT ==> #[trigger] r.frames()[i].tiles()[k]
                    == tile_of_roll(tile_rolls@[i]@[k]),
            r.entities() == seq![initial_player(FrameId(FRONT), EntityId(0))],
            r.focus() == Some(EntityId(0)),
            r.iota() == 1,
    {
        let mut world = World { frames: Vec::new(), entities: Vec::new(), focus_entity: None, iota: 0 };
        let mut i: usize = 0;
        while i < FRAME_COUNT
            invariant
                i <= FRAME_COUNT,
                tile_rolls@.len() == FRAME_COUNT,
                forall|j: int|
                    0 <= j < FRAME_COUNT ==> (#[trigger] tile_rolls@[j])@.len() == FRAME_TILE_COUNT,
                forall|j: int, k: int|
                    0 <= j < FRAME_COUNT && 0 <= k < FRAME_TILE_COUNT ==> 1 <= #[trigger] tile_rolls@[j]@[k] <= 100,
                world.frames@.len() == i,
                world.entities@.len() == 0,
                world.focus_entity is None,
                world.iota == 0,
                forall|j: int|
                    0 <= j < i ==> {
                        &&& (#[trigger] world.frames@[j]).wf()
                        &&& world.frames@[j].position == FrameId(j as usize)
                        &&& world.frames@[j].borders == Frame::initial_borders(FrameId(j as usize))
                        &&& world.frames@[j].orientation == Direction::Neutral
                    },
                forall|j: int, k: int|
                    0 <= j < i && 0 <= k < FRAME_TILE_COUNT ==> #[trigger] world.frames@[j].tiles()[k]
                        == tile_of_roll(tile_rolls@[j]@[k]),
            decreases FRAME_COUNT - i,
        {
            let frame = Frame::new_populated(FrameId::new(i), &tile_rolls[i]);
            world.frames.push(frame);
            i = i + 1;
        }
        let ghost start = world.frames();
        let front_id = FrameId::new(FRONT);
        let left_id = FrameId::new(LEFT);
        let right_id = FrameId::new(RIGHT);
        let up_id = FrameId::new(UP);
        let down_id = FrameId::new(DOWN);
        let back_id = FrameId::new(BACK);

        world.connect_frames(front_id, Direction::Up, up_id, Direction::Down);
        world.connect_frames(front_id, Direction::Left, left_id, Direction::Right);
        world.connect_frames(front_id, Direction::Right, right_id, Direction::Left);
        world.connect_frames(front_id, Direction::Down, down_id, Direction::Up);

        world.connect_frames(back_id, Direction::Up, up_id, Direction::Up);
        world.connect_frames(back_id, Direction::Right, left_id, Direction::Left);
        world.connect_frames(back_id, Direction::Left, right_id, Direction::Right);
        world.connect_frames(back_id, Direction::Down, down_id, Direction::Down);

        world.connect_frames(left_id, Direction::Up, up_id, Direction::Left);
        world.connect_frames(left_id, Direction::Down, down_id, Direction::Right);

        world.connect_frames(right_id, Direction::Up, up_id, Direction::Right);
        world.connect_frames(right_id, Direction::Down, down_id, Direction::Left);

        assert forall|j: int| 0 <= j < FRAME_COUNT implies {
            &&& (#[trigger] world.frames()[j]).wf()
            &&& world.frames()[j].position == FrameId(j as usize)
            &&& world.frames()[j].borders == cube_borders(j as usize)
        } by {
            assert(start[j].wf());
        }
        proof {
            lemma_cube_wf(world.frames());
        }
        let player = Entity::new_player(&mut world, front_id);
        let player_id = player.id;
        world.entities.push(player);
        world.focus_entity = Some(player_id);
        assert(world.entities()[0] == player);
        world
    }

    /// Mutable access to entity `id`.
    pub fn get_entity_mut(&mut self, entity_id: EntityId) -> (r: &mut Entity)
        requires
            old(self).wf(),
            old(self).has_entity(entity_id),
        ensures
            *r == old(self).entity(entity_id),
            final(self).entities() == old(self).entities().update(
                old(self).entity_index(entity_id),
                *final(r),
            ),
            final(self).frames() == old(self).frames(),
            final(self).iota() == old(self).iota(),
            final(self).focus() == old(self).focus(),
    {
        let i = self.find_entity(entity_id).unwrap();
        &mut self.entities[i]
    }

    /// Mutable access to frame `frame_position`.
    pub fn get_frame_mut(&mut self, frame_position: FrameId) -> (r: &mut Frame)
        requires
            frame_position.0 < old(self).frames().len(),
        ensures
            *r == old(self).frames()[frame_position.0 as int],
            final(self).frames() == old(self).frames().update(frame_position.0 as int, *final(r)),
            final(self).entities() == old(self).entities(),
            final(self).iota() == old(self).iota(),
            final(self).focus() == old(self).focus(),
    {
        &mut self.frames[frame_position.0]
    }

    /// Whether entity `id` rests on a solid tile.
    fn entity_grounded(&self, id: EntityId) -> (r: bool)
        requires
            self.wf(),
            self.has_entity(id),
        ensures
            r == self.entity(id).grounded,
    {
        let i = self.find_entity(id).unwrap();
        self.entities[i].grounded
    }

    /// Adds `(dx, dy)` to the velocity of entity `id`.
    fn impulse_entity(&mut self, id: EntityId, dx: i64, dy: i64)
        requires
            old(self).wf(),
            old(self).has_entity(id),
            -MAX_SPEED <= old(self).entity(id).velocity.x + dx <= MAX_SPEED,
            -MAX_SPEED <= old(self).entity(id).velocity.y + dy <= MAX_SPEED,
        ensures
            final(self).wf(),
            final(self).frames() == old(self).frames(),
            final(self).iota() == old(self).iota(),
            final(self).focus() == old(self).focus(),
            final(self).entities() == old(self).entities().update(
                old(self).entity_index(id),
                Entity {
                    velocity: Velocity {
                        x: (old(self).entity(id).velocity.x + dx) as i64,
                        y: (old(self).entity(id).velocity.y + dy) as i64,
                    },
                    ..old(self).entity(id)
                },
            ),
            forall|k: EntityId| #[trigger] final(self).has_entity(k) == old(self).has_entity(k),
            forall|k: EntityId| old(self).has_entity(k) ==> #[trigger] final(self).entity_index(k) == old(self).entity_index(k),
    {
        let i = self.find_entity(id).unwrap();
        let mut e = self.entities[i];
        assert(entity_wf(self.frames(), self.entities()[i as int]));
        e.velocity = Velocity { x: e.velocity.x + dx, y: e.velocity.y + dy };
        let ghost before = *self;
        self.entities.set(i, e);
        proof {
            World::lemma_entity_replaced(before, *self, i as int);
        }
    }

    /// Gives entity `id` the upward jump speed if it is grounded; tells whether it did.
    pub fn jump_entity(&mut self, id: EntityId) -> (r: bool)
        requires
            old(self).wf(),
            old(self).has_entity(id),
        ensures
            final(self).wf(),
            r == old(self).entity(id).grounded,
            final(self).frames() == old(self).frames(),
            final(self).iota() == old(self).iota(),
            final(self).focus() == old(self).focus(),
            final(self).entities() == if r {
                old(self).entities().update(
                    old(self).entity_index(id),
                    Entity {
                        velocity: Velocity { x: old(self).entity(id).velocity.x, y: (-JUMP_SPEED) as i64 },
                        ..old(self).entity(id)
                    },
                )
            } else {
                old(self).entities()
            },
            forall|k: EntityId| #[trigger] final(self).has_entity(k) == old(self).has_entity(k),
            forall|k: EntityId| old(self).has_entity(k) ==> #[trigger] final(self).entity_index(k) == old(self).entity_index(k),
    {
        if self.entity_grounded(id) {
            let i = self.find_entity(id).unwrap();
            let mut e = self.entities[i];
            assert(entity_wf(self.frames(), self.entities()[i as int]));
            e.velocity = Velocity { x: e.velocity.x, y: -JUMP_SPEED };
            let ghost before = *self;
            self.entities.set(i, e);
            proof {
                World::lemma_entity_replaced(before, *self, i as int);
            }
            true
        } else {
            false
        }
    }

    /// Sets the tile right of the one that holds entity `id`, followed across an edge where
    /// needed, to `tile`.
    fn set_facing_tile(&mut self, id: EntityId, tile: Tile)
        requires
            old(self).wf(),
            old(self).has_entity(id),
        ensures
            final(self).wf(),
            edited(old(self).frames(), final(self).frames(), edit_target(old(self).frames(), old(self).entity(id)), Some(tile)),
            final(self).entities() == old(self).entities(),
            final(self).iota() == old(self).iota(),
            final(self).focus() == old(self).focus(),
    {
        let i = self.find_entity(id).unwrap();
        let position = self.entities[i].position;
        assert(entity_wf(self.frames(), self.entities()[i as int]));
        let (ex, ey) = self.tile_index_at_position(position);
        match self.find_tile(position.frame_id, ex + 1, ey) {
            Some((g, tx, ty)) => {
                let ghost before = *self;
                assert(self.frames()[g.0 as int].wf());
                let frame = self.get_frame_mut(g);
                *frame.tile_mut(tx, ty) = tile;
                proof {
                    assert forall|j: int| 0 <= j < before.frames().len() implies {
                        &&& (#[trigger] self.frames()[j]).borders == before.frames()[j].borders
                        &&& self.frames()[j].position == before.frames()[j].position
                        &&& self.frames()[j].wf()
                    } by {
                        assert(before.frames()[j].wf());
                    }
                    lemma_retiled_wf(before.frames(), self.frames());
                    assert forall|j: int| 0 <= j < self.entities().len() implies entity_wf(self.frames(), #[trigger] self.entities()[j]) by {
                        assert(entity_wf(before.frames(), before.entities()[j]));
                    }
                }
            },
            None => {},
        }
    }

    /// One tick of the world: the held movement keys push the focus entity, a pressed `W`
    /// makes it jump when grounded, a pressed `E` or `Q` sets the tile in front of it solid or
    /// empty, and then every entity moves. An error tells that the move of some entity could
    /// not be resolved; the entities before it in order have moved, it and the others have not.
    pub fn tick(&mut self, input_state: &InputState) -> (r: Result<(), MoveError>)
        requires
            old(self).wf(),
            old(self).focus() is Some,
            input_state.wf(),
            speed_within(old(self).entity(old(self).focus().unwrap()).velocity, (MAX_SPEED - IMPULSE) as int),
        ensures
            final(self).wf(),
            final(self).iota() == old(self).iota(),
            final(self).focus() == old(self).focus(),
            ({
                let e0 = old(self).entity(old(self).focus().unwrap());
                let staged = old(self).entities().update(
                    old(self).entity_index(old(self).focus().unwrap()),
                    entity_after_keys(e0, *input_state),
                );
                &&& edited(
                    old(self).frames(),
                    final(self).frames(),
                    edit_target(old(self).frames(), e0),
                    last_edit(input_state.keys_pressed@),
                )
                &&& last_edit(input_state.keys_pressed@) is None ==> final(self).frames() == old(self).frames()
                &&& final(self).entities().len() == staged.len()
                &&& (r is Ok <==> forall|i: int|
                    0 <= i < staged.len() ==> (#[trigger] moved(final(self).frames(), staged[i])) is Some)
                &&& r is Ok ==> forall|i: int|
                    0 <= i < staged.len() ==> final(self).entities()[i] == (#[trigger] moved(
                        final(self).frames(),
                        staged[i],
                    )).unwrap()
                &&& r is Ok ==> forall|i: int|
                    0 <= i < staged.len() ==> speed_within(
                        (#[trigger] final(self).entities()[i]).velocity,
                        (MAX_SPEED - IMPULSE) as int,
                    )
                &&& r is Err ==> exists|k: int|
                    0 <= k < staged.len() && (#[trigger] moved(final(self).frames(), staged[k])) is None
                        && moved_before(final(self).frames(), staged, final(self).entities(), k)
            }),
    {
        let player_id = self.focus_entity.unwrap();
        let idx = self.find_entity(player_id).unwrap();
        let ghost e0 = self.entities()[idx as int];
        let ghost start = *self;
        assert(start == *old(self));
        let ghost held = input_state.keys_held@;
        let ghost pressed = input_state.keys_pressed@;

        let mut k: usize = 0;
        while k < input_state.keys_held.len()
            invariant
                start == *old(self),
                start.focus() == Some(player_id),
                e0 == start.entity(player_id),
                self.wf(),
                start.wf(),
                start.entity_index(player_id) == idx,
                start.entities()[idx as int] == e0,
                self.has_entity(player_id),
                self.entity_index(player_id) == idx,
                0 <= idx < start.entities().len(),
                k <= held.len(),
                held == input_state.keys_held@,
                self.frames() == start.frames(),
                self.iota() == start.iota(),
                self.focus() == start.focus(),
                self.entities() == start.entities().update(
                    idx as int,
                    Entity {
                        velocity: Velocity {
                            x: (e0.velocity.x + impulse_sum(held.subrange(0, k as int)).0) as i64,
                            y: (e0.velocity.y + impulse_sum(held.subrange(0, k as int)).1) as i64,
                        },
                        ..e0
                    },
                ),
                distinct(held),
                speed_within(e0.velocity, (MAX_SPEED - IMPULSE) as int),
                -IMPULSE <= impulse_sum(held.subrange(0, k as int)).0 <= IMPULSE,
                -IMPULSE <= impulse_sum(held.subrange(0, k as int)).1 <= IMPULSE,
            decreases held.len() - k,
        {
            let key = input_state.keys_held[k];
            proof {
                let next = held.subrange(0, k + 1);
                assert(next.drop_last() =~= held.subrange(0, k as int));
                assert(next.last() == key);
                assert(distinct(next));
                lemma_impulse_sum(next);
                assert(self.entity(player_id) == self.entities()[idx as int]);
            }
            match key {
                Keycode::A => self.impulse_entity(player_id, -IMPULSE, 0),
                Keycode::D => self.impulse_entity(player_id, IMPULSE, 0),
                Keycode::W => self.impulse_entity(player_id, 0, -IMPULSE),
                Keycode::S => self.impulse_entity(player_id, 0, IMPULSE),
                _ => {},
            }
            proof {
                assert(held.subrange(0, k + 1).drop_last() =~= held.subrange(0, k as int));
                assert(held.subrange(0, k + 1).last() == key);
            }
            k = k + 1;
        }
        proof {
            assert(held.subrange(0, held.len() as int) =~= held);
            lemma_impulse_sum(held);
        }
        let ghost vh = held_velocity(held, e0.velocity);
        let ghost target = edit_target(start.frames(), e0);

        let mut k: usize = 0;
        while k < input_state.keys_pressed.len()
            invariant
                start == *old(self),
                start.focus() == Some(player_id),
                e0 == start.entity(player_id),
                self.wf(),
                start.wf(),
                start.entity_index(player_id) == idx,
                start.entities()[idx as int] == e0,
                self.has_entity(player_id),
                self.entity_index(player_id) == idx,
                0 <= idx < start.entities().len(),
                k <= pressed.len(),
                pressed == input_state.keys_pressed@,
                self.iota() == start.iota(),
                self.focus() == start.focus(),
                target == edit_target(start.frames(), e0),
                self.entities() == start.entities().update(
                    idx as int,
                    Entity {
                        velocity: if pressed.subrange(0, k as int).contains(Keycode::W) && e0.grounded {
                            Velocity { x: vh.x, y: (-JUMP_SPEED) as i64 }
                        } else {
                            vh
                        },
                        ..e0
                    },
                ),
                edited(start.frames(), self.frames(), target, last_edit(pressed.subrange(0, k as int))),
                last_edit(pressed.subrange(0, k as int)) is None ==> self.frames() == start.frames(),
            decreases pressed.len() - k,
        {
            let key = input_state.keys_pressed[k];
            let ghost before = *self;
            proof {
                assert(pressed.subrange(0, k + 1).drop_last() =~= pressed.subrange(0, k as int));
                assert(pressed.subrange(0, k + 1).last() == key);
                assert(pressed.subrange(0, k + 1) =~= pressed.subrange(0, k as int).push(key));
                let seen = pressed.subrange(0, k as int);
                let seen_now = pressed.subrange(0, k + 1);
                assert forall|x: Keycode| seen_now.contains(x) <==> (seen.contains(x) || x == key) by {
                    if seen_now.contains(x) {
                        let m = choose|m: int| 0 <= m < seen_now.len() && #[trigger] seen_now[m] == x;
                        if m < k {
                            assert(seen[m] == x);
                        }
                    }
                    if seen.contains(x) {
                        let m = choose|m: int| 0 <= m < seen.len() && #[trigger] seen[m] == x;
                        assert(seen_now[m] == x);
                    }
                    if x == key {
                        assert(seen_now[k as int] == x);
                    }
                }
                assert(self.entity(player_id) == self.entities()[idx as int]);
                assert(forall|i: int| 0 <= i < start.frames().len() ==> (#[trigger] start.frames()[i]).borders == self.frames()[i].borders);
                lemma_same_links_same_tiles(
                    start.frames(),
                    self.frames(),
                    e0.position.frame_id,
                    tile_after(e0.position.x as int) + 1,
                    tile_after(e0.position.y as int),
                );
            }
            match key {
                Keycode::W => {
                    self.jump_entity(player_id);
                },
                Keycode::E => {
                    self.set_facing_tile(player_id, Tile::Solid);
                },
                Keycode::Q => {
                    self.set_facing_tile(player_id, Tile::Empty);
                },
                _ => {},
            }
            proof {
                assert forall|i: int| 0 <= i < start.frames().len() implies {
                    &&& (#[trigger] self.frames()[i]).borders == start.frames()[i].borders
                    &&& self.frames()[i].position == start.frames()[i].position
                    &&& self.frames()[i].orientation == start.frames()[i].orientation
                    &&& self.frames()[i].tiles() == match (last_edit(pressed.subrange(0, k + 1)), target) {
                        (Some(t), Some(g)) => if g.0.0 == i && in_grid(g.1, g.2) {
                            start.frames()[i].tiles().update(grid_index(g.1, g.2), t)
                        } else {
                            start.frames()[i].tiles()
                        },
                        _ => start.frames()[i].tiles(),
                    }
                } by {
                    assert(before.frames()[i].borders == start.frames()[i].borders);
                    if key == Keycode::E || key == Keycode::Q {
                        if let Some(g) = target {
                            if g.0.0 == i && in_grid(g.1, g.2) {
                                let t = if key == Keycode::E { Tile::Solid } else { Tile::Empty };
                                let s0 = start.frames()[i].tiles();
                                match last_edit(pressed.subrange(0, k as int)) {
                                    Some(t0) => {
                                        assert(s0.update(grid_index(g.1, g.2), t0).update(grid_index(g.1, g.2), t) =~= s0.update(grid_index(g.1, g.2), t));
                                    },
                                    None => {},
                                }
                            }
                        }
                    }
                }
            }
            k = k + 1;
        }
        proof {
            assert(pressed.subrange(0, pressed.len() as int) =~= pressed);
        }

        let ghost frames_b = self.frames();
        let ghost staged = self.entities();
        assert forall|j: int| 0 <= j < staged.len() implies (#[trigger] staged[j]).velocity.bounded() by {
            assert(entity_wf(self.frames(), self.entities()[j]));
        }
        assert(staged == old(self).entities().update(
            old(self).entity_index(old(self).focus().unwrap()),
            entity_after_keys(e0, *input_state),
        ));
        let ids = self.entity_ids();
        let mut k: usize = 0;
        while k < ids.len()
            invariant
                start == *old(self),
                start.focus() == Some(player_id),
                e0 == start.entity(player_id),
                self.wf(),
                self.frames() == frames_b,
                edited(start.frames(), frames_b, edit_target(start.frames(), e0), last_edit(input_state.keys_pressed@)),
                last_edit(input_state.keys_pressed@) is None ==> frames_b == start.frames(),
                staged == start.entities().update(
                    start.entity_index(player_id),
                    entity_after_keys(e0, *input_state),
                ),
                self.iota() == start.iota(),
                self.focus() == start.focus(),
                k <= ids@.len(),
                ids@.len() == staged.len(),
                self.entities().len() == staged.len(),
                forall|j: int| 0 <= j < ids@.len() ==> ids@[j] == (#[trigger] staged[j]).id,
                forall|j: int| 0 <= j < staged.len() ==> (#[trigger] staged[j]).velocity.bounded(),
                forall|j: int| 0 <= j < k ==> (#[trigger] moved(frames_b, staged[j])) is Some,
                forall|j: int|
                    0 <= j < staged.len() ==> #[trigger] self.entities()[j] == if j < k {
                        moved(frames_b, staged[j]).unwrap()
                    } else {
                        staged[j]
                    },
            decreases ids@.len() - k,
        {
            let id = ids[k];
            proof {
                assert(self.entities()[k as int] == staged[k as int]);
                assert(self.has_entity(id));
                let m = self.entity_index(id);
                assert(self.entities()[m].id == id);
                assert(self.entities()[k as int].id == id);
            }
            let res = self.move_entity(id);
            match res {
                Ok(()) => {},
                Err(e) => {
                    assert(moved(frames_b, staged[k as int]) is None);
                    assert(self.frames() == frames_b);
                    assert(!(forall|i: int|
                        0 <= i < staged.len() ==> (#[trigger] moved(self.frames(), staged[i])) is Some));
                    assert(moved_before(self.frames(), staged, self.entities(), k as int));
                    return Err(e);
                },
            }
            k = k + 1;
        }
        assert forall|i: int| 0 <= i < staged.len() implies speed_within(
            (#[trigger] self.entities()[i]).velocity,
            (MAX_SPEED - IMPULSE) as int,
        ) by {
            lemma_moved_bounded(frames_b, staged[i]);
        }
        Ok(())
    }

    /// Links edge `parent_edge` of `parent` to edge `child_edge` of `child`, both ways.
    fn connect_frames(&mut self, parent: FrameId, parent_edge: Direction, child: FrameId, child_edge: Direction)
        requires
            parent.0 < old(self).frames().len(),
            child.0 < old(self).frames().len(),
            parent != child || parent_edge != child_edge,
            old(self).frames()[parent.0 as int].borders.link(parent_edge) is None,
            old(self).frames()[child.0 as int].borders.link(child_edge) is None,
        ensures
            final(self).entities() == old(self).entities(),
            final(self).iota() == old(self).iota(),
            final(self).focus() == old(self).focus(),
            final(self).frames().len() == old(self).frames().len(),
            forall|i: int|
                0 <= i < old(self).frames().len() ==> {
                    &&& (#[trigger] final(self).frames()[i]).tiles() == old(self).frames()[i].tiles()
                    &&& final(self).frames()[i].position == old(self).frames()[i].position
                    &&& final(self).frames()[i].orientation == old(self).frames()[i].orientation
                    &&& final(self).frames()[i].borders == {
                        let b = old(self).frames()[i].borders;
                        let b = if i == parent.0 {
                            b.with_link(parent_edge, Some(FrameLink { frame: child, entry_edge: child_edge }))
                        } else {
                            b
                        };
                        if i == child.0 {
                            b.with_link(child_edge, Some(FrameLink { frame: parent, entry_edge: parent_edge }))
                        } else {
                            b
                        }
                    }
                },
    {
        let border = self.frames[parent.0].borders.at_direction_mut(parent_edge);
        *border = Some(FrameLink { frame: child, entry_edge: child_edge });
        let border = self.frames[child.0].borders.at_direction_mut(child_edge);
        *border = Some(FrameLink { frame: parent, entry_edge: parent_edge });
    }

    /// One sub-step of a move.
    fn substep_exec(&self, plan: &Course, s: Motion) -> (r: Option<Motion>)
        requires
            frames_wf(self.frames()),
            -(RAW_LIMIT - SUBSTEP_REACH) <= s.x <= RAW_LIMIT - SUBSTEP_REACH,
            -(RAW_LIMIT - SUBSTEP_REACH) <= s.y <= RAW_LIMIT - SUBSTEP_REACH,
            -MAX_SPEED <= plan.dx <= MAX_SPEED,
            -MAX_SPEED <= plan.dy <= MAX_SPEED,
            -MAX_SPEED <= s.vx <= MAX_SPEED,
            -MAX_SPEED <= s.vy <= MAX_SPEED,
        ensures
            match (r, substep(self.frames(), plan.view(), s.view())) {
                (Some(a), Some(b)) => a.view() == b,
                (None, None) => true,
                _ => false,
            },
            r matches Some(a) ==> {
                &&& s.x - SUBSTEP_REACH <= a.x <= s.x + SUBSTEP_REACH
                &&& s.y - SUBSTEP_REACH <= a.y <= s.y + SUBSTEP_REACH
                &&& -MAX_SPEED <= a.vx <= MAX_SPEED
                &&& -MAX_SPEED <= a.vy <= MAX_SPEED
            },
    {
        reveal(substep);
        let c0 = match self.point_contacts(RawWorldPosition { root_frame_id: plan.frame, x: s.x, y: s.y }) {
            Some(c) => c,
            None => {
                return None;
            },
        };
        let x1 = s.x + plan.dx;
        let c1 = match self.point_contacts(RawWorldPosition { root_frame_id: plan.frame, x: x1, y: s.y }) {
            Some(c) => c,
            None => {
                return None;
            },
        };
        let collides_x = collision_x(plan.dir_x, c0, c1, plan.last);
        let x = if collides_x {
            if plan.dir_x == Direction::Right {
                snap_to_boundary_below(x1)
            } else {
                snap_to_boundary_above(x1)
            }
        } else {
            x1
        };
        let c2 = match self.point_contacts(RawWorldPosition { root_frame_id: plan.frame, x, y: s.y }) {
            Some(c) => c,
            None => {
                return None;
            },
        };
        let y1 = s.y + plan.dy;
        let c3 = match self.point_contacts(RawWorldPosition { root_frame_id: plan.frame, x, y: y1 }) {
            Some(c) => c,
            None => {
                return None;
            },
        };
        let collides_y = collision_y(plan.dir_y, c2, c3, plan.last);
        let y = if collides_y {
            if plan.dir_y == Direction::Down {
                snap_to_boundary_below(y1)
            } else {
                snap_to_boundary_above(y1)
            }
        } else {
            y1
        };
        Some(
            Motion {
                x,
                y,
                vx: if collides_x { 0 } else { s.vx },
                vy: if collides_y { 0 } else { s.vy },
                set_x: if collides_x { s.set_x } else { plan.last_x },
                set_y: if collides_y { s.set_y } else { plan.last_y },
                grounded: s.grounded || (collides_y && plan.dir_y == Direction::Down),
            },
        )
    }

    /// The entity `entity` after one tick of movement, or `None` when a position on the way
    /// cannot be resolved.
    fn resolve_move(&self, entity: Entity) -> (r: Option<Entity>)
        requires
            frames_wf(self.frames()),
            entity_wf(self.frames(), entity),
        ensures
            r == moved(self.frames(), entity),
            r matches Some(e) ==> entity_wf(self.frames(), e) && e.id == entity.id,
    {
        reveal(moved);
        let iterations = substeps_for(entity.velocity);
        let step_x = divide_towards_zero(entity.velocity.x, iterations);
        let step_y = divide_towards_zero(entity.velocity.y, iterations);
        let direction_x = direction_of_x(entity.velocity.x);
        let direction_y = direction_of_y(entity.velocity.y);
        let plan = Course {
            frame: entity.position.frame_id,
            dx: step_x,
            dy: step_y,
            dir_x: direction_x,
            dir_y: direction_y,
            last_x: entity.last_movement_direction_x,
            last_y: entity.last_movement_direction_y,
            last: entity.last_movement_direction,
        };
        let mut state = Motion {
            x: entity.position.x,
            y: entity.position.y,
            vx: entity.velocity.x,
            vy: entity.velocity.y,
            set_x: direction_x,
            set_y: direction_y,
            grounded: false,
        };
        assert(plan.view() == plan_of(entity));
        assert(state.view() == start_of(entity));
        let mut i: i64 = 0;
        while i < iterations
            invariant
                frames_wf(self.frames()),
                1 <= iterations <= MAX_SUBSTEPS,
                0 <= i <= iterations,
                iterations == substep_count(entity.velocity.x as int, entity.velocity.y as int),
                plan.view() == plan_of(entity),
                -MAX_SPEED <= plan.dx <= MAX_SPEED,
                -MAX_SPEED <= plan.dy <= MAX_SPEED,
                run_substeps(self.frames(), plan.view(), start_of(entity), i as nat) == Some(state.view()),
                -(UNIT + i * SUBSTEP_REACH) <= state.x <= UNIT + i * SUBSTEP_REACH,
                -(UNIT + i * SUBSTEP_REACH) <= state.y <= UNIT + i * SUBSTEP_REACH,
                -MAX_SPEED <= state.vx <= MAX_SPEED,
                -MAX_SPEED <= state.vy <= MAX_SPEED,
            decreases iterations - i,
        {
            match self.substep_exec(&plan, state) {
                Some(next) => {
                    state = next;
                    i = i + 1;
                },
                None => {
                    proof {
                        reveal(moved);
                        lemma_run_stays_failed(
                            self.frames(),
                            plan.view(),
                            start_of(entity),
                            (i + 1) as nat,
                            iterations as nat,
                        );
                    }
                    return None;
                },
            }
        }
        let raw = RawWorldPosition { root_frame_id: plan.frame, x: state.x, y: state.y };
        let position = match raw.resolve(self) {
            Some(p) => p,
            None => {
                return None;
            },
        };
        let last_movement_direction = match (direction_x, direction_y) {
            (Direction::Neutral, Direction::Neutral) => entity.last_movement_direction,
            (x, Direction::Neutral) => x,
            (_, y) => y,
        };
        proof {
            crate::position::lemma_normalize_idempotent(
                self.frames(),
                plan.frame,
                state.x as int,
                state.y as int,
                MAX_HOPS as nat,
            );
        }
        Some(
            Entity {
                position,
                velocity: Velocity { x: damp(state.vx), y: damp(state.vy) },
                last_movement_direction,
                last_movement_direction_x: state.set_x,
                last_movement_direction_y: state.set_y,
                kind: entity.kind,
                orientation: entity.orientation,
                id: entity.id,
                grounded: state.grounded,
            },
        )
    }

    /// Moves entity `id` by one tick of its velocity: the velocity is applied in sub-steps of
    /// at most one tile, each axis blocked against the tiles, the result normalized and the
    /// velocity damped. When a position on the way cannot be resolved nothing changes.
    pub fn move_entity(&mut self, id: EntityId) -> (r: Result<(), MoveError>)
        requires
            old(self).wf(),
            old(self).has_entity(id),
        ensures
            final(self).wf(),
            final(self).frames() == old(self).frames(),
            final(self).iota() == old(self).iota(),
            final(self).focus() == old(self).focus(),
            match moved(old(self).frames(), old(self).entity(id)) {
                Some(e) => r is Ok && final(self).entities() == old(self).entities().update(
                    old(self).entity_index(id),
                    e,
                ),
                None => r is Err && final(self).entities() == old(self).entities(),
            },
    {
        let idx = self.find_entity(id).unwrap();
        let entity = self.entities[idx];
        assert(entity_wf(self.frames(), self.entities()[idx as int]));
        match self.resolve_move(entity) {
            Some(e) => {
                self.entities.set(idx, e);
                proof {
                    assert forall|i: int| 0 <= i < self.entities().len() implies #[trigger] self.entities()[i] == if i == idx as int { e } else { old(self).entities()[i] } by {}
                    if let Some(fid) = self.focus() {
                        let j = old(self).entity_index(fid);
                        assert(self.entities()[j].id == fid);
                    }
                }
                Ok(())
            },
            None => Err(MoveError::UnresolvedPosition),
        }
    }
}

impl Entity {
    /// The player, with a fresh identifier from `world`, at `(0.3, 0.1)` of frame `frame_id`,
    /// at rest and facing up.
    pub fn new_player(world: &mut World, frame_id: FrameId) -> (r: Entity)
        requires
            old(world).iota() < usize::MAX,
        ensures
            r == initial_player(frame_id, EntityId(old(world).iota())),
            final(world).iota() == old(world).iota() + 1,
            final(world).frames() == old(world).frames(),
            final(world).entities() == old(world).entities(),
            final(world).focus() == old(world).focus(),
    {
        let position = WorldPosition { frame_id, x: 300_000, y: 100_000 };
        let id = EntityId(world.generate_id());
        Entity {
            position,
            velocity: Velocity::zero(),
            last_movement_direction: Direction::Neutral,
            last_movement_direction_x: Direction::Neutral,
            last_movement_direction_y: Direction::Neutral,
            kind: EntityKind::Player,
            orientation: Direction::Up,
            id,
            grounded: false,
        }
    }
}

impl RawWorldPosition {
    /// The frame and in-bounds coordinates that this position denotes, following the links
    /// across frame edges. A position outside both axes of a frame at once, one in a missing
    /// frame or across an unlinked edge, or one that needs more than `MAX_HOPS` crossings is a
    /// broken topology, which callers leave out.
    pub fn normalize(&self, world: &World) -> (r: WorldPosition)
        requires
            -RAW_LIMIT <= self.x <= RAW_LIMIT,
            -RAW_LIMIT <= self.y <= RAW_LIMIT,
            self.resolved(world.frames()) is Some,
        ensures
            is_position(self.resolved(world.frames()), Some(r)),
            in_bounds(r.x as int, r.y as int),
    {
        self.resolve(world).unwrap()
    }

    /// The frame and in-bounds coordinates that this position denotes, following the links
    /// across frame edges; `None` when it lies outside both axes of a frame at once, in a
    /// missing frame or across an unlinked edge, or needs more than `MAX_HOPS` crossings.
    pub(crate) fn resolve(&self, world: &World) -> (r: Option<WorldPosition>)
        requires
            -RAW_LIMIT <= self.x <= RAW_LIMIT,
            -RAW_LIMIT <= self.y <= RAW_LIMIT,
        ensures
            is_position(self.resolved(world.frames()), r),
            r matches Some(p) ==> in_bounds(p.x as int, p.y as int),
    {
        let mut f = self.root_frame_id;
        let mut x = self.x;
        let mut y = self.y;
        let mut hops: usize = 0;
        loop
            invariant
                hops <= MAX_HOPS,
                -RAW_LIMIT <= x <= RAW_LIMIT,
                -RAW_LIMIT <= y <= RAW_LIMIT,
                self.resolved(world.frames()) == normalized(
                    world.frames(),
                    f,
                    x as int,
                    y as int,
                    (MAX_HOPS - hops) as nat,
                ),
            decreases MAX_HOPS - hops,
        {
            if -UNIT <= x && x < UNIT && -UNIT <= y && y < UNIT {
                if f.0 < world.frames.len() {
                    return Some(WorldPosition { frame_id: f, x, y });
                } else {
                    return None;
                }
            }
            let x_out = x < -UNIT || x >= UNIT;
            let y_out = y < -UNIT || y >= UNIT;
            if x_out && y_out {
                return None;
            }
            if hops == MAX_HOPS {
                return None;
            }
            let (exit_edge, real_x, real_y) = if x >= UNIT {
                (Direction::Right, x - 2 * UNIT, y)
            } else if x < -UNIT {
                (Direction::Left, x + 2 * UNIT, y)
            } else if y >= UNIT {
                (Direction::Down, x, y - 2 * UNIT)
            } else {
                (Direction::Up, x, y + 2 * UNIT)
            };
            if f.0 >= world.frames.len() {
                return None;
            }
            match world.frames[f.0].borders.at_direction(exit_edge) {
                None => {
                    return None;
                },
                Some(neighbor) => {
                    let angle_change = exit_edge.angle_to(neighbor.entry_edge.reverse());
                    let next = RawWorldPosition {
                        root_frame_id: neighbor.frame,
                        x: real_x,
                        y: real_y,
                    }.rotated(angle_change);
                    f = next.root_frame_id;
                    x = next.x;
                    y = next.y;
                    hops = hops + 1;
                },
            }
        }
    }
}

impl WorldPosition {
    /// The same position, normalized; a position inside its frame comes back unchanged.
    pub fn normalize(&self, world: &World) -> (r: WorldPosition)
        requires
            -RAW_LIMIT <= self.x <= RAW_LIMIT,
            -RAW_LIMIT <= self.y <= RAW_LIMIT,
            self.raw().resolved(world.frames()) is Some,
        ensures
            is_position(self.raw().resolved(world.frames()), Some(r)),
            in_bounds(r.x as int, r.y as int),
    {
        RawWorldPosition { root_frame_id: self.frame_id, x: self.x, y: self.y }.normalize(world)
    }
}

} // verus!

