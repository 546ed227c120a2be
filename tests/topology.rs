use cubeworld::direction::{Angle, Direction};
use cubeworld::frame::{Frame, FrameLink, FRAME_TILE_COUNT};
use cubeworld::position::{RawWorldPosition, WorldPosition, UNIT};
use cubeworld::types::{Contacts, FrameId, Tile};
use cubeworld::cube::{BACK, DOWN, FRAME_COUNT, FRONT, LEFT, RIGHT, UP};
use cubeworld::world::World;

fn empty_world() -> World {
    let rolls: Vec<Vec<u8>> = (0..FRAME_COUNT).map(|_| vec![100u8; FRAME_TILE_COUNT]).collect();
    World::new(&rolls)
}

const EDGES: [Direction; 4] = [Direction::Up, Direction::Down, Direction::Left, Direction::Right];

#[test]
fn direction_reverse_swaps_opposites() {
    assert_eq!(Direction::Up.reverse(), Direction::Down);
    assert_eq!(Direction::Down.reverse(), Direction::Up);
    assert_eq!(Direction::Left.reverse(), Direction::Right);
    assert_eq!(Direction::Right.reverse(), Direction::Left);
    assert_eq!(Direction::Neutral.reverse(), Direction::Neutral);
}

#[test]
fn angle_reverse_and_negative() {
    assert_eq!(Angle::Clockwise0.reverse(), Angle::Clockwise180);
    assert_eq!(Angle::Clockwise90.reverse(), Angle::Clockwise270);
    assert_eq!(Angle::Clockwise270.reverse(), Angle::Clockwise90);
    assert_eq!(Angle::Clockwise90.negative(), Angle::Clockwise270);
    assert_eq!(Angle::Clockwise180.negative(), Angle::Clockwise180);
    assert_eq!(Angle::Clockwise0.negative(), Angle::Clockwise0);
}

#[test]
fn rotating_four_quarter_turns_is_identity() {
    for d in Direction::iter() {
        let mut r = d;
        for _ in 0..4 {
            r = r.rotated(Angle::Clockwise90);
        }
        assert_eq!(r, d);
    }
    assert_eq!(Direction::Up.rotated(Angle::Clockwise90), Direction::Right);
    assert_eq!(Direction::Left.rotated(Angle::Clockwise180), Direction::Right);
    assert_eq!(Direction::Neutral.rotated(Angle::Clockwise270), Direction::Neutral);
}

#[test]
fn angle_to_around_the_compass_sums_to_zero() {
    let cycle = [Direction::Up, Direction::Right, Direction::Down, Direction::Left];
    let mut quarters = 0;
    for i in 0..4 {
        let a = cycle[i].angle_to(cycle[(i + 1) % 4]);
        assert_eq!(a, Angle::Clockwise90);
        quarters += 1;
    }
    assert_eq!(quarters % 4, 0);
    assert_eq!(Direction::Right.angle_to(Direction::Right), Angle::Clockwise0);
    assert_eq!(Direction::Up.angle_to(Direction::Left), Angle::Clockwise270);
    assert_eq!(Direction::Down.angle_to(Direction::Up), Angle::Clockwise180);
}

#[test]
fn iter_lists_all_directions() {
    assert_eq!(
        Direction::iter(),
        vec![Direction::Up, Direction::Down, Direction::Left, Direction::Right, Direction::Neutral]
    );
}

#[test]
fn frame_ids_and_tiles() {
    assert_eq!(FrameId::new(3).0, 3);
    assert_eq!(FrameId::invalid().0, usize::MAX);
    assert!(!Tile::Empty.is_solid());
    assert!(Tile::Solid.is_solid());
    assert!(Tile::Invalid.is_solid());
    let c = Contacts { top_left: true, top_right: false, bottom_left: false, bottom_right: true };
    assert_eq!(c.as_tuple(), (true, false, false, true));
}

#[test]
fn new_frame_is_empty_and_self_linked() {
    let f = Frame::new(FrameId(4));
    assert_eq!(*f.tile(0, 0), Tile::Empty);
    assert_eq!(*f.tile(15, 15), Tile::Empty);
    assert_eq!(*f.tile(-1, 3), Tile::Invalid);
    assert_eq!(*f.tile(16, 0), Tile::Invalid);
    assert_eq!(*f.tile(2, 16), Tile::Invalid);
    assert_eq!(f.borders.at_direction(Direction::Up), None);
    assert_eq!(
        f.borders.at_direction(Direction::Neutral),
        Some(FrameLink { frame: FrameId(4), entry_edge: Direction::Neutral })
    );
}

#[test]
fn tile_mut_writes_inside_the_grid_only() {
    let mut f = Frame::new(FrameId(0));
    *f.tile_mut(8, 8) = Tile::Solid;
    assert_eq!(*f.tile(8, 8), Tile::Solid);
    assert_eq!(*f.tile(8, 7), Tile::Empty);
    *f.tile_mut(-1, 0) = Tile::Solid;
    assert_eq!(*f.tile(-1, 0), Tile::Invalid);
    assert_eq!(*f.tile(0, 0), Tile::Empty);
}

#[test]
fn at_direction_mut_sets_one_slot() {
    let mut f = Frame::new(FrameId(1));
    let link = FrameLink { frame: FrameId(2), entry_edge: Direction::Left };
    *f.borders.at_direction_mut(Direction::Right) = Some(link);
    assert_eq!(f.borders.at_direction(Direction::Right), Some(link));
    assert_eq!(f.borders.at_direction(Direction::Left), None);
}

#[test]
fn populated_frame_follows_rolls() {
    let mut rolls = vec![100u8; FRAME_TILE_COUNT];
    rolls[0] = 1;
    rolls[1] = 17;
    rolls[2] = 18;
    rolls[16 * 3 + 5] = 9;
    let f = Frame::new_populated(FrameId(0), &rolls);
    assert_eq!(*f.tile(0, 0), Tile::Solid);
    assert_eq!(*f.tile(1, 0), Tile::Solid);
    assert_eq!(*f.tile(2, 0), Tile::Empty);
    assert_eq!(*f.tile(5, 3), Tile::Solid);
    assert_eq!(*f.tile(3, 5), Tile::Empty);
}

#[test]
fn cube_links_are_symmetric_and_complete() {
    let world = empty_world();
    for i in 0..FRAME_COUNT {
        let frame = world.get_frame(FrameId(i)).unwrap();
        for d in EDGES {
            let link = frame.borders.at_direction(d).unwrap();
            let back = world.get_frame(link.frame).unwrap().borders.at_direction(link.entry_edge).unwrap();
            assert_eq!(back, FrameLink { frame: FrameId(i), entry_edge: d });
        }
    }
    let front = world.get_frame(FrameId(FRONT)).unwrap();
    assert_eq!(front.borders.right, Some(FrameLink { frame: FrameId(RIGHT), entry_edge: Direction::Left }));
    let back = world.get_frame(FrameId(BACK)).unwrap();
    assert_eq!(back.borders.up, Some(FrameLink { frame: FrameId(UP), entry_edge: Direction::Up }));
    assert_eq!(back.borders.right, Some(FrameLink { frame: FrameId(LEFT), entry_edge: Direction::Left }));
    let left = world.get_frame(FrameId(LEFT)).unwrap();
    assert_eq!(left.borders.down, Some(FrameLink { frame: FrameId(DOWN), entry_edge: Direction::Right }));
}

#[test]
fn crossing_right_with_identity_rotation() {
    let world = empty_world();
    let raw = RawWorldPosition { root_frame_id: FrameId(FRONT), x: 1_300_000, y: 250_000 };
    let p = raw.normalize(&world);
    assert_eq!(p, WorldPosition { frame_id: FrameId(RIGHT), x: -700_000, y: 250_000 });
}

#[test]
fn in_bounds_position_normalizes_to_itself() {
    let world = empty_world();
    let p = WorldPosition { frame_id: FrameId(LEFT), x: -UNIT, y: UNIT - 1 };
    assert_eq!(p.normalize(&world), p);
    let q = WorldPosition { frame_id: FrameId(BACK), x: 123_456, y: -654_321 };
    assert_eq!(q.normalize(&world), q);
}

#[test]
fn crossing_with_a_quarter_turn() {
    let world = empty_world();
    // Leaving the left face upwards enters the up face through its left edge.
    let raw = RawWorldPosition { root_frame_id: FrameId(LEFT), x: 300_000, y: -1_100_000 };
    let p = raw.normalize(&world);
    assert_eq!(p, WorldPosition { frame_id: FrameId(UP), x: -900_000, y: 300_000 });
}

fn outward(d: Direction) -> (i64, i64) {
    match d {
        Direction::Right => (1, 0),
        Direction::Left => (-1, 0),
        Direction::Down => (0, 1),
        Direction::Up => (0, -1),
        Direction::Neutral => (0, 0),
    }
}

#[test]
fn crossing_out_and_back_returns_home() {
    let world = empty_world();
    let a: i64 = 50_000;
    for i in 0..FRAME_COUNT {
        for d in EDGES {
            let (ox, oy) = outward(d);
            let along: i64 = if ox == 0 { 200_000 } else { -300_000 };
            let (x, y) = if ox != 0 { (ox * (UNIT + a), along) } else { (along, oy * (UNIT + a)) };
            let there = RawWorldPosition { root_frame_id: FrameId(i), x, y }.normalize(&world);
            let link = world.get_frame(FrameId(i)).unwrap().borders.at_direction(d).unwrap();
            assert_eq!(there.frame_id, link.frame);
            let (ex, ey) = outward(link.entry_edge);
            let back = RawWorldPosition {
                root_frame_id: there.frame_id,
                x: there.x + 2 * a * ex,
                y: there.y + 2 * a * ey,
            }
            .normalize(&world);
            assert_eq!(back, WorldPosition { frame_id: FrameId(i), x: x - 2 * a * ox, y: y - 2 * a * oy });
        }
    }
}

#[test]
fn tile_index_crossing_right_edge() {
    let world = empty_world();
    assert_eq!(world.normalize_tile_index(FrameId(FRONT), 16, 5), (FrameId(RIGHT), 0, 5));
    assert_eq!(world.normalize_tile_index(FrameId(FRONT), 3, 4), (FrameId(FRONT), 3, 4));
    assert_eq!(world.normalize_tile_index(FrameId(FRONT), -1, 15), (FrameId(LEFT), 15, 15));
}

#[test]
fn tile_index_crossing_with_rotation() {
    let world = empty_world();
    // Left face, above its top row: the up face's left column, turned a quarter.
    assert_eq!(world.normalize_tile_index(FrameId(LEFT), 4, -1), (FrameId(UP), 0, 4));
}

#[test]
fn tile_crossing_agrees_with_position_crossing() {
    let world = empty_world();
    let tile = |c: i64| (c + UNIT).div_euclid(125_000) as isize;
    for i in 0..FRAME_COUNT {
        for (x, y) in [(1_070_000, 310_000), (-1_190_000, -440_000), (555_000, 1_020_000), (-20_000, -1_230_000)] {
            let p = RawWorldPosition { root_frame_id: FrameId(i), x, y }.normalize(&world);
            let (f, tx, ty) = world.normalize_tile_index(FrameId(i), tile(x), tile(y));
            assert_eq!(f, p.frame_id);
            assert_eq!((tx, ty), (tile(p.x), tile(p.y)));
        }
    }
}

#[test]
fn one_tile_step_along_one_axis_always_resolves() {
    let world = empty_world();
    let near = UNIT - 60_000;
    for i in 0..FRAME_COUNT {
        for (x, y, dx, dy) in [
            (near, 0, 125_000, 0),
            (-near, 70_000, -125_000, 0),
            (-30_000, near, 0, 125_000),
            (410_000, -near, 0, -125_000),
        ] {
            let p = RawWorldPosition { root_frame_id: FrameId(i), x: x + dx, y: y + dy }.normalize(&world);
            assert_ne!(p.frame_id, FrameId(i));
            assert!(-UNIT <= p.x && p.x < UNIT && -UNIT <= p.y && p.y < UNIT);
        }
    }
}

#[test]
fn contacts_at_a_frame_corner_are_unresolved() {
    let world = empty_world();
    let corner = RawWorldPosition { root_frame_id: FrameId(FRONT), x: -UNIT, y: -UNIT };
    assert_eq!(world.point_contacts(corner), None);
}

#[test]
fn round_trip_through_a_quarter_turn_link() {
    let world = empty_world();
    // Left face, up edge: entered through the up face's left edge with a quarter turn.
    let step = (0, -150_000);
    let start = (250_000, -900_000);
    let q = RawWorldPosition { root_frame_id: FrameId(LEFT), x: start.0 + step.0, y: start.1 + step.1 }
        .normalize(&world);
    assert_eq!(q.frame_id, FrameId(UP));
    // The step turned a quarter clockwise: (-dy, dx).
    let turned = (-step.1, step.0);
    let back = RawWorldPosition { root_frame_id: q.frame_id, x: q.x - turned.0, y: q.y - turned.1 }
        .normalize(&world);
    assert_eq!(back, WorldPosition { frame_id: FrameId(LEFT), x: start.0, y: start.1 });
}
