use cubeworld::direction::Direction;
use cubeworld::frame::FRAME_TILE_COUNT;
use cubeworld::input::{InputState, Keycode};
use cubeworld::motion::{
    collision_x, collision_y, damp, divide_towards_zero, snap_to_boundary_above,
    snap_to_boundary_below, substeps_for, Velocity,
};
use cubeworld::position::{RawWorldPosition, WorldPosition};
use cubeworld::types::{Contacts, EntityId, FrameId, Tile};
use cubeworld::collision::{MoveError, REST_TICKS};
use cubeworld::cube::{FRAME_COUNT, FRONT, RIGHT};
use cubeworld::world::{Entity, EntityKind, World};

fn empty_world() -> World {
    let rolls: Vec<Vec<u8>> = (0..FRAME_COUNT).map(|_| vec![100u8; FRAME_TILE_COUNT]).collect();
    World::new(&rolls)
}

const PLAYER: EntityId = EntityId(0);

fn place(world: &mut World, x: i64, y: i64, vx: i64, vy: i64) {
    let e = world.get_entity_mut(PLAYER);
    e.position = WorldPosition { frame_id: FrameId(FRONT), x, y };
    e.velocity = Velocity { x: vx, y: vy };
}

fn solid(world: &mut World, frame: usize, x: isize, y: isize) {
    *world.get_frame_mut(FrameId(frame)).tile_mut(x, y) = Tile::Solid;
}

fn player(world: &World) -> Entity {
    *world.get_entity(PLAYER).unwrap()
}

#[test]
fn new_world_has_the_player_at_the_front() {
    let world = empty_world();
    assert_eq!(world.entity_ids(), vec![PLAYER]);
    assert_eq!(world.focus_entity, Some(PLAYER));
    let p = player(&world);
    assert_eq!(p.position, WorldPosition { frame_id: FrameId(FRONT), x: 300_000, y: 100_000 });
    assert_eq!(p.velocity, Velocity { x: 0, y: 0 });
    assert_eq!(p.kind, EntityKind::Player);
    assert_eq!(p.orientation, Direction::Up);
    assert!(!p.grounded);
    assert_eq!(world.tile_index_at_entity(PLAYER), (10, 8));
    assert_eq!(world.tile_at_entity(PLAYER), Tile::Empty);
}

#[test]
fn generate_id_counts_up() {
    let mut world = empty_world();
    assert_eq!(world.generate_id(), 1);
    assert_eq!(world.generate_id(), 2);
}

#[test]
fn lands_on_tile_below() {
    let mut world = empty_world();
    solid(&mut world, FRONT, 8, 8);
    place(&mut world, 62_500, -62_500, 0, 62_500);
    assert_eq!(world.tick(&InputState::new()), Ok(()));
    let p = player(&world);
    assert_eq!(p.position, WorldPosition { frame_id: FrameId(FRONT), x: 62_500, y: 0 });
    assert_eq!(p.velocity, Velocity { x: 0, y: 0 });
    assert!(p.grounded);
    assert_eq!(p.last_movement_direction, Direction::Down);
}

#[test]
fn slow_fall_beside_a_tile_corner_does_not_land() {
    let mut world = empty_world();
    solid(&mut world, FRONT, 8, 8);
    place(&mut world, 0, -62_500, 0, 20_000);
    assert_eq!(world.tick(&InputState::new()), Ok(()));
    let p = player(&world);
    assert_eq!(p.position, WorldPosition { frame_id: FrameId(FRONT), x: 0, y: -42_500 });
    assert_eq!(p.velocity, Velocity { x: 0, y: 16_000 });
    assert!(!p.grounded);
}

#[test]
fn grounded_entity_jumps_with_exact_speed() {
    let mut world = empty_world();
    solid(&mut world, FRONT, 8, 8);
    place(&mut world, 62_500, 0, 0, 1_000);
    assert_eq!(world.tick(&InputState::new()), Ok(()));
    let p = player(&world);
    assert!(p.grounded);
    assert_eq!(p.position.y, 0);
    assert_eq!(p.velocity.y, 0);

    let mut input = InputState::new();
    input.key_down_event(Keycode::W);
    assert_eq!(world.tick(&input), Ok(()));
    let p = player(&world);
    // The jump sets -18000 before the move; the move carries the entity up by that much and
    // damps the velocity to four fifths.
    assert_eq!(p.position.y, -18_000);
    assert_eq!(p.velocity.y, -14_400);
    assert!(!p.grounded);
}

#[test]
fn airborne_entity_does_not_jump() {
    let mut world = empty_world();
    let mut input = InputState::new();
    input.key_down_event(Keycode::W);
    assert_eq!(world.tick(&input), Ok(()));
    let p = player(&world);
    assert_eq!(p.velocity, Velocity { x: 0, y: -1_600 });
    assert_eq!(p.position.y, 100_000 - 2_000);
}

#[test]
fn held_key_pushes_each_tick() {
    let mut world = empty_world();
    let mut input = InputState::new();
    input.key_down_event(Keycode::D);
    assert_eq!(world.tick(&input), Ok(()));
    let p = player(&world);
    assert_eq!(p.position.x, 302_000);
    assert_eq!(p.velocity, Velocity { x: 1_600, y: 0 });
    assert_eq!(p.last_movement_direction, Direction::Right);
    input.clear_frame();
    assert_eq!(world.tick(&input), Ok(()));
    let p = player(&world);
    assert_eq!(p.position.x, 302_000 + 3_600);
    assert_eq!(p.velocity.x, 2_880);
}

#[test]
fn wall_on_the_right_blocks_and_snaps() {
    let mut world = empty_world();
    solid(&mut world, FRONT, 9, 8);
    place(&mut world, 100_000, 62_500, 40_000, 0);
    assert_eq!(world.tick(&InputState::new()), Ok(()));
    let p = player(&world);
    assert_eq!(p.position.x, 125_000);
    assert_eq!(p.velocity.x, 0);
    assert_eq!(p.last_movement_direction_x, Direction::Right);
    assert_eq!(p.last_movement_direction, Direction::Right);
}

#[test]
fn unblocked_axis_keeps_its_previous_direction() {
    let mut world = empty_world();
    place(&mut world, 0, 0, 10_000, 0);
    world.get_entity_mut(PLAYER).last_movement_direction_x = Direction::Left;
    assert_eq!(world.tick(&InputState::new()), Ok(()));
    let p = player(&world);
    assert_eq!(p.position.x, 10_000);
    assert_eq!(p.last_movement_direction_x, Direction::Left);
    assert_eq!(p.last_movement_direction, Direction::Right);
}

#[test]
fn moving_across_an_edge_changes_frame() {
    let mut world = empty_world();
    place(&mut world, 990_000, 0, 20_000, 0);
    assert_eq!(world.tick(&InputState::new()), Ok(()));
    let p = player(&world);
    assert_eq!(p.position, WorldPosition { frame_id: FrameId(RIGHT), x: -990_000, y: 0 });
}

#[test]
fn diagonal_move_through_a_corner_is_unresolved() {
    let mut world = empty_world();
    place(&mut world, 990_000, 990_000, 20_000, 20_000);
    let before = player(&world);
    assert_eq!(world.tick(&InputState::new()), Err(MoveError::UnresolvedPosition));
    assert_eq!(player(&world), before);
    assert_eq!(world.move_entity(PLAYER), Err(MoveError::UnresolvedPosition));
}

#[test]
fn velocity_comes_to_rest() {
    let mut world = empty_world();
    place(&mut world, 0, 0, 8_000, -5_000);
    world.tick(&InputState::new()).unwrap();
    assert_eq!(player(&world).velocity, Velocity { x: 6_400, y: -4_000 });
    for _ in 1..REST_TICKS {
        world.tick(&InputState::new()).unwrap();
    }
    assert_eq!(player(&world).velocity, Velocity { x: 0, y: 0 });
}

#[test]
fn fastest_velocity_comes_to_rest_within_bound() {
    let mut world = empty_world();
    place(&mut world, 0, 0, 1_000_000, 0);
    solid(&mut world, RIGHT, 0, 8);
    let mut ticks = 0;
    while player(&world).velocity != (Velocity { x: 0, y: 0 }) {
        world.move_entity(PLAYER).unwrap();
        ticks += 1;
    }
    assert!(ticks <= REST_TICKS);
}

#[test]
fn moves_are_deterministic() {
    let mut a = empty_world();
    let mut b = empty_world();
    for w in [&mut a, &mut b] {
        solid(w, FRONT, 4, 9);
        solid(w, FRONT, 5, 9);
        place(w, -400_000, 120_000, 30_000, 45_000);
    }
    for _ in 0..20 {
        a.tick(&InputState::new()).unwrap();
        b.tick(&InputState::new()).unwrap();
        assert_eq!(player(&a), player(&b));
    }
}

#[test]
fn edit_keys_place_and_remove_the_facing_tile() {
    let mut world = empty_world();
    let (ex, ey) = world.tile_index_at_entity(PLAYER);
    assert_eq!((ex, ey), (10, 8));
    let mut input = InputState::new();
    input.key_down_event(Keycode::E);
    world.tick(&input).unwrap();
    assert_eq!(*world.get_frame(FrameId(FRONT)).unwrap().tile(ex + 1, ey), Tile::Solid);
    let mut input = InputState::new();
    input.key_down_event(Keycode::Q);
    world.tick(&input).unwrap();
    assert_eq!(*world.get_frame(FrameId(FRONT)).unwrap().tile(ex + 1, ey), Tile::Empty);
}

#[test]
fn facing_tile_across_an_edge() {
    let mut world = empty_world();
    place(&mut world, 990_000, 100_000, 0, 0);
    let mut input = InputState::new();
    input.key_down_event(Keycode::E);
    world.tick(&input).unwrap();
    assert_eq!(*world.get_frame(FrameId(RIGHT)).unwrap().tile(0, 8), Tile::Solid);
    assert_eq!(*world.get_frame(FrameId(FRONT)).unwrap().tile(15, 8), Tile::Empty);
}

#[test]
fn point_contacts_reads_the_four_tiles() {
    let mut world = empty_world();
    solid(&mut world, FRONT, 8, 8);
    let c = world.point_contacts(RawWorldPosition { root_frame_id: FrameId(FRONT), x: 0, y: 0 }).unwrap();
    assert_eq!(c, Contacts { top_left: false, top_right: false, bottom_left: false, bottom_right: true });
    let c = world
        .point_contacts(RawWorldPosition { root_frame_id: FrameId(FRONT), x: 62_500, y: 62_500 })
        .unwrap();
    assert_eq!(c.as_tuple(), (true, true, true, true));
    assert_eq!(
        world.tile_at_position(WorldPosition { frame_id: FrameId(FRONT), x: 62_500, y: 62_500 }),
        Tile::Solid
    );
}

#[test]
fn substep_counts() {
    assert_eq!(substeps_for(Velocity { x: 0, y: 0 }), 1);
    assert_eq!(substeps_for(Velocity { x: 125_000, y: 0 }), 1);
    assert_eq!(substeps_for(Velocity { x: 125_001, y: 0 }), 2);
    assert_eq!(substeps_for(Velocity { x: 300_000, y: -400_000 }), 4);
    assert_eq!(substeps_for(Velocity { x: -1_000_000, y: 1_000_000 }), 12);
}

#[test]
fn rounding_helpers() {
    assert_eq!(divide_towards_zero(-7, 2), -3);
    assert_eq!(divide_towards_zero(7, 2), 3);
    assert_eq!(snap_to_boundary_below(130_000), 125_000);
    assert_eq!(snap_to_boundary_below(-1), -125_000);
    assert_eq!(snap_to_boundary_above(-1), 0);
    assert_eq!(snap_to_boundary_above(125_001), 250_000);
    assert_eq!(damp(10_000), 8_000);
    assert_eq!(damp(-20_000), -16_000);
    assert_eq!(damp(12), 0);
    assert_eq!(damp(13), 10);
    assert_eq!(damp(-12), 0);
}

#[test]
fn decision_tables() {
    let none = Contacts { top_left: false, top_right: false, bottom_left: false, bottom_right: false };
    let right_wall = Contacts { top_left: false, top_right: true, bottom_left: false, bottom_right: true };
    let floor = Contacts { top_left: false, top_right: false, bottom_left: true, bottom_right: true };
    assert!(collision_x(Direction::Right, none, right_wall, Direction::Neutral));
    assert!(!collision_x(Direction::Left, none, right_wall, Direction::Neutral));
    assert!(!collision_x(Direction::Neutral, none, right_wall, Direction::Neutral));
    assert!(collision_y(Direction::Down, none, floor, Direction::Neutral));
    assert!(!collision_y(Direction::Up, none, floor, Direction::Neutral));
    // A single tile ahead at the lower corner blocks only with a matching last direction.
    let low_corner = Contacts { top_left: false, top_right: false, bottom_left: false, bottom_right: true };
    let top_left = Contacts { top_left: true, top_right: false, bottom_left: false, bottom_right: false };
    assert!(collision_x(Direction::Right, top_left, low_corner, Direction::Right));
    assert!(collision_x(Direction::Right, top_left, low_corner, Direction::Up));
    assert!(!collision_x(Direction::Right, top_left, low_corner, Direction::Down));
    let bottom_right = Contacts { top_left: false, top_right: false, bottom_left: false, bottom_right: true };
    let up_left = Contacts { top_left: true, top_right: false, bottom_left: false, bottom_right: false };
    assert!(collision_y(Direction::Up, bottom_right, up_left, Direction::Right));
    assert!(!collision_y(Direction::Up, bottom_right, up_left, Direction::Left));
}

#[test]
fn direction_follows_the_sign_of_the_velocity() {
    let mut world = empty_world();
    place(&mut world, 0, 0, 1_000_000, 1);
    world.get_entity_mut(PLAYER).last_movement_direction = Direction::Left;
    assert_eq!(world.move_entity(PLAYER), Ok(()));
    let p = player(&world);
    assert_eq!(p.last_movement_direction, Direction::Down);
    assert_eq!(p.position, WorldPosition { frame_id: FrameId(FRONT), x: 999_999, y: 0 });
}

#[test]
fn opposite_held_keys_cancel() {
    let mut world = empty_world();
    let mut input = InputState::new();
    input.key_down_event(Keycode::A);
    input.key_down_event(Keycode::D);
    input.key_down_event(Keycode::S);
    world.tick(&input).unwrap();
    let p = player(&world);
    assert_eq!(p.velocity, Velocity { x: 0, y: 1_600 });
    assert_eq!(p.position.x, 300_000);
    assert_eq!(p.position.y, 102_000);
}

#[test]
fn jump_entity_sets_exact_speed_only_when_grounded() {
    let mut world = empty_world();
    place(&mut world, 10_000, 20_000, 3_000, 4_000);
    assert!(!world.jump_entity(PLAYER));
    assert_eq!(player(&world).velocity, Velocity { x: 3_000, y: 4_000 });
    world.get_entity_mut(PLAYER).grounded = true;
    let before = player(&world);
    assert!(world.jump_entity(PLAYER));
    let after = player(&world);
    assert_eq!(after.velocity, Velocity { x: 3_000, y: -18_000 });
    assert_eq!(after.position, before.position);
    assert!(after.grounded);
}

#[test]
fn previous_grounded_flag_does_not_change_a_move() {
    let mut a = empty_world();
    let mut b = empty_world();
    place(&mut a, 40_000, 50_000, 7_000, -3_000);
    place(&mut b, 40_000, 50_000, 7_000, -3_000);
    b.get_entity_mut(PLAYER).grounded = true;
    a.move_entity(PLAYER).unwrap();
    b.move_entity(PLAYER).unwrap();
    assert_eq!(player(&a), player(&b));
}
