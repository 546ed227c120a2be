//! What the keys of one tick do to the focus entity and to the tiles, as a specification.

use vstd::prelude::*;

use crate::collision::tile_after;
use crate::frame::{grid_index, in_grid, Frame};
use crate::input::{distinct, InputState, Keycode};
use crate::motion::Velocity;
use crate::position::tile_index_normalized;
use crate::types::{FrameId, Tile};
use crate::world::Entity;

verus! {

/// Change of velocity per tick while a movement key is held, in position units.
pub const IMPULSE: i64 = 2_000;

/// Upward speed that a jump gives, in position units per tick.
pub const JUMP_SPEED: i64 = 18_000;

/// The change of velocity that holding `k` gives, if `k` is a movement key.
pub open spec fn key_impulse(k: Keycode) -> Option<(int, int)> {
    match k {
        Keycode::A => Some((-IMPULSE as int, 0)),
        Keycode::D => Some((IMPULSE as int, 0)),
        Keycode::W => Some((0, -IMPULSE as int)),
        Keycode::S => Some((0, IMPULSE as int)),
        _ => None,
    }
}

/// The sum of the impulses of `keys`, taken one after the other.
pub open spec fn impulse_sum(keys: Seq<Keycode>) -> (int, int)
    decreases keys.len(),
{
    if keys.len() == 0 {
        (0, 0)
    } else {
        let before = impulse_sum(keys.drop_last());
        match key_impulse(keys.last()) {
            Some(i) => (before.0 + i.0, before.1 + i.1),
            None => before,
        }
    }
}

/// 1 when `keys` holds `k`, else 0.
pub open spec fn held_count(keys: Seq<Keycode>, k: Keycode) -> int {
    if keys.contains(k) {
        1
    } else {
        0
    }
}

/// `v` after the impulses of the held `keys`: `D` and `A` push along x, `S` and `W` along y.
pub open spec fn held_velocity(keys: Seq<Keycode>, v: Velocity) -> Velocity {
    Velocity {
        x: (v.x + IMPULSE * (held_count(keys, Keycode::D) - held_count(keys, Keycode::A))) as i64,
        y: (v.y + IMPULSE * (held_count(keys, Keycode::S) - held_count(keys, Keycode::W))) as i64,
    }
}

/// Keys held at most once each push by their impulses, whatever their order.
pub proof fn lemma_impulse_sum(keys: Seq<Keycode>)
    requires
        distinct(keys),
    ensures
        impulse_sum(keys) == (
            IMPULSE * (held_count(keys, Keycode::D) - held_count(keys, Keycode::A)),
            IMPULSE * (held_count(keys, Keycode::S) - held_count(keys, Keycode::W)),
        ),
    decreases keys.len(),
{
    if keys.len() > 0 {
        let s = keys.drop_last();
        let last = keys.last();
        assert(distinct(s));
        lemma_impulse_sum(s);
        assert forall|k: Keycode| keys.contains(k) == (s.contains(k) || last == k) by {
            if keys.contains(k) {
                let m = choose|m: int| 0 <= m < keys.len() && #[trigger] keys[m] == k;
                if m < keys.len() - 1 {
                    assert(s[m] == k);
                }
            }
            if s.contains(k) {
                let m = choose|m: int| 0 <= m < s.len() && #[trigger] s[m] == k;
                assert(keys[m] == k);
            }
            if last == k {
                assert(keys[keys.len() - 1] == k);
            }
        }
        if s.contains(last) {
            let m = choose|m: int| 0 <= m < s.len() && #[trigger] s[m] == last;
            assert(keys[m] == keys[keys.len() - 1]);
        }
    }
}

/// The tile that the last edit key among `keys` places: `E` a solid one, `Q` an empty one.
pub open spec fn last_edit(keys: Seq<Keycode>) -> Option<Tile>
    decreases keys.len(),
{
    if keys.len() == 0 {
        None
    } else if keys.last() == Keycode::E {
        Some(Tile::Solid)
    } else if keys.last() == Keycode::Q {
        Some(Tile::Empty)
    } else {
        last_edit(keys.drop_last())
    }
}

/// The focus entity `e` after the keys of a tick: the impulses of the held keys, then a jump
/// when `W` was pressed and `e` is grounded.
pub open spec fn entity_after_keys(e: Entity, input: InputState) -> Entity {
    let v = held_velocity(input.keys_held@, e.velocity);
    Entity {
        velocity: if input.keys_pressed@.contains(Keycode::W) && e.grounded {
            Velocity { x: v.x, y: (-JUMP_SPEED) as i64 }
        } else {
            v
        },
        ..e
    }
}

/// The tile that the edit keys act on: the one right of the tile that holds `e`, followed
/// across an edge where needed.
pub open spec fn edit_target(frames: Seq<Frame>, e: Entity) -> Option<(FrameId, int, int)> {
    tile_index_normalized(
        frames,
        e.position.frame_id,
        tile_after(e.position.x as int) + 1,
        tile_after(e.position.y as int),
    )
}

/// `after` is `before` with, when `tile` and `target` are given, the tile at `target` set to
/// `tile`; nothing else of the frames differs.
pub open spec fn edited(before: Seq<Frame>, after: Seq<Frame>, target: Option<(FrameId, int, int)>, tile: Option<Tile>) -> bool {
    &&& after.len() == before.len()
    &&& forall|i: int|
        0 <= i < before.len() ==> {
            &&& (#[trigger] after[i]).borders == before[i].borders
            &&& after[i].position == before[i].position
            &&& after[i].orientation == before[i].orientation
            &&& after[i].tiles() == match (tile, target) {
                (Some(t), Some(g)) => if g.0.0 == i && in_grid(g.1, g.2) {
                    before[i].tiles().update(grid_index(g.1, g.2), t)
                } else {
                    before[i].tiles()
                },
                _ => before[i].tiles(),
            }
        }
}

/// A grounded entity that jumps gets exactly the jump speed upwards, whatever keys are held;
/// an entity that is not grounded keeps the velocity the held keys give it.
pub proof fn lemma_jump_speed(e: Entity, input: InputState)
    requires
        input.keys_pressed@.contains(Keycode::W),
    ensures
        e.grounded ==> entity_after_keys(e, input).velocity.y == -JUMP_SPEED,
        !e.grounded ==> entity_after_keys(e, input).velocity == held_velocity(input.keys_held@, e.velocity),
{
}


/// A tick without keys leaves the focus entity as it is before the moves, and edits no tile.
pub proof fn lemma_no_keys(e: Entity, input: InputState)
    requires
        input.keys_held@.len() == 0,
        input.keys_pressed@.len() == 0,
    ensures
        entity_after_keys(e, input) == e,
        last_edit(input.keys_pressed@) is None,
{
    assert(!input.keys_pressed@.contains(Keycode::W));
    assert(!input.keys_held@.contains(Keycode::A));
    assert(!input.keys_held@.contains(Keycode::D));
    assert(!input.keys_held@.contains(Keycode::S));
    assert(!input.keys_held@.contains(Keycode::W));
}

} // verus!
