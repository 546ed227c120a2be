//! A world of six square frames of tiles glued into a cube, and entities that move over it
//! with tile collision. Positions are fixed-point: `UNIT` position units make one world unit,
//! and a frame spans `[-UNIT, UNIT)` on each axis.

pub mod collision;
pub mod controls;
pub mod cube;
pub mod direction;
pub mod frame;
pub mod input;
pub mod motion;
pub mod position;
pub mod types;
pub mod world;

pub use direction::{Angle, Direction};
pub use frame::{Frame, FrameLink, FrameLinks, FRAME_TILE_COUNT, FRAME_WIDTH};
pub use input::{match_keycode_num, Color, InputState, Keycode, WindowEvent};
pub use motion::Velocity;
pub use position::{RawWorldPosition, WorldPosition, TILE_SIZE, UNIT};
pub use types::{Contacts, EntityId, FrameId, Tile};
pub use collision::MoveError;
pub use world::{Entity, EntityKind, World};
