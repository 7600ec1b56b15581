//! Authoritative simulation core of a two-player epidemic strategy game:
//! the tile map, the memoized path finder, the agent behaviour machine, the
//! contact model, player command handling and the wire framing.

pub mod contact;
pub mod map;
pub mod map_generation;
pub mod path;
pub mod person;
pub mod protocol;
pub mod random;
pub mod render;
pub mod session;
pub mod settings;
pub mod tick;
pub mod world;
