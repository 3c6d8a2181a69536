//! A voxel sandbox core: terrain volumes, a block registry, and the
//! timed block-breaking state machine that removes blocks from it.

pub mod block;
pub mod breaker;
pub mod debugger;
pub mod player;
pub mod terrain;
pub mod world;
