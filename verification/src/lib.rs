//! Game rules for a top-down stealth game on a tile map, in fixed-point
//! integer arithmetic: level loading, player movement against walls, guard
//! patrols and gold pickup.

pub mod geom;
pub mod text;
pub mod anim;
pub mod level;
pub mod score;
pub mod player;
pub mod chance;
pub mod guard;
pub mod gold;
pub mod map;
pub mod sight;
pub mod session;
