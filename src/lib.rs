//! Rendering and scene-update core of a small indexed-color display engine:
//! geometry, indexed images and their compositing, the palette-mapped screen,
//! the entity-component world and the per-frame update/compose logic.

pub mod assets;
pub mod game;
pub mod gfx;
pub mod input;
pub mod math;
