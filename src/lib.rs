//! A grid snake game: a toroidal-grid simulation advanced one tick at a
//! time, an input router that turns key presses into intents, and an
//! incremental renderer that paints only the cells that changed.
pub mod geometry;
pub mod paint;
pub mod game;
pub mod input;
pub mod render;
pub mod laws;
