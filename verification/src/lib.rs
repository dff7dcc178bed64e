//! A minimal windowing runtime core: a two-phase application driver that owns
//! the window/surface lifecycle, an input-state tracker that derives held-key
//! snapshots from raw key events, and the small value types they share.

pub mod application;
pub mod colour;
pub mod driver;
pub mod icon;
pub mod input;
pub mod render;
