//! Core simulation of a top-down gathering game: a player walks a bounded
//! tile world, chops trees through a timed action cycle, collects wood, and
//! trades it for coins at a fixed sell sign.
//!
//! All geometry uses integer coordinates, measured in half-pixel units so the
//! game's footprints (the 9 x 12 pixel player, the 12 x 5 pixel tree root) have
//! exact integer half-extents. Time is an integer count of time-units of a
//! sixtieth of a second, handed to every system explicitly; there is no
//! global clock.

pub mod action;
pub mod collision;
pub mod grid;
pub mod kiosk;
pub mod ledger;
pub mod player;
pub mod spawner;
pub mod timer;
pub mod trees;
pub mod world;
