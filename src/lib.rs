//! A small top-down exploration game's simulation core: a world of entities
//! kept in a stable-keyed graph, a player who walks, drinks and fills a
//! bottle, need-stats that decay over time, and the radial item selector that
//! turns controller levels into selection, swap and action events.
//!
//! All quantities are fixed-point integers: lengths in micro-units (a world
//! unit is `geometry::MICRO`), headings in milli-units, time in milliseconds
//! and stats in `player::STAT_FULL`-ths.

pub mod geometry;
pub mod dpad;
pub mod item;
pub mod player;
pub mod selector;
pub mod store;
pub mod world;
pub mod ui;
pub mod game;
