//! A small roguelike core: a world of connected rectangular rooms, and the
//! per-tick movement of characters on an integer grid.
//!
//! `world` builds the rooms and places their staircases, `state` holds the
//! live characters and structures and moves them, `domain` holds the map
//! types both work on. Every random draw goes through `random`.

pub mod domain;
pub mod draw;
pub mod random;
pub mod state;
pub mod tools;
pub mod world;
