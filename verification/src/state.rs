pub mod domain;
pub mod game;
pub mod helpers;
