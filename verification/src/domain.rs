pub mod entities;
pub mod map;
