pub mod debug;
