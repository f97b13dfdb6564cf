pub mod config;
pub mod phase;
pub mod render;
pub mod sequencer;
pub mod input;
pub mod driver;
