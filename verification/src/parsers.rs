//! Binary formats read by the player.

pub mod mp4;
