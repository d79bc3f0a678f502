//! Core of a streaming player for MPEG-DASH content with indexed
//! single-file representations: segment index resolution, sample
//! packetisation, presentation timing and the player lifecycle, each with a
//! machine-checked contract.

pub mod decoder;
pub mod error;
pub mod fetcher;
pub mod manifest;
pub mod networking;
pub mod parsers;
pub mod player;
pub mod renderers;
pub mod sync;
pub mod track_manager;
pub mod tracks;
