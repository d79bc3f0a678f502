//! What the output devices need worked out for them.

pub mod audio;
