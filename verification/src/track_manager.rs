//! A manifest that is known to be playable in outline: it has a period
//! to take the tracks from, and a duration.

use crate::error::PlayerError;
use crate::manifest::MPD;
use vstd::prelude::*;

verus! {

/// A manifest together with its duration, once it is known to have a
/// period.
pub struct TrackManager<'a> {
    pub mpd: &'a MPD,
    pub duration: std::time::Duration,
}

impl<'a> TrackManager<'a> {
    /// Takes up a manifest of length `duration`; one without a period is
    /// refused, as no tracks could be taken from it.
    pub fn new(mpd: &'a MPD, duration: std::time::Duration) -> (result: Result<Self, PlayerError>)
        ensures
            result is Ok <==> mpd.periods@.len() > 0,
            result matches Ok(manager) ==> *manager.mpd == *mpd && manager.duration == duration,
            result matches Err(e) ==> e == PlayerError::SchemaError,
    {
        if mpd.periods.len() == 0 {
            return Err(PlayerError::SchemaError);
        }
        Ok(TrackManager { mpd, duration })
    }
}

} // verus!
