//! The lifecycle of a player: which operation may follow which, and what
//! each of them records.

use crate::decoder::setup::{
    audio_setup, spec_audio_setup, spec_video_setup, video_setup, AudioSampleEntry, AudioSetup,
    VideoSampleEntry, VideoSampleEntryView,
};
use crate::error::PlayerError;
use crate::manifest::Manifest;
use crate::tracks::audio::{AudioAdaptation, AudioAdaptationView, AudioRepresentation, AudioRepresentationView};
use crate::tracks::segment::{Segment, SegmentView};
use crate::tracks::video::{
    clone_segments, spec_segment_views, VideoAdaptation, VideoAdaptationView, VideoRepresenation,
    VideoRepresenationView,
};
use crate::tracks::{spec_tracks, Tracks, TracksView};
use vstd::prelude::*;

verus! {

/// Where a player stands in its lifecycle.
#[derive(Clone, Copy, Debug, PartialEq, Eq, Structural)]
pub enum PlayerState {
    /// Nothing has been opened.
    Idle,
    /// A manifest has been opened.
    UrlOpened,
    /// The tracks have been built; a video or an audio track is still to
    /// be chosen.
    Prepared,
    /// A video and an audio track have been chosen.
    Ready,
    /// The pipeline runs.
    Playing,
    /// The pipeline has ended: it was stopped, ran out or failed.
    Stopped,
}

/// The address below which the files of a manifest lie: the address of
/// the manifest with its last path segment taken off, as the `url` crate
/// reads and writes it; none where it does not read `url` or the address
/// cannot carry a path.
pub uninterp spec fn spec_url_parent(url: Seq<char>) -> Option<Seq<char>>;

/// Calls `Url::parse`, `Url::path_segments_mut` and `PathSegmentsMut::pop`
/// of the `url` crate and gives the text of what is left; nothing where
/// the first two fail. Nothing is proved of it: the claim is that the
/// result depends on `full_url` alone.
#[verifier::external_body]
fn url_parent(full_url: &str) -> (parent: Option<String>)
    ensures
        match parent {
            Some(parent) => spec_url_parent(full_url@) == Some(parent@),
            None => spec_url_parent(full_url@) is None,
        },
{
    let mut url = url::Url::parse(full_url).ok()?;
    url.path_segments_mut().ok()?.pop();
    Some(url.into())
}

/// The base address of a manifest: the address with its last path
/// segment taken off, and a slash after it.
pub open spec fn spec_base_url(url: Seq<char>) -> Result<Seq<char>, PlayerError> {
    match spec_url_parent(url) {
        Some(parent) => Ok(parent + "/"@),
        None => Err(PlayerError::NetworkError),
    }
}

/// What a player holds, as mathematical values.
pub struct PlayerView {
    pub state: PlayerState,
    pub base_url: Option<Seq<char>>,
    pub manifest: Option<Manifest>,
    pub tracks: Option<TracksView>,
    pub duration: Option<std::time::Duration>,
    pub video: Option<(VideoAdaptationView, VideoRepresenationView)>,
    pub audio: Option<(AudioAdaptationView, AudioRepresentationView)>,
}

/// Whether what a player holds fits its state: a base address and a
/// manifest once one was opened, tracks once they were built, and both
/// choices exactly from `Ready` on.
pub open spec fn spec_player_wf(player: PlayerView) -> bool {
    &&& (player.base_url is Some <==> player.state != PlayerState::Idle)
    &&& (player.manifest is Some <==> player.state != PlayerState::Idle)
    &&& (player.tracks is Some <==> player.state != PlayerState::Idle && player.state
        != PlayerState::UrlOpened)
    &&& (player.duration is Some <==> player.tracks is Some)
    &&& (player.video is Some ==> player.tracks is Some)
    &&& (player.audio is Some ==> player.tracks is Some)
    &&& (player.state == PlayerState::Prepared ==> !(player.video is Some && player.audio
        is Some))
    &&& (player.state == PlayerState::Ready || player.state == PlayerState::Playing
        || player.state == PlayerState::Stopped ==> player.video is Some && player.audio is Some)
}

/// A player on which nothing has happened.
pub open spec fn spec_new_player() -> PlayerView {
    PlayerView {
        state: PlayerState::Idle,
        base_url: None,
        manifest: None,
        tracks: None,
        duration: None,
        video: None,
        audio: None,
    }
}

/// Opening a manifest: only an idle player opens one, and the address
/// must give a base address.
pub open spec fn spec_open_url(player: PlayerView, url: Seq<char>, manifest: Manifest) -> Result<
    PlayerView,
    PlayerError,
> {
    if player.state != PlayerState::Idle {
        Err(PlayerError::InvalidState)
    } else {
        match spec_base_url(url) {
            Err(e) => Err(e),
            Ok(base_url) => Ok(
                PlayerView {
                    state: PlayerState::UrlOpened,
                    base_url: Some(base_url),
                    manifest: Some(manifest),
                    ..player
                },
            ),
        }
    }
}

/// Building the tracks: only right after a manifest was opened, and the
/// tracks must be built without error.
pub open spec fn spec_prepare(
    player: PlayerView,
    duration: std::time::Duration,
    index: Seq<Vec<Vec<u8>>>,
) -> Result<PlayerView, PlayerError> {
    if player.state != PlayerState::UrlOpened {
        Err(PlayerError::InvalidState)
    } else {
        match spec_tracks(player.base_url->Some_0, player.manifest->Some_0.mpd, index) {
            Err(e) => Err(e),
            Ok(tracks) => Ok(
                PlayerView {
                    state: PlayerState::Prepared,
                    tracks: Some(tracks),
                    duration: Some(duration),
                    ..player
                },
            ),
        }
    }
}

/// Whether a track may be chosen: after the tracks were built and before
/// the pipeline was started.
pub open spec fn spec_may_select(player: PlayerView) -> bool {
    player.state == PlayerState::Prepared || player.state == PlayerState::Ready
}

/// Choosing the video track; with an audio track chosen before, the
/// player is ready.
pub open spec fn spec_set_video_track(
    player: PlayerView,
    adaptation: VideoAdaptationView,
    representation: VideoRepresenationView,
) -> Result<PlayerView, PlayerError> {
    if !spec_may_select(player) {
        Err(PlayerError::InvalidState)
    } else {
        Ok(
            PlayerView {
                state: if player.audio is Some {
                    PlayerState::Ready
                } else {
                    PlayerState::Prepared
                },
                video: Some((adaptation, representation)),
                ..player
            },
        )
    }
}

/// Choosing the audio track; with a video track chosen before, the
/// player is ready.
pub open spec fn spec_set_audio_track(
    player: PlayerView,
    adaptation: AudioAdaptationView,
    representation: AudioRepresentationView,
) -> Result<PlayerView, PlayerError> {
    if !spec_may_select(player) {
        Err(PlayerError::InvalidState)
    } else {
        Ok(
            PlayerView {
                state: if player.video is Some {
                    PlayerState::Ready
                } else {
                    PlayerState::Prepared
                },
                audio: Some((adaptation, representation)),
                ..player
            },
        )
    }
}

/// What the pipeline is started with: what each decoder is fed first,
/// the sampling rate of the audio source, and the media segments of the
/// two chosen representations.
pub struct PlayPlan {
    pub video_prefeed: Vec<Vec<u8>>,
    pub audio_setup: AudioSetup,
    pub video_segments: Vec<Segment>,
    pub audio_segments: Vec<Segment>,
}

/// What a [`PlayPlan`] holds, as mathematical values.
pub struct PlayPlanView {
    pub video_prefeed: Seq<Seq<u8>>,
    pub audio_header: Seq<u8>,
    pub audio_source_rate: u32,
    pub video_segments: Seq<SegmentView>,
    pub audio_segments: Seq<SegmentView>,
}

impl View for PlayPlan {
    type V = PlayPlanView;

    open spec fn view(&self) -> PlayPlanView {
        PlayPlanView {
            video_prefeed: self.video_prefeed.deep_view(),
            audio_header: self.audio_setup.header@,
            audio_source_rate: self.audio_setup.source_rate,
            video_segments: spec_segment_views(self.video_segments@),
            audio_segments: spec_segment_views(self.audio_segments@),
        }
    }
}

/// Starting the pipeline with the sample descriptions of the two chosen
/// tracks. A player whose tracks are built and not both chosen lacks a
/// track; in any other state but `Ready` the call is out of order. The
/// video description is looked at first, then the audio description.
pub open spec fn spec_play(
    player: PlayerView,
    video: VideoSampleEntryView,
    audio: AudioSampleEntry,
) -> Result<(PlayerView, PlayPlanView), PlayerError> {
    if player.state == PlayerState::Prepared {
        Err(PlayerError::TrackNotSelected)
    } else if player.state != PlayerState::Ready {
        Err(PlayerError::InvalidState)
    } else {
        match spec_video_setup(video) {
            Err(e) => Err(e),
            Ok(video_prefeed) => match spec_audio_setup(audio) {
                Err(e) => Err(e),
                Ok((audio_header, audio_source_rate)) => Ok(
                    (
                        PlayerView { state: PlayerState::Playing, ..player },
                        PlayPlanView {
                            video_prefeed,
                            audio_header,
                            audio_source_rate,
                            video_segments: player.video->Some_0.1.segments,
                            audio_segments: player.audio->Some_0.1.segments,
                        },
                    ),
                ),
            },
        }
    }
}

#[allow(inconsistent_fields)]
enum Stage {
    Idle,
    Opened { base_url: String, manifest: Manifest },
    Prepared {
        base_url: String,
        manifest: Manifest,
        tracks: Tracks,
        video: Option<(VideoAdaptation, VideoRepresenation)>,
        audio: Option<(AudioAdaptation, AudioRepresentation)>,
    },
    Started {
        base_url: String,
        manifest: Manifest,
        tracks: Tracks,
        video: (VideoAdaptation, VideoRepresenation),
        audio: (AudioAdaptation, AudioRepresentation),
        stopped: bool,
    },
}

/// The coordinator of a playback: it keeps the manifest, the tracks and
/// the chosen pair, and lets each operation through only in its turn.
pub struct Player {
    stage: Stage,
}

impl View for Player {
    type V = PlayerView;

    closed spec fn view(&self) -> PlayerView {
        match self.stage {
            Stage::Idle => spec_new_player(),
            Stage::Opened { base_url, manifest } => PlayerView {
                state: PlayerState::UrlOpened,
                base_url: Some(base_url@),
                manifest: Some(manifest),
                tracks: None,
                duration: None,
                video: None,
                audio: None,
            },
            Stage::Prepared { base_url, manifest, tracks, video, audio } => PlayerView {
                state: if video is Some && audio is Some {
                    PlayerState::Ready
                } else {
                    PlayerState::Prepared
                },
                base_url: Some(base_url@),
                manifest: Some(manifest),
                tracks: Some(tracks@),
                duration: Some(tracks.duration),
                video: match video {
                    Some((adaptation, representation)) => Some((adaptation@, representation@)),
                    None => None,
                },
                audio: match audio {
                    Some((adaptation, representation)) => Some((adaptation@, representation@)),
                    None => None,
                },
            },
            Stage::Started { base_url, manifest, tracks, video, audio, stopped } => PlayerView {
                state: if stopped {
                    PlayerState::Stopped
                } else {
                    PlayerState::Playing
                },
                base_url: Some(base_url@),
                manifest: Some(manifest),
                tracks: Some(tracks@),
                duration: Some(tracks.duration),
                video: Some((video.0@, video.1@)),
                audio: Some((audio.0@, audio.1@)),
            },
        }
    }
}

impl Player {
    /// A player on which nothing has happened.
    pub fn new() -> (player: Self)
        ensures
            player@ == spec_new_player(),
    {
        Player { stage: Stage::Idle }
    }

    /// What a player holds always fits its state.
    pub proof fn lemma_wf(&self)
        ensures
            spec_player_wf(self@),
    {
    }

    /// Gives the base address of a manifest that lies at `full_url`.
    pub fn parse_base_url(full_url: &str) -> (result: Result<String, PlayerError>)
        ensures
            match result {
                Ok(base_url) => spec_base_url(full_url@) == Ok::<Seq<char>, PlayerError>(base_url@),
                Err(e) => spec_base_url(full_url@) == Err::<Seq<char>, PlayerError>(e),
            },
    {
        match url_parent(full_url) {
            Some(parent) => Ok(parent.concat("/")),
            None => Err(PlayerError::NetworkError),
        }
    }

    /// The state of the player.
    pub fn state(&self) -> (state: PlayerState)
        ensures
            state == self@.state,
    {
        match &self.stage {
            Stage::Idle => PlayerState::Idle,
            Stage::Opened { .. } => PlayerState::UrlOpened,
            Stage::Prepared { video, audio, .. } => if video.is_some() && audio.is_some() {
                PlayerState::Ready
            } else {
                PlayerState::Prepared
            },
            Stage::Started { stopped, .. } => if *stopped {
                PlayerState::Stopped
            } else {
                PlayerState::Playing
            },
        }
    }

    /// The base address, once a manifest was opened.
    pub fn base_url(&self) -> (base_url: Option<&String>)
        ensures
            base_url is Some <==> self@.base_url is Some,
            base_url matches Some(text) ==> self@.base_url == Some(text@),
    {
        match &self.stage {
            Stage::Idle => None,
            Stage::Opened { base_url, .. } => Some(base_url),
            Stage::Prepared { base_url, .. } => Some(base_url),
            Stage::Started { base_url, .. } => Some(base_url),
        }
    }

    /// The manifest, once one was opened.
    pub fn manifest(&self) -> (manifest: Option<&Manifest>)
        ensures
            manifest is Some <==> self@.manifest is Some,
            manifest matches Some(found) ==> self@.manifest == Some(*found),
    {
        match &self.stage {
            Stage::Idle => None,
            Stage::Opened { manifest, .. } => Some(manifest),
            Stage::Prepared { manifest, .. } => Some(manifest),
            Stage::Started { manifest, .. } => Some(manifest),
        }
    }

    /// The chosen video representation, once one was chosen.
    pub fn video_representation(&self) -> (chosen: Option<&VideoRepresenation>)
        ensures
            chosen is Some <==> self@.video is Some,
            chosen matches Some(found) ==> self@.video->Some_0.1 == found@,
    {
        match &self.stage {
            Stage::Prepared { video: Some(pair), .. } => Some(&pair.1),
            Stage::Started { video, .. } => Some(&video.1),
            _ => None,
        }
    }

    /// The chosen audio representation, once one was chosen.
    pub fn audio_representation(&self) -> (chosen: Option<&AudioRepresentation>)
        ensures
            chosen is Some <==> self@.audio is Some,
            chosen matches Some(found) ==> self@.audio->Some_0.1 == found@,
    {
        match &self.stage {
            Stage::Prepared { audio: Some(pair), .. } => Some(&pair.1),
            Stage::Started { audio, .. } => Some(&audio.1),
            _ => None,
        }
    }

    /// Opens the manifest that was fetched from `url`; this comes first.
    pub fn open_url(&mut self, url: &str, manifest: Manifest) -> (result: Result<(), PlayerError>)
        ensures
            match result {
                Ok(()) => spec_open_url(old(self)@, url@, manifest) == Ok::<
                    PlayerView,
                    PlayerError,
                >(final(self)@),
                Err(e) => spec_open_url(old(self)@, url@, manifest) == Err::<
                    PlayerView,
                    PlayerError,
                >(e) && final(self)@ == old(self)@,
            },
    {
        match &self.stage {
            Stage::Idle => {},
            _ => {
                return Err(PlayerError::InvalidState);
            },
        }
        let base_url: String = match Self::parse_base_url(url) {
            Ok(base_url) => base_url,
            Err(e) => {
                return Err(e);
            },
        };
        self.stage = Stage::Opened { base_url, manifest };
        Ok(())
    }

    /// Builds the tracks of the opened manifest for a presentation of
    /// length `duration`. `index` holds, for each adaptation set of the
    /// first period in order, the bytes of the index range of each of its
    /// representations.
    pub fn prepare(&mut self, duration: std::time::Duration, index: &Vec<Vec<Vec<u8>>>) -> (result:
        Result<(), PlayerError>)
        ensures
            match result {
                Ok(()) => spec_prepare(old(self)@, duration, index@) == Ok::<
                    PlayerView,
                    PlayerError,
                >(final(self)@),
                Err(e) => spec_prepare(old(self)@, duration, index@) == Err::<
                    PlayerView,
                    PlayerError,
                >(e) && final(self)@ == old(self)@,
            },
    {
        let tracks: Tracks = match &self.stage {
            Stage::Opened { base_url, manifest } => {
                match Tracks::new(base_url.clone(), &manifest.mpd, duration, index) {
                    Ok(tracks) => tracks,
                    Err(e) => {
                        return Err(e);
                    },
                }
            },
            _ => {
                return Err(PlayerError::InvalidState);
            },
        };
        let mut stage = Stage::Idle;
        core::mem::swap(&mut self.stage, &mut stage);
        match stage {
            Stage::Opened { base_url, manifest } => {
                self.stage = Stage::Prepared { base_url, manifest, tracks, video: None, audio: None };
            },
            _ => {},
        }
        Ok(())
    }

    /// A copy of the tracks, once they were built.
    pub fn get_tracks(&self) -> (result: Result<Tracks, PlayerError>)
        ensures
            result is Ok <==> self@.tracks is Some,
            result matches Ok(tracks) ==> self@.tracks == Some(tracks@) && self@.duration == Some(
                tracks.duration,
            ),
            result matches Err(e) ==> e == PlayerError::InvalidState,
    {
        match &self.stage {
            Stage::Prepared { tracks, .. } => Ok(tracks.clone()),
            Stage::Started { tracks, .. } => Ok(tracks.clone()),
            _ => Err(PlayerError::InvalidState),
        }
    }

    /// Chooses the video track for the next `play`.
    pub fn set_video_track(
        &mut self,
        adaptation: &VideoAdaptation,
        representation: &VideoRepresenation,
    ) -> (result: Result<(), PlayerError>)
        ensures
            match result {
                Ok(()) => spec_set_video_track(old(self)@, adaptation@, representation@) == Ok::<
                    PlayerView,
                    PlayerError,
                >(final(self)@),
                Err(e) => spec_set_video_track(old(self)@, adaptation@, representation@) == Err::<
                    PlayerView,
                    PlayerError,
                >(e) && final(self)@ == old(self)@,
            },
    {
        match &self.stage {
            Stage::Prepared { .. } => {},
            _ => {
                return Err(PlayerError::InvalidState);
            },
        }
        let chosen = (adaptation.clone(), representation.clone());
        let mut stage = Stage::Idle;
        core::mem::swap(&mut self.stage, &mut stage);
        match stage {
            Stage::Prepared { base_url, manifest, tracks, video, audio } => {
                self.stage = Stage::Prepared {
                    base_url,
                    manifest,
                    tracks,
                    video: Some(chosen),
                    audio,
                };
            },
            _ => {},
        }
        Ok(())
    }

    /// Chooses the audio track for the next `play`.
    pub fn set_audio_track(
        &mut self,
        adaptation: &AudioAdaptation,
        representation: &AudioRepresentation,
    ) -> (result: Result<(), PlayerError>)
        ensures
            match result {
                Ok(()) => spec_set_audio_track(old(self)@, adaptation@, representation@) == Ok::<
                    PlayerView,
                    PlayerError,
                >(final(self)@),
                Err(e) => spec_set_audio_track(old(self)@, adaptation@, representation@) == Err::<
                    PlayerView,
                    PlayerError,
                >(e) && final(self)@ == old(self)@,
            },
    {
        match &self.stage {
            Stage::Prepared { .. } => {},
            _ => {
                return Err(PlayerError::InvalidState);
            },
        }
        let chosen = (adaptation.clone(), representation.clone());
        let mut stage = Stage::Idle;
        core::mem::swap(&mut self.stage, &mut stage);
        match stage {
            Stage::Prepared { base_url, manifest, tracks, video, audio } => {
                self.stage = Stage::Prepared {
                    base_url,
                    manifest,
                    tracks,
                    video,
                    audio: Some(chosen),
                };
            },
            _ => {},
        }
        Ok(())
    }

    /// Copies of the two chosen representations of a ready player: what
    /// has to be fetched before `play`. A player whose tracks are built
    /// and not both chosen lacks a track; in any other state but `Ready`
    /// the call is out of order.
    pub fn selection(&self) -> (result: Result<(VideoRepresenation, AudioRepresentation), PlayerError>)
        ensures
            result is Ok <==> self@.state == PlayerState::Ready,
            result matches Ok((video, audio)) ==> self@.video->Some_0.1 == video@
                && self@.audio->Some_0.1 == audio@,
            result matches Err(e) ==> e == if self@.state == PlayerState::Prepared {
                PlayerError::TrackNotSelected
            } else {
                PlayerError::InvalidState
            },
    {
        match &self.stage {
            Stage::Prepared { video: Some(video), audio: Some(audio), .. } => Ok(
                (video.1.clone(), audio.1.clone()),
            ),
            Stage::Prepared { .. } => Err(PlayerError::TrackNotSelected),
            _ => Err(PlayerError::InvalidState),
        }
    }

    /// Starts the pipeline, given the sample descriptions of the two
    /// chosen tracks. On an error the player stays as it was.
    pub fn play(&mut self, video: &VideoSampleEntry, audio: &AudioSampleEntry) -> (result: Result<
        PlayPlan,
        PlayerError,
    >)
        ensures
            match result {
                Ok(plan) => spec_play(old(self)@, video@, *audio) == Ok::<
                    (PlayerView, PlayPlanView),
                    PlayerError,
                >((final(self)@, plan@)),
                Err(e) => spec_play(old(self)@, video@, *audio) == Err::<
                    (PlayerView, PlayPlanView),
                    PlayerError,
                >(e) && final(self)@ == old(self)@,
            },
    {
        let plan: PlayPlan = match &self.stage {
            Stage::Prepared { video: Some(chosen_video), audio: Some(chosen_audio), .. } => {
                let video_prefeed: Vec<Vec<u8>> = match video_setup(video) {
                    Ok(packets) => packets,
                    Err(e) => {
                        return Err(e);
                    },
                };
                let audio_setup: AudioSetup = match audio_setup(audio) {
                    Ok(setup) => setup,
                    Err(e) => {
                        return Err(e);
                    },
                };
                PlayPlan {
                    video_prefeed,
                    audio_setup,
                    video_segments: clone_segments(&chosen_video.1.segments),
                    audio_segments: clone_segments(&chosen_audio.1.segments),
                }
            },
            Stage::Prepared { .. } => {
                return Err(PlayerError::TrackNotSelected);
            },
            _ => {
                return Err(PlayerError::InvalidState);
            },
        };
        let mut stage = Stage::Idle;
        core::mem::swap(&mut self.stage, &mut stage);
        match stage {
            Stage::Prepared { base_url, manifest, tracks, video: Some(video), audio: Some(audio) } => {
                self.stage = Stage::Started { base_url, manifest, tracks, video, audio, stopped: false };
            },
            _ => {},
        }
        Ok(plan)
    }

    /// Ends the playback: a playing player is stopped, and any other
    /// call is out of order.
    pub fn stop(&mut self) -> (result: Result<(), PlayerError>)
        ensures
            result is Ok <==> old(self)@.state == PlayerState::Playing,
            result is Ok ==> final(self)@ == (PlayerView {
                state: PlayerState::Stopped,
                ..old(self)@
            }),
            result matches Err(e) ==> e == PlayerError::InvalidState && final(self)@ == old(self)@,
    {
        match &self.stage {
            Stage::Started { stopped: false, .. } => {},
            _ => {
                return Err(PlayerError::InvalidState);
            },
        }
        let mut stage = Stage::Idle;
        core::mem::swap(&mut self.stage, &mut stage);
        match stage {
            Stage::Started { base_url, manifest, tracks, video, audio, stopped } => {
                self.stage = Stage::Started { base_url, manifest, tracks, video, audio, stopped: true };
            },
            _ => {},
        }
        Ok(())
    }
}

} // verus!
