use player::decoder::setup::{AacConfig, AudioSampleEntry, VideoSampleEntry};
use player::error::PlayerError;
use player::manifest::{
    AdaptationSet, BaseURL, Initialization, Manifest, Period, Representation, SegmentBase, MPD,
};
use player::player::{Player, PlayerState};
use player::tracks::Tracks;
use std::time::Duration;

fn sidx_bytes(sizes: &[u32]) -> Vec<u8> {
    let mut bytes = Vec::new();
    bytes.extend_from_slice(&((32 + 12 * sizes.len()) as u32).to_be_bytes());
    bytes.extend_from_slice(b"sidx");
    bytes.extend_from_slice(&[0; 20]);
    bytes.extend_from_slice(&0u16.to_be_bytes());
    bytes.extend_from_slice(&(sizes.len() as u16).to_be_bytes());
    for size in sizes {
        bytes.extend_from_slice(&size.to_be_bytes());
        bytes.extend_from_slice(&[0; 8]);
    }
    bytes
}

fn representation(id: u32, kind: &str) -> Representation {
    Representation {
        id,
        bandwidth: 1000,
        mime_type: format!("{}/mp4", kind),
        codecs: Some("codec".to_string()),
        width: Some(640),
        height: Some(360),
        frame_rate: None,
        sar: Some("1:1".to_string()),
        audio_sampling_rate: Some(48000),
        base_url: BaseURL { value: format!("{}.mp4", kind) },
        segment_base: Some(SegmentBase {
            index_range: "100-143".to_string(),
            initialization: Initialization { range: "0-99".to_string() },
        }),
    }
}

fn set(kind: &str) -> AdaptationSet {
    AdaptationSet {
        id: 0,
        content_type: kind.to_string(),
        subsegment_alignment: None,
        max_width: Some(640),
        max_height: Some(360),
        frame_rate: Some("25".to_string()),
        par: None,
        lang: Some("en".to_string()),
        representations: vec![representation(1, kind)],
    }
}

fn manifest() -> Manifest {
    Manifest::new(
        "https://example.com/media/manifest.mpd".to_string(),
        "<MPD/>".to_string(),
        MPD {
            media_presentation_duration: "PT10S".to_string(),
            periods: vec![Period { adaptation_sets: vec![set("video"), set("audio")] }],
        },
    )
}

fn index() -> Vec<Vec<Vec<u8>>> {
    vec![vec![sidx_bytes(&[10, 20])], vec![sidx_bytes(&[30])]]
}

fn hevc() -> VideoSampleEntry {
    VideoSampleEntry::Hvc1(vec![vec![vec![0x40, 0x01]]])
}

fn aac() -> AudioSampleEntry {
    AudioSampleEntry::Mp4a(Some(AacConfig { profile: 2, freq_index: 3, chan_conf: 2 }))
}

fn prepared() -> (Player, Tracks) {
    let mut player = Player::new();
    player.open_url("https://example.com/media/manifest.mpd", manifest()).unwrap();
    player.prepare(Duration::from_secs(10), &index()).unwrap();
    let tracks = player.get_tracks().unwrap();
    (player, tracks)
}

fn ready() -> Player {
    let (mut player, tracks) = prepared();
    player.set_video_track(&tracks.video[0], &tracks.video[0].representations[0]).unwrap();
    player.set_audio_track(&tracks.audio[0], &tracks.audio[0].representations[0]).unwrap();
    player
}

#[test]
fn base_url_is_the_manifest_url_without_its_last_segment() {
    assert_eq!(
        Player::parse_base_url("https://example.com/media/manifest.mpd"),
        Ok("https://example.com/media/".to_string())
    );
    assert_eq!(
        Player::parse_base_url("https://example.com/manifest.mpd"),
        Ok("https://example.com//".to_string())
    );
    assert_eq!(
        Player::parse_base_url("http://example.com:8080/a/b/c/m.mpd"),
        Ok("http://example.com:8080/a/b/c/".to_string())
    );
}

#[test]
fn address_that_is_no_url_has_no_base_url() {
    assert_eq!(Player::parse_base_url("manifest.mpd"), Err(PlayerError::NetworkError));
    assert_eq!(Player::parse_base_url(""), Err(PlayerError::NetworkError));
    assert_eq!(Player::parse_base_url("mailto:someone@example.com"), Err(PlayerError::NetworkError));
}

#[test]
fn player_starts_idle() {
    let player = Player::new();
    assert_eq!(player.state(), PlayerState::Idle);
    assert!(player.base_url().is_none());
    assert!(player.manifest().is_none());
    assert!(player.video_representation().is_none());
    assert!(player.audio_representation().is_none());
    assert!(matches!(player.get_tracks(), Err(PlayerError::InvalidState)));
}

#[test]
fn lifecycle_runs_from_idle_to_stopped() {
    let mut player = Player::new();
    assert_eq!(player.open_url("https://example.com/media/manifest.mpd", manifest()), Ok(()));
    assert_eq!(player.state(), PlayerState::UrlOpened);
    assert_eq!(player.base_url().unwrap(), "https://example.com/media/");
    assert_eq!(player.manifest().unwrap().content, "<MPD/>");
    assert_eq!(player.prepare(Duration::from_secs(10), &index()), Ok(()));
    assert_eq!(player.state(), PlayerState::Prepared);
    let tracks = player.get_tracks().unwrap();
    assert_eq!(tracks.duration, Duration::from_secs(10));
    assert_eq!(tracks.video.len(), 1);
    assert_eq!(tracks.audio.len(), 1);
    assert_eq!(
        player.set_video_track(&tracks.video[0], &tracks.video[0].representations[0]),
        Ok(())
    );
    assert_eq!(player.state(), PlayerState::Prepared);
    assert_eq!(player.video_representation().unwrap().file_url, "video.mp4");
    assert!(player.audio_representation().is_none());
    assert_eq!(
        player.set_audio_track(&tracks.audio[0], &tracks.audio[0].representations[0]),
        Ok(())
    );
    assert_eq!(player.state(), PlayerState::Ready);
    assert_eq!(player.audio_representation().unwrap().file_url, "audio.mp4");
    let plan = player.play(&hevc(), &aac()).unwrap();
    assert_eq!(player.state(), PlayerState::Playing);
    assert_eq!(plan.video_prefeed, vec![vec![0, 0, 0, 1, 0x40, 0x01]]);
    assert_eq!(plan.audio_setup.header, [0xFF, 0xF1, 0x4C, 0x80, 0x80, 0x1F, 0xFC, 0xFF]);
    assert_eq!(plan.audio_setup.source_rate, 48000);
    let video: Vec<(u64, u64)> = plan.video_segments.iter().map(|s| (s.start(), s.end())).collect();
    let audio: Vec<(u64, u64)> = plan.audio_segments.iter().map(|s| (s.start(), s.end())).collect();
    assert_eq!(video, vec![(144, 153), (154, 173)]);
    assert_eq!(audio, vec![(144, 173)]);
    assert_eq!(plan.video_segments[0].url(), "https://example.com/media/video.mp4");
    assert_eq!(plan.audio_segments[0].url(), "https://example.com/media/audio.mp4");
    assert_eq!(player.stop(), Ok(()));
    assert_eq!(player.state(), PlayerState::Stopped);
    assert!(player.get_tracks().is_ok());
}

#[test]
fn audio_may_be_chosen_before_video() {
    let (mut player, tracks) = prepared();
    player.set_audio_track(&tracks.audio[0], &tracks.audio[0].representations[0]).unwrap();
    assert_eq!(player.state(), PlayerState::Prepared);
    player.set_video_track(&tracks.video[0], &tracks.video[0].representations[0]).unwrap();
    assert_eq!(player.state(), PlayerState::Ready);
    player.set_video_track(&tracks.video[0], &tracks.video[0].representations[0]).unwrap();
    assert_eq!(player.state(), PlayerState::Ready);
}

#[test]
fn operations_out_of_order_are_refused() {
    let mut player = Player::new();
    let (_, tracks) = prepared();
    assert_eq!(player.prepare(Duration::from_secs(1), &index()), Err(PlayerError::InvalidState));
    assert_eq!(
        player.set_video_track(&tracks.video[0], &tracks.video[0].representations[0]),
        Err(PlayerError::InvalidState)
    );
    assert_eq!(
        player.set_audio_track(&tracks.audio[0], &tracks.audio[0].representations[0]),
        Err(PlayerError::InvalidState)
    );
    assert!(matches!(player.play(&hevc(), &aac()), Err(PlayerError::InvalidState)));
    assert_eq!(player.stop(), Err(PlayerError::InvalidState));
    assert_eq!(player.state(), PlayerState::Idle);

    player.open_url("https://example.com/media/manifest.mpd", manifest()).unwrap();
    assert_eq!(
        player.open_url("https://example.com/other/manifest.mpd", manifest()),
        Err(PlayerError::InvalidState)
    );
    assert_eq!(player.base_url().unwrap(), "https://example.com/media/");
    assert!(matches!(player.get_tracks(), Err(PlayerError::InvalidState)));
    assert!(matches!(player.play(&hevc(), &aac()), Err(PlayerError::InvalidState)));
    assert_eq!(player.stop(), Err(PlayerError::InvalidState));
    assert_eq!(player.state(), PlayerState::UrlOpened);

    let mut player = ready();
    assert_eq!(player.prepare(Duration::from_secs(1), &index()), Err(PlayerError::InvalidState));
    assert_eq!(player.stop(), Err(PlayerError::InvalidState));
    assert_eq!(player.state(), PlayerState::Ready);
    player.play(&hevc(), &aac()).unwrap();
    assert!(matches!(player.play(&hevc(), &aac()), Err(PlayerError::InvalidState)));
    assert_eq!(
        player.set_video_track(&tracks.video[0], &tracks.video[0].representations[0]),
        Err(PlayerError::InvalidState)
    );
    assert_eq!(player.state(), PlayerState::Playing);
    player.stop().unwrap();
    assert_eq!(player.stop(), Err(PlayerError::InvalidState));
    assert!(matches!(player.play(&hevc(), &aac()), Err(PlayerError::InvalidState)));
    assert_eq!(
        player.open_url("https://example.com/media/manifest.mpd", manifest()),
        Err(PlayerError::InvalidState)
    );
    assert_eq!(player.state(), PlayerState::Stopped);
}

#[test]
fn url_that_cannot_be_opened_leaves_the_player_idle() {
    let mut player = Player::new();
    assert_eq!(player.open_url("not a url", manifest()), Err(PlayerError::NetworkError));
    assert_eq!(player.state(), PlayerState::Idle);
    assert!(player.manifest().is_none());
}

#[test]
fn failed_prepare_leaves_the_manifest_open() {
    let mut player = Player::new();
    player.open_url("https://example.com/media/manifest.mpd", manifest()).unwrap();
    assert_eq!(player.prepare(Duration::from_secs(10), &vec![]), Err(PlayerError::TruncatedSidx));
    assert_eq!(player.state(), PlayerState::UrlOpened);
    assert_eq!(player.prepare(Duration::from_secs(10), &index()), Ok(()));
    assert_eq!(player.state(), PlayerState::Prepared);
}

#[test]
fn play_needs_both_tracks() {
    let (mut player, tracks) = prepared();
    assert!(matches!(player.play(&hevc(), &aac()), Err(PlayerError::TrackNotSelected)));
    player.set_video_track(&tracks.video[0], &tracks.video[0].representations[0]).unwrap();
    assert!(matches!(player.play(&hevc(), &aac()), Err(PlayerError::TrackNotSelected)));
    assert_eq!(player.state(), PlayerState::Prepared);
}

#[test]
fn unsupported_codec() {
    let mut player = ready();
    assert!(matches!(
        player.play(&VideoSampleEntry::Other, &aac()),
        Err(PlayerError::CodecUnsupported)
    ));
    assert_eq!(player.state(), PlayerState::Ready);
    assert!(matches!(
        player.play(&hevc(), &AudioSampleEntry::Other),
        Err(PlayerError::CodecUnsupported)
    ));
    assert_eq!(player.state(), PlayerState::Ready);
    assert!(matches!(
        player.play(&hevc(), &AudioSampleEntry::Mp4a(None)),
        Err(PlayerError::CodecInitError)
    ));
    assert_eq!(player.state(), PlayerState::Ready);
    assert!(player.play(&hevc(), &aac()).is_ok());
    assert_eq!(player.state(), PlayerState::Playing);
}
