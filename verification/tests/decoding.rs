use player::decoder::setup::{
    audio_setup, video_setup, AacConfig, AudioSampleEntry, AudioSetup, VideoSampleEntry,
    ADTS_FRAME_LENGTH,
};
use player::decoder::{
    audio_packets, first_track, pts_ms, segment_file, video_packets, Packet, SampleInfo,
};
use player::error::PlayerError;

fn sample(offset: u64, size: u64, composition_timestamp: i64, timescale: u64) -> SampleInfo {
    SampleInfo { offset, size, composition_timestamp, timescale }
}

#[test]
fn timestamps_are_converted_to_milliseconds() {
    assert_eq!(pts_ms(0, 90000), Some(0));
    assert_eq!(pts_ms(90000, 90000), Some(1000));
    assert_eq!(pts_ms(3003, 24000), Some(125));
    assert_eq!(pts_ms(1, 90000), Some(0));
    assert_eq!(pts_ms(89, 90000), Some(0));
    assert_eq!(pts_ms(90, 90000), Some(1));
    assert_eq!(pts_ms(1024, 48000), Some(21));
    assert_eq!(pts_ms(7, 1), Some(7000));
}

#[test]
fn negative_timestamps_round_towards_zero() {
    assert_eq!(pts_ms(-1, 90000), Some(0));
    assert_eq!(pts_ms(-90, 90000), Some(-1));
    assert_eq!(pts_ms(-179, 90000), Some(-1));
    assert_eq!(pts_ms(-90000, 90000), Some(-1000));
}

#[test]
fn timestamps_at_the_limits() {
    assert_eq!(pts_ms(5, 0), None);
    assert_eq!(pts_ms(5, (i64::MAX as u64) + 1), None);
    assert_eq!(pts_ms(5, u64::MAX), None);
    assert_eq!(pts_ms(5, i64::MAX as u64), Some(0));
    assert_eq!(pts_ms(i64::MAX / 1000, 1), Some(i64::MAX / 1000 * 1000));
    assert_eq!(pts_ms(i64::MAX / 1000 + 1, 1), None);
    assert_eq!(pts_ms(i64::MIN / 1000, 1000), Some(i64::MIN / 1000));
    assert_eq!(pts_ms(i64::MIN / 1000 - 1, 1000), None);
    assert_eq!(pts_ms(i64::MAX, 1), None);
    assert_eq!(pts_ms(i64::MIN, 1), None);
}

#[test]
fn conversion_keeps_the_order_of_timestamps() {
    let stamps = [-5000i64, -91, -90, -1, 0, 1, 89, 90, 3003, 6006, 90000, 1 << 40];
    for pair in stamps.windows(2) {
        let earlier = pts_ms(pair[0], 90000).unwrap();
        let later = pts_ms(pair[1], 90000).unwrap();
        assert!(earlier <= later);
    }
}

#[test]
fn segment_follows_its_initialization() {
    assert_eq!(segment_file(&[1, 2], &[3, 4, 5]), vec![1, 2, 3, 4, 5]);
    assert_eq!(segment_file(&[], &[3]), vec![3]);
    assert_eq!(segment_file(&[1], &[]), vec![1]);
}

#[test]
fn first_track_is_the_one_that_is_played() {
    let tracks = vec![vec![sample(1, 2, 3, 4)], vec![sample(5, 6, 7, 8), sample(9, 9, 9, 9)]];
    assert_eq!(first_track(tracks), Ok(vec![sample(1, 2, 3, 4)]));
    assert_eq!(first_track::<Vec<SampleInfo>>(vec![vec![]]), Ok(vec![]));
    assert_eq!(first_track::<Vec<SampleInfo>>(vec![]), Err(PlayerError::ContainerParseError));
    assert_eq!(
        first_track(vec![VideoSampleEntry::Other, VideoSampleEntry::Hvc1(vec![])]),
        Ok(VideoSampleEntry::Other)
    );
}

#[test]
fn video_sample_becomes_one_packet_for_each_unit() {
    let data = [
        0xFF, 0xFF, 0x00, 0x00, 0x00, 0x04, 0xAA, 0xBB, 0xCC, 0xDD, 0x00, 0x00, 0x00, 0x02, 0xEE,
        0xFF, 0x00, 0x00, 0x00, 0x01, 0x11,
    ];
    let samples = vec![sample(2, 14, 3003, 24000), sample(16, 5, 6006, 24000)];
    let groups = video_packets(&data, &samples).unwrap();
    assert_eq!(
        groups,
        vec![
            vec![
                Packet { data: vec![0, 0, 0, 1, 0xAA, 0xBB, 0xCC, 0xDD], pts: 125, timescale: 24000 },
                Packet { data: vec![0, 0, 0, 1, 0xEE, 0xFF], pts: 125, timescale: 24000 },
            ],
            vec![Packet { data: vec![0, 0, 0, 1, 0x11], pts: 250, timescale: 24000 }],
        ]
    );
}

#[test]
fn video_sample_beyond_the_data_is_skipped() {
    let data = [0x00, 0x00, 0x00, 0x01, 0x11, 0x00, 0x00, 0x00, 0x01, 0x22];
    let samples = vec![
        sample(0, 5, 0, 1000),
        sample(6, 5, 10, 1000),
        sample(11, 1, 20, 1000),
        sample(u64::MAX, 2, 30, 1000),
        sample(5, u64::MAX, 40, 1000),
        sample(5, 5, 50, 1000),
        sample(10, 0, 60, 0),
    ];
    let groups = video_packets(&data, &samples).unwrap();
    assert_eq!(
        groups,
        vec![
            vec![Packet { data: vec![0, 0, 0, 1, 0x11], pts: 0, timescale: 1000 }],
            vec![Packet { data: vec![0, 0, 0, 1, 0x22], pts: 50, timescale: 1000 }],
            vec![],
        ]
    );
}

#[test]
fn video_sample_that_is_cut_is_an_error() {
    let data = [0x00, 0x00, 0x00, 0x05, 0x11];
    assert_eq!(
        video_packets(&data, &vec![sample(0, 5, 0, 1000)]),
        Err(PlayerError::ContainerParseError)
    );
    assert_eq!(
        video_packets(&data, &vec![sample(0, 3, 0, 1000)]),
        Err(PlayerError::ContainerParseError)
    );
}

#[test]
fn video_sample_without_a_time_is_an_error() {
    let data = [0x00, 0x00, 0x00, 0x01, 0x11];
    assert_eq!(
        video_packets(&data, &vec![sample(0, 5, 10, 0)]),
        Err(PlayerError::ContainerParseError)
    );
    assert_eq!(
        video_packets(&data, &vec![sample(0, 5, i64::MAX, 1)]),
        Err(PlayerError::ContainerParseError)
    );
    assert_eq!(video_packets(&data, &vec![]), Ok(vec![]));
}

#[test]
fn audio_sample_becomes_one_packet_on_the_output_rate() {
    let data = [9, 1, 2, 3, 4, 5, 6];
    let samples = vec![sample(1, 3, 0, 44100), sample(4, 3, 1024, 44100), sample(7, 0, 2048, 44100)];
    assert_eq!(
        audio_packets(&data, &samples, 48000),
        Ok(vec![
            Packet { data: vec![1, 2, 3], pts: 0, timescale: 44100 },
            Packet { data: vec![4, 5, 6], pts: 21, timescale: 44100 },
            Packet { data: vec![], pts: 42, timescale: 44100 },
        ])
    );
}

#[test]
fn audio_sample_beyond_the_data_is_skipped() {
    let data = [1, 2, 3];
    let samples = vec![sample(2, 2, 0, 1), sample(0, 1, 48, 1), sample(4, 0, 0, 1)];
    assert_eq!(
        audio_packets(&data, &samples, 48000),
        Ok(vec![Packet { data: vec![1], pts: 1, timescale: 1 }])
    );
}

#[test]
fn audio_sample_without_a_time_is_an_error() {
    let data = [1, 2, 3];
    assert_eq!(
        audio_packets(&data, &vec![sample(0, 1, 48, 1)], 0),
        Err(PlayerError::ContainerParseError)
    );
    assert_eq!(
        audio_packets(&data, &vec![sample(0, 1, i64::MIN, 1)], 48000),
        Err(PlayerError::ContainerParseError)
    );
    assert_eq!(audio_packets(&data, &vec![sample(3, 1, 48, 1)], 0), Ok(vec![]));
}

#[test]
fn parameter_sets_are_fed_in_their_order() {
    let arrays = vec![vec![vec![0x40, 0x01], vec![0x40, 0x02]], vec![], vec![vec![0x42]]];
    let expected = vec![vec![0, 0, 0, 1, 0x40, 0x01], vec![0, 0, 0, 1, 0x40, 0x02], vec![0, 0, 0, 1, 0x42]];
    assert_eq!(video_setup(&VideoSampleEntry::Hvc1(arrays.clone())), Ok(expected.clone()));
    assert_eq!(video_setup(&VideoSampleEntry::Hev1(arrays)), Ok(expected));
    assert_eq!(video_setup(&VideoSampleEntry::Hvc1(vec![])), Ok(vec![]));
}

#[test]
fn another_video_codec_is_not_supported() {
    assert_eq!(video_setup(&VideoSampleEntry::Other), Err(PlayerError::CodecUnsupported));
}

#[test]
fn audio_setup_builds_the_header_and_finds_the_rate() {
    let entry = AudioSampleEntry::Mp4a(Some(AacConfig { profile: 2, freq_index: 4, chan_conf: 2 }));
    assert_eq!(ADTS_FRAME_LENGTH, 1024);
    assert_eq!(
        audio_setup(&entry),
        Ok(AudioSetup {
            header: [0xFF, 0xF1, 0x50, 0x80, 0x80, 0x1F, 0xFC, 0xFF],
            source_rate: 44100
        })
    );
    let entry = AudioSampleEntry::Mp4a(Some(AacConfig { profile: 1, freq_index: 3, chan_conf: 6 }));
    assert_eq!(
        audio_setup(&entry),
        Ok(AudioSetup {
            header: [0xFF, 0xF1, 0x0D, 0x80, 0x80, 0x1F, 0xFC, 0xFF],
            source_rate: 48000
        })
    );
}

#[test]
fn audio_setup_fails_without_a_usable_configuration() {
    assert_eq!(audio_setup(&AudioSampleEntry::Mp4a(None)), Err(PlayerError::CodecInitError));
    let entry = AudioSampleEntry::Mp4a(Some(AacConfig { profile: 0, freq_index: 4, chan_conf: 2 }));
    assert_eq!(audio_setup(&entry), Err(PlayerError::CodecInitError));
}

#[test]
fn another_audio_codec_is_not_supported() {
    assert_eq!(audio_setup(&AudioSampleEntry::Other), Err(PlayerError::CodecUnsupported));
}
