use player::fetcher::{
    DataSegment, FetchStep, Fetcher, AUDIO_FRAME_CAPACITY, MAX_SEGMENTS, PCM_SAMPLE_CAPACITY,
    VIDEO_FRAME_CAPACITY,
};
use player::sync::{frame_action, FrameAction, PresentationClock, Stream, DRIFT_TOLERANCE_MS};

#[test]
fn early_frame_waits_for_its_time() {
    assert_eq!(frame_action(1000, 400), FrameAction::SleepThenPresent(600));
    assert_eq!(frame_action(1, 0), FrameAction::SleepThenPresent(1));
    assert_eq!(frame_action(u64::MAX, 0), FrameAction::SleepThenPresent(u64::MAX));
}

#[test]
fn frame_on_time_is_shown() {
    assert_eq!(frame_action(0, 0), FrameAction::Present);
    assert_eq!(frame_action(1000, 1000), FrameAction::Present);
    assert_eq!(frame_action(1000, 1015), FrameAction::Present);
    assert_eq!(frame_action(1000, 1020), FrameAction::Present);
    assert_eq!(frame_action(u64::MAX, u64::MAX), FrameAction::Present);
    assert_eq!(frame_action(u64::MAX - 5, u64::MAX), FrameAction::Present);
}

#[test]
fn late_frame_is_dropped() {
    assert_eq!(DRIFT_TOLERANCE_MS, 20);
    assert_eq!(frame_action(1000, 1021), FrameAction::Drop);
    assert_eq!(frame_action(1000, 1025), FrameAction::Drop);
    assert_eq!(frame_action(0, u64::MAX), FrameAction::Drop);
    assert_eq!(frame_action(u64::MAX - 21, u64::MAX), FrameAction::Drop);
}

#[test]
fn drift_drop() {
    let mut clock = PresentationClock::new();
    clock.ready(Stream::Video, 10_000);
    clock.ready(Stream::Audio, 10_000);
    let now = 15_000;
    let elapsed = 5_000;
    assert_eq!(clock.on_frame(elapsed - 25, now), FrameAction::Drop);
    assert_eq!(clock.on_frame(elapsed - 15, now), FrameAction::Present);
    assert_eq!(clock.on_frame(elapsed + 40, now), FrameAction::SleepThenPresent(40));
}

#[test]
fn nothing_is_shown_before_both_streams_are_ready() {
    let mut clock = PresentationClock::new();
    assert_eq!(clock.start_instant(), None);
    assert_eq!(clock.on_frame(0, 0), FrameAction::Hold);
    assert_eq!(clock.on_frame(500, 100_000), FrameAction::Hold);
    clock.ready(Stream::Video, 1_000);
    assert_eq!(clock.start_instant(), None);
    assert_eq!(clock.on_frame(0, 1_000), FrameAction::Hold);
    clock.ready(Stream::Video, 1_500);
    assert_eq!(clock.start_instant(), None);
    assert_eq!(clock.on_frame(0, 2_000), FrameAction::Hold);
}

#[test]
fn first_frame_barrier() {
    let mut clock = PresentationClock::new();
    clock.ready(Stream::Video, 1_000);
    assert_eq!(clock.on_frame(0, 1_200), FrameAction::Hold);
    clock.ready(Stream::Audio, 1_750);
    assert_eq!(clock.start_instant(), Some(1_750));
    assert_eq!(clock.on_frame(0, 1_750), FrameAction::Present);
    assert_eq!(clock.on_frame(40, 1_750), FrameAction::SleepThenPresent(40));
    clock.ready(Stream::Video, 9_000);
    clock.ready(Stream::Audio, 9_500);
    assert_eq!(clock.start_instant(), Some(1_750));
}

#[test]
fn audio_may_be_ready_first() {
    let mut clock = PresentationClock::new();
    clock.ready(Stream::Audio, 70);
    assert_eq!(clock.start_instant(), None);
    clock.ready(Stream::Video, 30);
    assert_eq!(clock.start_instant(), Some(30));
    assert_eq!(clock.on_frame(0, 10), FrameAction::Present);
    let copy = clock.clone();
    assert_eq!(copy.start_instant(), Some(30));
}

#[test]
fn stop_ends_the_consumers() {
    let mut clock = PresentationClock::new();
    assert!(!clock.stopped());
    clock.stop();
    assert!(clock.stopped());
    assert_eq!(clock.on_frame(0, 0), FrameAction::Exit);
    clock.ready(Stream::Video, 1);
    clock.ready(Stream::Audio, 2);
    assert_eq!(clock.start_instant(), Some(2));
    assert_eq!(clock.on_frame(0, 2), FrameAction::Exit);
    let mut running = PresentationClock::new();
    running.ready(Stream::Video, 1);
    running.ready(Stream::Audio, 2);
    assert_eq!(running.on_frame(0, 2), FrameAction::Present);
    running.stop();
    assert_eq!(running.start_instant(), Some(2));
    assert_eq!(running.on_frame(0, 2), FrameAction::Exit);
}

#[test]
fn capacities_of_the_channels() {
    assert_eq!(MAX_SEGMENTS, 2);
    assert_eq!(VIDEO_FRAME_CAPACITY, 4);
    assert_eq!(AUDIO_FRAME_CAPACITY, 32);
    assert_eq!(PCM_SAMPLE_CAPACITY, 8192);
}

#[test]
fn fetched_segment_knows_its_size() {
    let segment = DataSegment::new(7, vec![1, 2, 3]);
    assert_eq!(segment.id, 7);
    assert_eq!(segment.size, 3);
    assert_eq!(segment.data, vec![1, 2, 3]);
    assert_eq!(DataSegment::new(0, vec![]).size, 0);
}

#[test]
fn segments_are_fetched_in_order() {
    let mut fetcher = Fetcher::new(3);
    assert_eq!(fetcher.step(), FetchStep::Fetch(0));
    assert_eq!(fetcher.step(), FetchStep::Fetch(0));
    fetcher.queued();
    assert_eq!(fetcher.step(), FetchStep::Fetch(1));
    fetcher.queued();
    assert_eq!(fetcher.step(), FetchStep::Fetch(2));
    fetcher.queued();
    assert_eq!(fetcher.step(), FetchStep::Finish);
    fetcher.queued();
    assert_eq!(fetcher, Fetcher { next: 3, total: 3, ended: false });
    assert_eq!(Fetcher::new(0).step(), FetchStep::Finish);
}

#[test]
fn ended_fetcher_fetches_no_more() {
    let mut fetcher = Fetcher::new(100);
    fetcher.queued();
    fetcher.end();
    assert_eq!(fetcher.step(), FetchStep::Finish);
    fetcher.queued();
    assert_eq!(fetcher, Fetcher { next: 1, total: 100, ended: true });
    assert_eq!(fetcher.step(), FetchStep::Finish);
}
