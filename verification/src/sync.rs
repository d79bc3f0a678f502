//! The presentation clock that both streams are paced against, and what
//! is done with a frame when it arrives.

use vstd::prelude::*;

verus! {

/// How late a frame may be, in milliseconds, and still be shown.
pub const DRIFT_TOLERANCE_MS: u64 = 20;

/// One of the two elementary streams.
#[derive(Clone, Copy, Debug, PartialEq, Eq, Structural)]
pub enum Stream {
    Video,
    Audio,
}

/// What is done with a frame.
#[derive(Clone, Copy, Debug, PartialEq, Eq, Structural)]
pub enum FrameAction {
    /// The clock has not started: the frame waits and nothing is shown.
    Hold,
    /// The frame is early: wait this many milliseconds, then show it.
    SleepThenPresent(u64),
    /// The frame is on time: show it now.
    Present,
    /// The frame is too late: it is not shown.
    Drop,
    /// The player was stopped: the consumer ends.
    Exit,
}

/// What is done with a frame that is due at `pts` when `elapsed`
/// milliseconds have passed since the start: an early frame waits for
/// its time, a frame that is more than the tolerance late is dropped,
/// and any other is shown.
pub open spec fn spec_frame_action(pts: u64, elapsed: u64) -> FrameAction {
    if pts > elapsed {
        FrameAction::SleepThenPresent((pts - elapsed) as u64)
    } else if pts + DRIFT_TOLERANCE_MS < elapsed {
        FrameAction::Drop
    } else {
        FrameAction::Present
    }
}

/// Decides what is done with a frame that is due at `pts` when `elapsed`
/// milliseconds have passed since the start.
pub fn frame_action(pts: u64, elapsed: u64) -> (action: FrameAction)
    ensures
        action == spec_frame_action(pts, elapsed),
{
    if pts > elapsed {
        FrameAction::SleepThenPresent(pts - elapsed)
    } else if elapsed - pts > DRIFT_TOLERANCE_MS {
        FrameAction::Drop
    } else {
        FrameAction::Present
    }
}

/// The state of a presentation clock.
pub struct ClockView {
    pub start_instant: Option<u64>,
    pub video_ready: bool,
    pub audio_ready: bool,
    pub stop: bool,
}

/// Whether the start instant is there exactly when both streams have
/// been ready.
pub open spec fn spec_clock_wf(clock: ClockView) -> bool {
    clock.start_instant is Some <==> clock.video_ready && clock.audio_ready
}

/// A clock on which nothing has happened.
pub open spec fn spec_new_clock() -> ClockView {
    ClockView { start_instant: None, video_ready: false, audio_ready: false, stop: false }
}

/// The clock after `stream` has produced a frame at `now`: the stream is
/// ready, and the start instant is `now` if with this both streams are
/// ready for the first time. A start instant that was set stays.
pub open spec fn spec_ready(clock: ClockView, stream: Stream, now: u64) -> ClockView {
    let video_ready = clock.video_ready || stream == Stream::Video;
    let audio_ready = clock.audio_ready || stream == Stream::Audio;
    ClockView {
        start_instant: if clock.start_instant is None && video_ready && audio_ready {
            Some(now)
        } else {
            clock.start_instant
        },
        video_ready,
        audio_ready,
        stop: clock.stop,
    }
}

/// The milliseconds between the start instant `start` and `now`; none
/// where `now` is not after `start`.
pub open spec fn spec_elapsed(start: u64, now: u64) -> u64 {
    if now >= start {
        (now - start) as u64
    } else {
        0
    }
}

/// What is done with a frame that is due at `pts` and arrives at `now`:
/// after a stop the consumer ends; before the start nothing is shown;
/// otherwise the frame is held against the time since the start.
pub open spec fn spec_on_frame(clock: ClockView, pts: u64, now: u64) -> FrameAction {
    if clock.stop {
        FrameAction::Exit
    } else {
        match clock.start_instant {
            None => FrameAction::Hold,
            Some(start) => spec_frame_action(pts, spec_elapsed(start, now)),
        }
    }
}

/// The clock that both streams share. Times are milliseconds on one
/// monotonic clock of the caller's choice.
#[derive(Debug)]
pub struct PresentationClock {
    start_instant: Option<u64>,
    video_ready: bool,
    audio_ready: bool,
    stop: bool,
}

impl View for PresentationClock {
    type V = ClockView;

    closed spec fn view(&self) -> ClockView {
        ClockView {
            start_instant: self.start_instant,
            video_ready: self.video_ready,
            audio_ready: self.audio_ready,
            stop: self.stop,
        }
    }
}

impl Clone for PresentationClock {
    fn clone(&self) -> (copy: Self)
        ensures
            copy@ == self@,
    {
        proof {
            use_type_invariant(self);
        }
        PresentationClock {
            start_instant: self.start_instant,
            video_ready: self.video_ready,
            audio_ready: self.audio_ready,
            stop: self.stop,
        }
    }
}

impl PresentationClock {
    #[verifier::type_invariant]
    spec fn latched_when_both_ready(&self) -> bool {
        self.start_instant is Some <==> self.video_ready && self.audio_ready
    }

    /// A clock on which nothing has happened.
    pub fn new() -> (clock: Self)
        ensures
            clock@ == spec_new_clock(),
    {
        PresentationClock { start_instant: None, video_ready: false, audio_ready: false, stop: false }
    }

    /// Records that `stream` has produced a frame at `now`; the clock
    /// starts at `now` if the other stream was ready before.
    pub fn ready(&mut self, stream: Stream, now: u64)
        ensures
            final(self)@ == spec_ready(old(self)@, stream, now),
            spec_clock_wf(final(self)@),
    {
        proof {
            use_type_invariant(&*self);
        }
        let video_ready: bool = self.video_ready || stream == Stream::Video;
        let audio_ready: bool = self.audio_ready || stream == Stream::Audio;
        let start_instant: Option<u64> = if self.start_instant.is_none() && video_ready
            && audio_ready {
            Some(now)
        } else {
            self.start_instant
        };
        *self = PresentationClock { start_instant, video_ready, audio_ready, stop: self.stop };
    }

    /// Records that the player was stopped.
    pub fn stop(&mut self)
        ensures
            final(self)@ == (ClockView { stop: true, ..old(self)@ }),
    {
        proof {
            use_type_invariant(&*self);
        }
        *self = PresentationClock {
            start_instant: self.start_instant,
            video_ready: self.video_ready,
            audio_ready: self.audio_ready,
            stop: true,
        };
    }

    /// The instant at which the clock started, once both streams have
    /// been ready.
    pub fn start_instant(&self) -> (start: Option<u64>)
        ensures
            start == self@.start_instant,
            spec_clock_wf(self@),
    {
        proof {
            use_type_invariant(self);
        }
        self.start_instant
    }

    /// Whether the player was stopped.
    pub fn stopped(&self) -> (stop: bool)
        ensures
            stop == self@.stop,
    {
        self.stop
    }

    /// Decides what is done with a frame that is due at `pts` and
    /// arrives at `now`. Nothing is shown before the clock has started.
    pub fn on_frame(&self, pts: u64, now: u64) -> (action: FrameAction)
        ensures
            action == spec_on_frame(self@, pts, now),
            self@.start_instant is None ==> action == FrameAction::Hold || action
                == FrameAction::Exit,
    {
        if self.stop {
            return FrameAction::Exit;
        }
        match self.start_instant {
            None => FrameAction::Hold,
            Some(start) => {
                let elapsed: u64 = if now >= start {
                    now - start
                } else {
                    0
                };
                frame_action(pts, elapsed)
            },
        }
    }
}

/// A clock keeps its start instant exactly when both streams have been
/// ready, whatever stream reports next.
pub proof fn lemma_ready_keeps_wf(clock: ClockView, stream: Stream, now: u64)
    requires
        spec_clock_wf(clock),
    ensures
        spec_clock_wf(spec_ready(clock, stream, now)),
{
}

/// A frame is shown, now or after a wait, only on a clock that has
/// started, and a clock has started only when both streams have been
/// ready.
pub proof fn lemma_nothing_shown_before_start(clock: ClockView, pts: u64, now: u64)
    requires
        spec_clock_wf(clock),
        spec_on_frame(clock, pts, now) is Present || spec_on_frame(clock, pts, now)
            is SleepThenPresent,
    ensures
        clock.start_instant is Some,
        clock.video_ready,
        clock.audio_ready,
        !clock.stop,
{
}

/// The clock starts at the instant of the later of the two first
/// reports, and a report after that does not move it.
pub proof fn lemma_start_is_later_report(
    first: Stream,
    first_at: u64,
    second: Stream,
    second_at: u64,
)
    requires
        first != second,
    ensures
        spec_ready(spec_new_clock(), first, first_at).start_instant is None,
        spec_ready(
            spec_ready(spec_new_clock(), first, first_at),
            second,
            second_at,
        ).start_instant == Some(second_at),
        forall|stream: Stream, at: u64|
            spec_ready(
                spec_ready(spec_ready(spec_new_clock(), first, first_at), second, second_at),
                stream,
                at,
            ).start_instant == Some(second_at),
{
}

/// Once stopped, a clock answers every frame with the end of the
/// consumer, whatever is reported to it afterwards.
pub proof fn lemma_stop_ends_consumers(clock: ClockView, stream: Stream, at: u64, pts: u64, now: u64)
    requires
        clock.stop,
    ensures
        spec_on_frame(clock, pts, now) == FrameAction::Exit,
        spec_on_frame(spec_ready(clock, stream, at), pts, now) == FrameAction::Exit,
{
}

} // verus!
