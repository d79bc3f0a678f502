//! The order in which the segments of one stream are fetched, and the
//! shape in which a fetched segment is handed on.

use vstd::prelude::*;

verus! {

/// How many fetched segments may wait for the decoder of a stream.
pub const MAX_SEGMENTS: usize = 2;

/// How many decoded video frames may wait to be shown.
pub const VIDEO_FRAME_CAPACITY: usize = 4;

/// How many decoded audio frames may wait to be played.
pub const AUDIO_FRAME_CAPACITY: usize = 32;

/// How many samples may wait for the audio device.
pub const PCM_SAMPLE_CAPACITY: usize = 8192;

/// A fetched segment: its place in the list of segments, its length in
/// bytes and its bytes.
#[derive(Debug, Clone)]
pub struct DataSegment {
    pub id: usize,
    pub size: usize,
    pub data: Vec<u8>,
}

impl DataSegment {
    /// Wraps the bytes that were fetched for segment `id`.
    pub fn new(id: usize, data: Vec<u8>) -> (segment: Self)
        ensures
            segment.id == id,
            segment.size == data@.len(),
            segment.data == data,
    {
        DataSegment { id, size: data.len(), data }
    }
}

/// What the fetcher does next.
#[derive(Clone, Copy, Debug, PartialEq, Eq, Structural)]
pub enum FetchStep {
    /// Fetch the segment with this index and hand it on.
    Fetch(usize),
    /// Drop the channel and end.
    Finish,
}

/// How far the fetcher of one stream has come.
#[derive(Clone, Copy, Debug, PartialEq, Eq, Structural)]
pub struct Fetcher {
    pub next: usize,
    pub total: usize,
    pub ended: bool,
}

/// What a fetcher does next: it fetches its next segment, unless it has
/// ended or no segment is left.
pub open spec fn spec_fetch_step(fetcher: Fetcher) -> FetchStep {
    if fetcher.ended || fetcher.next >= fetcher.total {
        FetchStep::Finish
    } else {
        FetchStep::Fetch(fetcher.next)
    }
}

/// The fetcher after `n` further segments have been handed on.
pub open spec fn spec_fetched(fetcher: Fetcher, n: nat) -> Fetcher
    decreases n,
{
    if n == 0 {
        fetcher
    } else {
        let before = spec_fetched(fetcher, (n - 1) as nat);
        if spec_fetch_step(before) is Fetch {
            Fetcher { next: (before.next + 1) as usize, ..before }
        } else {
            before
        }
    }
}

impl Fetcher {
    /// A fetcher that has `total` segments before it.
    pub fn new(total: usize) -> (fetcher: Self)
        ensures
            fetcher == (Fetcher { next: 0, total, ended: false }),
    {
        Fetcher { next: 0, total, ended: false }
    }

    /// What to do next.
    pub fn step(&self) -> (step: FetchStep)
        ensures
            step == spec_fetch_step(*self),
    {
        if self.ended || self.next >= self.total {
            FetchStep::Finish
        } else {
            FetchStep::Fetch(self.next)
        }
    }

    /// Records that the segment of the last step was handed on.
    pub fn queued(&mut self)
        ensures
            *final(self) == spec_fetched(*old(self), 1),
    {
        reveal_with_fuel(spec_fetched, 2);
        if !self.ended && self.next < self.total {
            self.next = self.next + 1;
        }
    }

    /// Records that the stream was cancelled or that a fetch failed: no
    /// further segment is fetched.
    pub fn end(&mut self)
        ensures
            *final(self) == (Fetcher { ended: true, ..*old(self) }),
    {
        self.ended = true;
    }
}

/// A fetcher that is left alone fetches its segments in their order, one
/// at a time: after `n` segments it asks for segment `n`, and after all
/// of them it ends.
pub proof fn lemma_fetch_order(total: usize, n: nat)
    ensures
        spec_fetched(Fetcher { next: 0, total, ended: false }, n) == (Fetcher {
            next: if n < total {
                n as usize
            } else {
                total
            },
            total,
            ended: false,
        }),
        n < total ==> spec_fetch_step(spec_fetched(Fetcher { next: 0, total, ended: false }, n))
            == FetchStep::Fetch(n as usize),
        n >= total ==> spec_fetch_step(spec_fetched(Fetcher { next: 0, total, ended: false }, n))
            == FetchStep::Finish,
    decreases n,
{
    if n > 0 {
        lemma_fetch_order(total, (n - 1) as nat);
    }
}

/// Once ended, a fetcher takes no further step, however many segments
/// are left and whatever is recorded afterwards.
pub proof fn lemma_end_is_final(fetcher: Fetcher, n: nat)
    requires
        fetcher.ended,
    ensures
        spec_fetched(fetcher, n) == fetcher,
        spec_fetch_step(spec_fetched(fetcher, n)) == FetchStep::Finish,
    decreases n,
{
    if n > 0 {
        lemma_end_is_final(fetcher, (n - 1) as nat);
    }
}

} // verus!
