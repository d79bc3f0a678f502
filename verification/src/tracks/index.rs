//! From a segment index to the byte ranges of the media segments.

use super::segment::{Segment, SegmentView};
use super::video::spec_segment_views;
use super::Tracks;
use crate::error::PlayerError;
use crate::parsers::mp4::{parse_sidx, spec_parse_sidx, SidxBox, SidxEntry};
use vstd::prelude::*;

verus! {

/// The first byte of segment `i`, where the first segment starts at
/// `first` and each segment follows the one before it.
pub open spec fn spec_segment_start(first: int, entries: Seq<SidxEntry>, i: int) -> int
    decreases i,
{
    if i <= 0 {
        first
    } else {
        spec_segment_start(first, entries, i - 1) + entries[i - 1].reference_size
    }
}

/// Whether every entry stands for at least one byte and every segment
/// ends within 64 bits.
pub open spec fn spec_segments_fit(first: int, entries: Seq<SidxEntry>) -> bool {
    forall|i: int|
        0 <= i < entries.len() ==> (#[trigger] entries[i]).reference_size >= 1
            && spec_segment_start(first, entries, i) + entries[i].reference_size - 1 <= u64::MAX
}

/// The media segments that the entries of an index stand for: segment `i`
/// starts where segment `i - 1` ended and is as long as entry `i` says.
pub open spec fn spec_segments(
    base_url: Seq<char>,
    file_url: Seq<char>,
    first: int,
    entries: Seq<SidxEntry>,
) -> Seq<SegmentView> {
    Seq::new(
        entries.len(),
        |i: int|
            SegmentView {
                base_url,
                file_url,
                start: spec_segment_start(first, entries, i) as u64,
                end: (spec_segment_start(first, entries, i) + entries[i].reference_size - 1) as u64,
            },
    )
}

/// The media segments of a file whose index range ends at `index_end` and
/// holds `index`: the index is read as a `sidx` box, and the first
/// segment starts `first_offset` bytes after the byte that follows the
/// index range.
pub open spec fn spec_resolved_segments(
    base_url: Seq<char>,
    file_url: Seq<char>,
    index_end: u64,
    index: Seq<u8>,
) -> Result<Seq<SegmentView>, PlayerError> {
    match spec_parse_sidx(index) {
        Err(e) => Err(e),
        Ok(sidx) => if index_end < u64::MAX && spec_segments_fit(
            index_end + 1 + sidx.first_offset,
            sidx.entries,
        ) {
            Ok(spec_segments(base_url, file_url, index_end + 1 + sidx.first_offset, sidx.entries))
        } else {
            Err(PlayerError::RangeSyntaxError)
        },
    }
}

impl Tracks {
    /// Lists the media segments that an index stands for. The first
    /// segment starts `first_offset` bytes after `offset`; each segment
    /// follows the one before it. An entry of no bytes, or a segment that
    /// ends beyond 64 bits, is refused.
    pub fn generate_segments_from_sidx(
        base_url: &String,
        file_url: &String,
        sidx: SidxBox,
        offset: u64,
    ) -> (result: Result<Vec<Segment>, PlayerError>)
        ensures
            result is Ok <==> spec_segments_fit(offset + sidx.first_offset, sidx.entries@),
            result matches Ok(segments) ==> spec_segment_views(segments@) == spec_segments(
                base_url@,
                file_url@,
                offset + sidx.first_offset,
                sidx.entries@,
            ),
            result matches Err(e) ==> e == PlayerError::RangeSyntaxError,
    {
        let ghost first: int = offset + sidx.first_offset;
        let ghost entries = sidx.entries@;
        let mut segments: Vec<Segment> = Vec::new();
        let mut start_byte: u128 = offset as u128 + sidx.first_offset as u128;
        let mut i: usize = 0;
        while i < sidx.entries.len()
            invariant
                i <= sidx.entries.len(),
                entries == sidx.entries@,
                first == offset + sidx.first_offset,
                start_byte == spec_segment_start(first, entries, i as int),
                0 <= start_byte <= u64::MAX + 0x1_0000_0000,
                segments@.len() == i,
                forall|j: int|
                    0 <= j < i ==> (#[trigger] entries[j]).reference_size >= 1
                        && spec_segment_start(first, entries, j) + entries[j].reference_size - 1
                        <= u64::MAX,
                forall|j: int|
                    0 <= j < i ==> (#[trigger] segments@[j])@ == spec_segments(
                        base_url@,
                        file_url@,
                        first,
                        entries,
                    )[j],
            decreases sidx.entries.len() - i,
        {
            let size: u64 = sidx.entries[i].reference_size;
            if size == 0 || start_byte + (size as u128 - 1) > u64::MAX as u128 {
                proof {
                    assert(!(entries[i as int].reference_size >= 1 && spec_segment_start(
                        first,
                        entries,
                        i as int,
                    ) + entries[i as int].reference_size - 1 <= u64::MAX));
                }
                return Err(PlayerError::RangeSyntaxError);
            }
            let start: u64 = start_byte as u64;
            let end: u64 = (start_byte + (size as u128 - 1)) as u64;
            let segment = match Segment::new(base_url, file_url, start, end) {
                Ok(segment) => segment,
                Err(e) => {
                    return Err(e);
                },
            };
            segments.push(segment);
            start_byte = start_byte + size as u128;
            i = i + 1;
        }
        proof {
            assert(spec_segment_views(segments@) =~= spec_segments(
                base_url@,
                file_url@,
                first,
                entries,
            ));
        }
        Ok(segments)
    }

    /// Reads `index` as a segment index and lists the media segments of
    /// the file whose index range ends at `index_end`.
    pub fn resolve_segments(
        base_url: &String,
        file_url: &String,
        index_end: u64,
        index: &[u8],
    ) -> (result: Result<Vec<Segment>, PlayerError>)
        ensures
            match result {
                Ok(segments) => spec_resolved_segments(base_url@, file_url@, index_end, index@)
                    == Ok::<Seq<SegmentView>, PlayerError>(spec_segment_views(segments@)),
                Err(e) => spec_resolved_segments(base_url@, file_url@, index_end, index@) == Err::<
                    Seq<SegmentView>,
                    PlayerError,
                >(e),
            },
    {
        let mut cursor: &[u8] = index;
        let sidx = match parse_sidx(&mut cursor) {
            Ok(sidx) => sidx,
            Err(e) => {
                return Err(e);
            },
        };
        if index_end == u64::MAX {
            return Err(PlayerError::RangeSyntaxError);
        }
        Self::generate_segments_from_sidx(base_url, file_url, sidx, index_end + 1)
    }
}

/// The segments that an index with at least one entry stands for are not
/// empty, each runs from its first byte to a last byte that is not before
/// it, the first starts at `first`, each starts right after the one
/// before, and so they ascend strictly.
pub proof fn lemma_segments_contiguous(
    base_url: Seq<char>,
    file_url: Seq<char>,
    first: int,
    entries: Seq<SidxEntry>,
)
    requires
        0 <= first,
        entries.len() >= 1,
        spec_segments_fit(first, entries),
    ensures
        ({
            let segments = spec_segments(base_url, file_url, first, entries);
            &&& segments.len() == entries.len()
            &&& segments.len() >= 1
            &&& segments[0].start == first
            &&& forall|i: int| 0 <= i < segments.len() ==> segments[i].start <= segments[i].end
            &&& forall|i: int|
                0 <= i < segments.len() - 1 ==> segments[i].end + 1 == segments[i + 1].start
            &&& forall|i: int, j: int|
                0 <= i < j < segments.len() ==> segments[i].end < segments[j].start
        }),
{
    let segments = spec_segments(base_url, file_url, first, entries);
    assert forall|i: int| 0 <= i < segments.len() implies 0 <= spec_segment_start(
        first,
        entries,
        i,
    ) && segments[i].start == spec_segment_start(first, entries, i) && segments[i].end
        == spec_segment_start(first, entries, i) + entries[i].reference_size - 1 by {
        lemma_segment_start_bounds(first, entries, i);
    }
    assert forall|i: int, j: int| 0 <= i < j < segments.len() implies segments[i].end
        < segments[j].start by {
        lemma_segment_start_ascends(first, entries, i, j);
    }
}

/// The media segments resolved from an index that lists at least one
/// entry are not empty, the first starts `first_offset` bytes after the
/// byte that follows the index range, each runs from its first byte to a
/// last byte that is not before it, and each starts right after the one
/// before, so that they ascend strictly.
pub proof fn lemma_resolved_segments_contiguous(
    base_url: Seq<char>,
    file_url: Seq<char>,
    index_end: u64,
    index: Seq<u8>,
)
    requires
        spec_resolved_segments(base_url, file_url, index_end, index) is Ok,
        spec_parse_sidx(index)->Ok_0.entries.len() >= 1,
    ensures
        ({
            let segments = spec_resolved_segments(base_url, file_url, index_end, index)->Ok_0;
            &&& segments.len() >= 1
            &&& segments[0].start == index_end + 1 + spec_parse_sidx(index)->Ok_0.first_offset
            &&& forall|i: int| 0 <= i < segments.len() ==> segments[i].start <= segments[i].end
            &&& forall|i: int|
                0 <= i < segments.len() - 1 ==> segments[i].end + 1 == segments[i + 1].start
            &&& forall|i: int, j: int|
                0 <= i < j < segments.len() ==> segments[i].end < segments[j].start
        }),
{
    let sidx = spec_parse_sidx(index)->Ok_0;
    lemma_segments_contiguous(
        base_url,
        file_url,
        index_end + 1 + sidx.first_offset,
        sidx.entries,
    );
}

proof fn lemma_segment_start_bounds(first: int, entries: Seq<SidxEntry>, i: int)
    requires
        0 <= first,
        0 <= i < entries.len(),
        spec_segments_fit(first, entries),
    ensures
        0 <= spec_segment_start(first, entries, i) <= u64::MAX,
        entries[i].reference_size >= 1,
        spec_segment_start(first, entries, i) + entries[i].reference_size - 1 <= u64::MAX,
    decreases i,
{
    assert(entries[i].reference_size >= 1);
    if i > 0 {
        lemma_segment_start_bounds(first, entries, i - 1);
    }
}

proof fn lemma_segment_start_ascends(first: int, entries: Seq<SidxEntry>, i: int, j: int)
    requires
        0 <= first,
        0 <= i < j < entries.len(),
        spec_segments_fit(first, entries),
    ensures
        spec_segment_start(first, entries, i) + entries[i].reference_size <= spec_segment_start(
            first,
            entries,
            j,
        ),
    decreases j - i,
{
    if j > i + 1 {
        lemma_segment_start_ascends(first, entries, i, j - 1);
        assert(entries[j - 1].reference_size >= 1);
    }
}

} // verus!
