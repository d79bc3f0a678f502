//! Video tracks.

use super::segment::{Segment, SegmentView};
use vstd::prelude::*;

verus! {

/// The views of a list of segments, in order.
pub open spec fn spec_segment_views(segments: Seq<Segment>) -> Seq<SegmentView> {
    Seq::new(segments.len(), |i: int| segments[i]@)
}

/// Copies a list of segments.
pub fn clone_segments(segments: &Vec<Segment>) -> (copy: Vec<Segment>)
    ensures
        spec_segment_views(copy@) == spec_segment_views(segments@),
{
    let mut copy: Vec<Segment> = Vec::new();
    let mut i: usize = 0;
    while i < segments.len()
        invariant
            i <= segments.len(),
            copy@.len() == i,
            forall|j: int| 0 <= j < i ==> copy@[j]@ == segments@[j]@,
        decreases segments.len() - i,
    {
        copy.push(segments[i].clone());
        i = i + 1;
    }
    assert(spec_segment_views(copy@) =~= spec_segment_views(segments@));
    copy
}

/// A group of interchangeable video representations.
#[derive(Debug)]
pub struct VideoAdaptation {
    pub id: u32,
    pub frame_rate: String,
    pub max_width: u32,
    pub max_height: u32,
    pub subsegment_alignment: bool,
    pub representations: Vec<VideoRepresenation>,
}

/// One video encoding with its resolved byte ranges.
#[derive(Debug)]
pub struct VideoRepresenation {
    pub id: u32,
    pub base_url: String,
    pub file_url: String,
    pub segment_init: Segment,
    pub segment_range: Segment,
    pub segments: Vec<Segment>,
    pub bandwidth: u64,
    pub codecs: String,
    pub mime_type: String,
    pub width: u32,
    pub height: u32,
    pub sar: String,
}

/// What a [`VideoRepresenation`] holds, as mathematical values.
pub struct VideoRepresenationView {
    pub id: u32,
    pub base_url: Seq<char>,
    pub file_url: Seq<char>,
    pub segment_init: SegmentView,
    pub segment_range: SegmentView,
    pub segments: Seq<SegmentView>,
    pub bandwidth: u64,
    pub codecs: Seq<char>,
    pub mime_type: Seq<char>,
    pub width: u32,
    pub height: u32,
    pub sar: Seq<char>,
}

impl View for VideoRepresenation {
    type V = VideoRepresenationView;

    open spec fn view(&self) -> VideoRepresenationView {
        VideoRepresenationView {
            id: self.id,
            base_url: self.base_url@,
            file_url: self.file_url@,
            segment_init: self.segment_init@,
            segment_range: self.segment_range@,
            segments: spec_segment_views(self.segments@),
            bandwidth: self.bandwidth,
            codecs: self.codecs@,
            mime_type: self.mime_type@,
            width: self.width,
            height: self.height,
            sar: self.sar@,
        }
    }
}

impl Clone for VideoRepresenation {
    fn clone(&self) -> (copy: Self)
        ensures
            copy@ == self@,
    {
        VideoRepresenation {
            id: self.id,
            base_url: self.base_url.clone(),
            file_url: self.file_url.clone(),
            segment_init: self.segment_init.clone(),
            segment_range: self.segment_range.clone(),
            segments: clone_segments(&self.segments),
            bandwidth: self.bandwidth,
            codecs: self.codecs.clone(),
            mime_type: self.mime_type.clone(),
            width: self.width,
            height: self.height,
            sar: self.sar.clone(),
        }
    }
}

/// What a [`VideoAdaptation`] holds, as mathematical values.
pub struct VideoAdaptationView {
    pub id: u32,
    pub frame_rate: Seq<char>,
    pub max_width: u32,
    pub max_height: u32,
    pub subsegment_alignment: bool,
    pub representations: Seq<VideoRepresenationView>,
}

/// The views of a list of video representations, in order.
pub open spec fn spec_video_representation_views(
    representations: Seq<VideoRepresenation>,
) -> Seq<VideoRepresenationView> {
    Seq::new(representations.len(), |i: int| representations[i]@)
}

impl View for VideoAdaptation {
    type V = VideoAdaptationView;

    open spec fn view(&self) -> VideoAdaptationView {
        VideoAdaptationView {
            id: self.id,
            frame_rate: self.frame_rate@,
            max_width: self.max_width,
            max_height: self.max_height,
            subsegment_alignment: self.subsegment_alignment,
            representations: spec_video_representation_views(self.representations@),
        }
    }
}

impl Clone for VideoAdaptation {
    fn clone(&self) -> (copy: Self)
        ensures
            copy@ == self@,
    {
        let mut representations: Vec<VideoRepresenation> = Vec::new();
        let mut i: usize = 0;
        while i < self.representations.len()
            invariant
                i <= self.representations.len(),
                representations@.len() == i,
                forall|j: int| 0 <= j < i ==> representations@[j]@ == self.representations@[j]@,
            decreases self.representations.len() - i,
        {
            representations.push(self.representations[i].clone());
            i = i + 1;
        }
        assert(spec_video_representation_views(representations@)
            =~= spec_video_representation_views(self.representations@));
        VideoAdaptation {
            id: self.id,
            frame_rate: self.frame_rate.clone(),
            max_width: self.max_width,
            max_height: self.max_height,
            subsegment_alignment: self.subsegment_alignment,
            representations,
        }
    }
}

} // verus!
