//! Audio tracks.

use super::segment::{Segment, SegmentView};
use super::video::{clone_segments, spec_segment_views};
use vstd::prelude::*;

verus! {

/// A group of interchangeable audio representations.
#[derive(Debug)]
pub struct AudioAdaptation {
    pub id: u32,
    pub lang: String,
    pub subsegment_alignment: bool,
    pub representations: Vec<AudioRepresentation>,
}

/// One audio encoding with its resolved byte ranges.
#[derive(Debug)]
pub struct AudioRepresentation {
    pub id: u32,
    pub base_url: String,
    pub file_url: String,
    pub segment_init: Segment,
    pub segment_range: Segment,
    pub segments: Vec<Segment>,
    pub bandwidth: u64,
    pub codecs: String,
    pub mime_type: String,
    pub audio_sampling_rate: u32,
}

/// What an [`AudioRepresentation`] holds, as mathematical values.
pub struct AudioRepresentationView {
    pub id: u32,
    pub base_url: Seq<char>,
    pub file_url: Seq<char>,
    pub segment_init: SegmentView,
    pub segment_range: SegmentView,
    pub segments: Seq<SegmentView>,
    pub bandwidth: u64,
    pub codecs: Seq<char>,
    pub mime_type: Seq<char>,
    pub audio_sampling_rate: u32,
}

impl View for AudioRepresentation {
    type V = AudioRepresentationView;

    open spec fn view(&self) -> AudioRepresentationView {
        AudioRepresentationView {
            id: self.id,
            base_url: self.base_url@,
            file_url: self.file_url@,
            segment_init: self.segment_init@,
            segment_range: self.segment_range@,
            segments: spec_segment_views(self.segments@),
            bandwidth: self.bandwidth,
            codecs: self.codecs@,
            mime_type: self.mime_type@,
            audio_sampling_rate: self.audio_sampling_rate,
        }
    }
}

impl Clone for AudioRepresentation {
    fn clone(&self) -> (copy: Self)
        ensures
            copy@ == self@,
    {
        AudioRepresentation {
            id: self.id,
            base_url: self.base_url.clone(),
            file_url: self.file_url.clone(),
            segment_init: self.segment_init.clone(),
            segment_range: self.segment_range.clone(),
            segments: clone_segments(&self.segments),
            bandwidth: self.bandwidth,
            codecs: self.codecs.clone(),
            mime_type: self.mime_type.clone(),
            audio_sampling_rate: self.audio_sampling_rate,
        }
    }
}

/// What an [`AudioAdaptation`] holds, as mathematical values.
pub struct AudioAdaptationView {
    pub id: u32,
    pub lang: Seq<char>,
    pub subsegment_alignment: bool,
    pub representations: Seq<AudioRepresentationView>,
}

/// The views of a list of audio representations, in order.
pub open spec fn spec_audio_representation_views(
    representations: Seq<AudioRepresentation>,
) -> Seq<AudioRepresentationView> {
    Seq::new(representations.len(), |i: int| representations[i]@)
}

impl View for AudioAdaptation {
    type V = AudioAdaptationView;

    open spec fn view(&self) -> AudioAdaptationView {
        AudioAdaptationView {
            id: self.id,
            lang: self.lang@,
            subsegment_alignment: self.subsegment_alignment,
            representations: spec_audio_representation_views(self.representations@),
        }
    }
}

impl Clone for AudioAdaptation {
    fn clone(&self) -> (copy: Self)
        ensures
            copy@ == self@,
    {
        let mut representations: Vec<AudioRepresentation> = Vec::new();
        let mut i: usize = 0;
        while i < self.representations.len()
            invariant
                i <= self.representations.len(),
                representations@.len() == i,
                forall|j: int| 0 <= j < i ==> representations@[j]@ == self.representations@[j]@,
            decreases self.representations.len() - i,
        {
            representations.push(self.representations[i].clone());
            i = i + 1;
        }
        assert(spec_audio_representation_views(representations@)
            =~= spec_audio_representation_views(self.representations@));
        AudioAdaptation {
            id: self.id,
            lang: self.lang.clone(),
            subsegment_alignment: self.subsegment_alignment,
            representations,
        }
    }
}

} // verus!
