//! The validated track model and the resolution of segment indexes into
//! byte ranges.

pub mod audio;
pub mod index;
pub mod range;
pub mod segment;
pub mod text;
pub mod video;

use crate::error::PlayerError;
use crate::manifest::{AdaptationSet, Representation, SegmentBase, MPD};
use crate::parsers::mp4::spec_parse_sidx;
use audio::{
    spec_audio_representation_views, AudioAdaptation, AudioAdaptationView, AudioRepresentation,
    AudioRepresentationView,
};
use index::{lemma_resolved_segments_contiguous, spec_resolved_segments};
use range::spec_parse_range;
use segment::{Segment, SegmentView};
use text::{TextAdaptation, TextRepresenation};
use video::{
    spec_segment_views, spec_video_representation_views, VideoAdaptation, VideoAdaptationView,
    VideoRepresenation, VideoRepresenationView,
};
use vstd::prelude::*;

verus! {

/// The prepared tracks of a presentation.
pub struct Tracks {
    pub duration: std::time::Duration,
    pub video: Vec<video::VideoAdaptation>,
    pub audio: Vec<audio::AudioAdaptation>,
    pub text: Vec<text::TextAdaptation>,
}

impl Clone for Tracks {
    fn clone(&self) -> (copy: Self)
        ensures
            copy@ == self@,
            copy.duration == self.duration,
    {
        let mut video: Vec<VideoAdaptation> = Vec::new();
        let mut i: usize = 0;
        while i < self.video.len()
            invariant
                i <= self.video.len(),
                video@.len() == i,
                forall|j: int| 0 <= j < i ==> video@[j]@ == self.video@[j]@,
            decreases self.video.len() - i,
        {
            video.push(self.video[i].clone());
            i = i + 1;
        }
        let mut audio: Vec<AudioAdaptation> = Vec::new();
        let mut k: usize = 0;
        while k < self.audio.len()
            invariant
                k <= self.audio.len(),
                audio@.len() == k,
                forall|j: int| 0 <= j < k ==> audio@[j]@ == self.audio@[j]@,
            decreases self.audio.len() - k,
        {
            audio.push(self.audio[k].clone());
            k = k + 1;
        }
        let mut text: Vec<TextAdaptation> = Vec::new();
        let mut m: usize = 0;
        while m < self.text.len()
            invariant
                m <= self.text.len(),
                text@.len() == m,
                forall|j: int|
                    0 <= j < m ==> text@[j].representations@.len()
                        == self.text@[j].representations@.len(),
            decreases self.text.len() - m,
        {
            text.push(self.text[m].clone());
            m = m + 1;
        }
        proof {
            assert(spec_video_adaptation_views(video@) =~= spec_video_adaptation_views(
                self.video@,
            ));
            assert(spec_audio_adaptation_views(audio@) =~= spec_audio_adaptation_views(
                self.audio@,
            ));
            assert(spec_text_adaptation_views(text@) =~= spec_text_adaptation_views(self.text@));
        }
        Tracks { duration: self.duration, video, audio, text }
    }
}

/// The segment that the range `text` of the file `file_url` below
/// `base_url` stands for.
pub open spec fn spec_range_segment(
    base_url: Seq<char>,
    file_url: Seq<char>,
    text: Seq<char>,
) -> Result<SegmentView, PlayerError> {
    match spec_parse_range(vstd::utf8::encode_utf8(text)) {
        Some((start, end)) => if start <= end {
            Ok(SegmentView { base_url, file_url, start, end })
        } else {
            Err(PlayerError::RangeSyntaxError)
        },
        None => Err(PlayerError::RangeSyntaxError),
    }
}

/// The initialization segment and the index segment that a segment base
/// names, in that order; the initialization range is read first.
pub open spec fn spec_base_segments(
    base_url: Seq<char>,
    file_url: Seq<char>,
    segment_base: SegmentBase,
) -> Result<(SegmentView, SegmentView), PlayerError> {
    match spec_range_segment(base_url, file_url, segment_base.initialization.range@) {
        Err(e) => Err(e),
        Ok(init) => match spec_range_segment(base_url, file_url, segment_base.index_range@) {
            Err(e) => Err(e),
            Ok(index) => Ok((init, index)),
        },
    }
}

/// A video representation before its index has been read: every
/// attribute that video needs is there (codecs, width, height, sample
/// aspect ratio, segment base), both ranges read as ranges, and the MIME
/// type is `video/mp4`. It has no media segments yet.
pub open spec fn spec_prepared_video(base_url: Seq<char>, representation: Representation) -> Result<
    VideoRepresenationView,
    PlayerError,
> {
    if representation.codecs is None || representation.width is None || representation.height
        is None || representation.sar is None || representation.segment_base is None {
        Err(PlayerError::SchemaError)
    } else {
        match spec_base_segments(
            base_url,
            representation.base_url.value@,
            representation.segment_base->Some_0,
        ) {
            Err(e) => Err(e),
            Ok((init, index)) => if representation.mime_type@ != "video/mp4"@ {
                Err(PlayerError::CodecUnsupported)
            } else {
                Ok(
                    VideoRepresenationView {
                        id: representation.id,
                        base_url,
                        file_url: representation.base_url.value@,
                        segment_init: init,
                        segment_range: index,
                        segments: Seq::empty(),
                        bandwidth: representation.bandwidth,
                        codecs: representation.codecs->Some_0@,
                        mime_type: representation.mime_type@,
                        width: representation.width->Some_0,
                        height: representation.height->Some_0,
                        sar: representation.sar->Some_0@,
                    },
                )
            },
        }
    }
}

/// A video representation whose index range holds `index`.
#[verifier::opaque]
pub open spec fn spec_video_representation(
    base_url: Seq<char>,
    representation: Representation,
    index: Seq<u8>,
) -> Result<VideoRepresenationView, PlayerError> {
    match spec_prepared_video(base_url, representation) {
        Err(e) => Err(e),
        Ok(prepared) => match spec_resolved_segments(
            prepared.base_url,
            prepared.file_url,
            prepared.segment_range.end,
            index,
        ) {
            Err(e) => Err(e),
            Ok(segments) => Ok(VideoRepresenationView { segments, ..prepared }),
        },
    }
}

/// An audio representation before its index has been read: every
/// attribute that audio needs is there (codecs, sampling rate, segment
/// base), both ranges read as ranges, and the MIME type is `audio/mp4`.
/// It has no media segments yet.
pub open spec fn spec_prepared_audio(base_url: Seq<char>, representation: Representation) -> Result<
    AudioRepresentationView,
    PlayerError,
> {
    if representation.codecs is None || representation.audio_sampling_rate is None
        || representation.segment_base is None {
        Err(PlayerError::SchemaError)
    } else {
        match spec_base_segments(
            base_url,
            representation.base_url.value@,
            representation.segment_base->Some_0,
        ) {
            Err(e) => Err(e),
            Ok((init, index)) => if representation.mime_type@ != "audio/mp4"@ {
                Err(PlayerError::CodecUnsupported)
            } else {
                Ok(
                    AudioRepresentationView {
                        id: representation.id,
                        base_url,
                        file_url: representation.base_url.value@,
                        segment_init: init,
                        segment_range: index,
                        segments: Seq::empty(),
                        bandwidth: representation.bandwidth,
                        codecs: representation.codecs->Some_0@,
                        mime_type: representation.mime_type@,
                        audio_sampling_rate: representation.audio_sampling_rate->Some_0,
                    },
                )
            },
        }
    }
}

/// An audio representation whose index range holds `index`.
#[verifier::opaque]
pub open spec fn spec_audio_representation(
    base_url: Seq<char>,
    representation: Representation,
    index: Seq<u8>,
) -> Result<AudioRepresentationView, PlayerError> {
    match spec_prepared_audio(base_url, representation) {
        Err(e) => Err(e),
        Ok(prepared) => match spec_resolved_segments(
            prepared.base_url,
            prepared.file_url,
            prepared.segment_range.end,
            index,
        ) {
            Err(e) => Err(e),
            Ok(segments) => Ok(AudioRepresentationView { segments, ..prepared }),
        },
    }
}

/// The index bytes of representation `j` in `index`; none where `index`
/// has no such place.
pub open spec fn spec_index_of(index: Seq<Vec<u8>>, j: int) -> Seq<u8> {
    if 0 <= j < index.len() {
        index[j]@
    } else {
        Seq::empty()
    }
}

/// The index bytes of the representations of adaptation set `i` in
/// `index`; none where `index` has no such place.
pub open spec fn spec_indexes_of(index: Seq<Vec<Vec<u8>>>, i: int) -> Seq<Vec<u8>> {
    if 0 <= i < index.len() {
        index[i]@
    } else {
        Seq::empty()
    }
}

/// The first `n` representations as video, in order; the error of the
/// first that fails.
pub open spec fn spec_video_representations(
    base_url: Seq<char>,
    representations: Seq<Representation>,
    index: Seq<Vec<u8>>,
    n: int,
) -> Result<Seq<VideoRepresenationView>, PlayerError>
    decreases n,
{
    if n <= 0 {
        Ok(Seq::empty())
    } else {
        match spec_video_representations(base_url, representations, index, n - 1) {
            Err(e) => Err(e),
            Ok(front) => match spec_video_representation(
                base_url,
                representations[n - 1],
                spec_index_of(index, n - 1),
            ) {
                Err(e) => Err(e),
                Ok(last) => Ok(front.push(last)),
            },
        }
    }
}

/// The first `n` representations as audio, in order; the error of the
/// first that fails.
pub open spec fn spec_audio_representations(
    base_url: Seq<char>,
    representations: Seq<Representation>,
    index: Seq<Vec<u8>>,
    n: int,
) -> Result<Seq<AudioRepresentationView>, PlayerError>
    decreases n,
{
    if n <= 0 {
        Ok(Seq::empty())
    } else {
        match spec_audio_representations(base_url, representations, index, n - 1) {
            Err(e) => Err(e),
            Ok(front) => match spec_audio_representation(
                base_url,
                representations[n - 1],
                spec_index_of(index, n - 1),
            ) {
                Err(e) => Err(e),
                Ok(last) => Ok(front.push(last)),
            },
        }
    }
}

/// A video adaptation set: it needs a frame rate and a largest width and
/// height; sub-segment alignment is off unless stated.
#[verifier::opaque]
pub open spec fn spec_video_adaptation(
    base_url: Seq<char>,
    adaptation: AdaptationSet,
    index: Seq<Vec<u8>>,
) -> Result<VideoAdaptationView, PlayerError> {
    if adaptation.frame_rate is None || adaptation.max_width is None || adaptation.max_height
        is None {
        Err(PlayerError::SchemaError)
    } else {
        match spec_video_representations(
            base_url,
            adaptation.representations@,
            index,
            adaptation.representations@.len() as int,
        ) {
            Err(e) => Err(e),
            Ok(representations) => Ok(
                VideoAdaptationView {
                    id: adaptation.id,
                    frame_rate: adaptation.frame_rate->Some_0@,
                    max_width: adaptation.max_width->Some_0,
                    max_height: adaptation.max_height->Some_0,
                    subsegment_alignment: adaptation.subsegment_alignment == Some(true),
                    representations,
                },
            ),
        }
    }
}

/// An audio adaptation set: it needs a language; sub-segment alignment
/// is off unless stated.
#[verifier::opaque]
pub open spec fn spec_audio_adaptation(
    base_url: Seq<char>,
    adaptation: AdaptationSet,
    index: Seq<Vec<u8>>,
) -> Result<AudioAdaptationView, PlayerError> {
    if adaptation.lang is None {
        Err(PlayerError::SchemaError)
    } else {
        match spec_audio_representations(
            base_url,
            adaptation.representations@,
            index,
            adaptation.representations@.len() as int,
        ) {
            Err(e) => Err(e),
            Ok(representations) => Ok(
                AudioAdaptationView {
                    id: adaptation.id,
                    lang: adaptation.lang->Some_0@,
                    subsegment_alignment: adaptation.subsegment_alignment == Some(true),
                    representations,
                },
            ),
        }
    }
}

/// The adaptation sets of a presentation by kind, each kind in document
/// order; of a text set only the number of its representations.
pub struct TracksView {
    pub video: Seq<VideoAdaptationView>,
    pub audio: Seq<AudioAdaptationView>,
    pub text: Seq<nat>,
}

/// The views of a list of video adaptation sets, in order.
pub open spec fn spec_video_adaptation_views(adaptations: Seq<VideoAdaptation>) -> Seq<
    VideoAdaptationView,
> {
    Seq::new(adaptations.len(), |i: int| adaptations[i]@)
}

/// The views of a list of audio adaptation sets, in order.
pub open spec fn spec_audio_adaptation_views(adaptations: Seq<AudioAdaptation>) -> Seq<
    AudioAdaptationView,
> {
    Seq::new(adaptations.len(), |i: int| adaptations[i]@)
}

/// The number of representations of each text adaptation set, in order.
pub open spec fn spec_text_adaptation_views(adaptations: Seq<TextAdaptation>) -> Seq<nat> {
    Seq::new(adaptations.len(), |i: int| adaptations[i].representations@.len())
}

impl View for Tracks {
    type V = TracksView;

    open spec fn view(&self) -> TracksView {
        TracksView {
            video: spec_video_adaptation_views(self.video@),
            audio: spec_audio_adaptation_views(self.audio@),
            text: spec_text_adaptation_views(self.text@),
        }
    }
}

/// The tracks of the first `n` adaptation sets, taken in order: a set
/// goes by its content type to video, audio or text, and a set of any
/// other type is passed over. The first set that fails gives the error.
pub open spec fn spec_tracks_of_sets(
    base_url: Seq<char>,
    sets: Seq<AdaptationSet>,
    index: Seq<Vec<Vec<u8>>>,
    n: int,
) -> Result<TracksView, PlayerError>
    decreases n,
{
    if n <= 0 {
        Ok(TracksView { video: Seq::empty(), audio: Seq::empty(), text: Seq::empty() })
    } else {
        match spec_tracks_of_sets(base_url, sets, index, n - 1) {
            Err(e) => Err(e),
            Ok(front) => {
                let set = sets[n - 1];
                if set.content_type@ == "video"@ {
                    match spec_video_adaptation(base_url, set, spec_indexes_of(index, n - 1)) {
                        Err(e) => Err(e),
                        Ok(video) => Ok(TracksView { video: front.video.push(video), ..front }),
                    }
                } else if set.content_type@ == "audio"@ {
                    match spec_audio_adaptation(base_url, set, spec_indexes_of(index, n - 1)) {
                        Err(e) => Err(e),
                        Ok(audio) => Ok(TracksView { audio: front.audio.push(audio), ..front }),
                    }
                } else if set.content_type@ == "text"@ {
                    Ok(TracksView { text: front.text.push(set.representations@.len()), ..front })
                } else {
                    Ok(front)
                }
            },
        }
    }
}

/// The tracks of a presentation: those of the adaptation sets of its
/// first period. A presentation without a period has none to give.
pub open spec fn spec_tracks(base_url: Seq<char>, mpd: MPD, index: Seq<Vec<Vec<u8>>>) -> Result<
    TracksView,
    PlayerError,
> {
    if mpd.periods@.len() == 0 {
        Err(PlayerError::SchemaError)
    } else {
        spec_tracks_of_sets(
            base_url,
            mpd.periods@[0].adaptation_sets@,
            index,
            mpd.periods@[0].adaptation_sets@.len() as int,
        )
    }
}

fn text_is(text: &String, literal: &str) -> (same: bool)
    ensures
        same == (text@ == literal@),
{
    let other: String = literal.to_owned();
    *text == other
}

/// The adaptation sets of a presentation by kind, before the duration is
/// joined to them.
pub struct TracksResult {
    pub video: Vec<VideoAdaptation>,
    pub audio: Vec<AudioAdaptation>,
    pub text: Vec<TextAdaptation>,
}

impl View for TracksResult {
    type V = TracksView;

    open spec fn view(&self) -> TracksView {
        TracksView {
            video: spec_video_adaptation_views(self.video@),
            audio: spec_audio_adaptation_views(self.audio@),
            text: spec_text_adaptation_views(self.text@),
        }
    }
}

impl Tracks {
    fn range_segment(base_url: &String, file_url: &String, text: &String) -> (result: Result<
        Segment,
        PlayerError,
    >)
        ensures
            match result {
                Ok(segment) => spec_range_segment(base_url@, file_url@, text@) == Ok::<
                    SegmentView,
                    PlayerError,
                >(segment@),
                Err(e) => spec_range_segment(base_url@, file_url@, text@) == Err::<
                    SegmentView,
                    PlayerError,
                >(e),
            },
    {
        let (start, end) = match Self::parse_range(text.as_str()) {
            Ok(pair) => pair,
            Err(e) => {
                return Err(e);
            },
        };
        Segment::new(base_url, file_url, start, end)
    }

    fn base_segments(base_url: &String, file_url: &String, segment_base: &SegmentBase) -> (result:
        Result<(Segment, Segment), PlayerError>)
        ensures
            match result {
                Ok((init, index)) => spec_base_segments(base_url@, file_url@, *segment_base) == Ok::<
                    (SegmentView, SegmentView),
                    PlayerError,
                >((init@, index@)),
                Err(e) => spec_base_segments(base_url@, file_url@, *segment_base) == Err::<
                    (SegmentView, SegmentView),
                    PlayerError,
                >(e),
            },
    {
        let init = match Self::range_segment(base_url, file_url, &segment_base.initialization.range) {
            Ok(segment) => segment,
            Err(e) => {
                return Err(e);
            },
        };
        let index = match Self::range_segment(base_url, file_url, &segment_base.index_range) {
            Ok(segment) => segment,
            Err(e) => {
                return Err(e);
            },
        };
        Ok((init, index))
    }

    /// Checks what can be checked of a video representation before its
    /// index is at hand, and gives it with its initialization and index
    /// ranges and without media segments.
    pub fn prepare_video_representation(base_url: &String, representation: &Representation) -> (result:
        Result<VideoRepresenation, PlayerError>)
        ensures
            match result {
                Ok(prepared) => spec_prepared_video(base_url@, *representation) == Ok::<
                    VideoRepresenationView,
                    PlayerError,
                >(prepared@),
                Err(e) => spec_prepared_video(base_url@, *representation) == Err::<
                    VideoRepresenationView,
                    PlayerError,
                >(e),
            },
    {
        let codecs: String = match &representation.codecs {
            Some(value) => value.clone(),
            None => {
                return Err(PlayerError::SchemaError);
            },
        };
        let width: u32 = match representation.width {
            Some(value) => value,
            None => {
                return Err(PlayerError::SchemaError);
            },
        };
        let height: u32 = match representation.height {
            Some(value) => value,
            None => {
                return Err(PlayerError::SchemaError);
            },
        };
        let sar: String = match &representation.sar {
            Some(value) => value.clone(),
            None => {
                return Err(PlayerError::SchemaError);
            },
        };
        let url_base: String = base_url.clone();
        let file_url: String = representation.base_url.value.clone();
        let base_segment: &SegmentBase = match &representation.segment_base {
            Some(segment) => segment,
            None => {
                return Err(PlayerError::SchemaError);
            },
        };
        let (init_segment, index_segment) = match Self::base_segments(
            &url_base,
            &file_url,
            base_segment,
        ) {
            Ok(pair) => pair,
            Err(e) => {
                return Err(e);
            },
        };
        if !text_is(&representation.mime_type, "video/mp4") {
            return Err(PlayerError::CodecUnsupported);
        }
        let segments: Vec<Segment> = Vec::new();
        assert(spec_segment_views(segments@) =~= Seq::<SegmentView>::empty());
        Ok(
            VideoRepresenation {
                id: representation.id,
                base_url: url_base,
                file_url,
                bandwidth: representation.bandwidth,
                codecs,
                mime_type: representation.mime_type.clone(),
                width,
                height,
                sar,
                segment_init: init_segment,
                segment_range: index_segment,
                segments,
            },
        )
    }

    /// Builds a video representation from the manifest and the bytes of
    /// its index range.
    pub fn parse_video_representation(
        base_url: &String,
        representation: &Representation,
        index: &[u8],
    ) -> (result: Result<VideoRepresenation, PlayerError>)
        ensures
            match result {
                Ok(video) => spec_video_representation(base_url@, *representation, index@) == Ok::<
                    VideoRepresenationView,
                    PlayerError,
                >(video@),
                Err(e) => spec_video_representation(base_url@, *representation, index@) == Err::<
                    VideoRepresenationView,
                    PlayerError,
                >(e),
            },
    {
        reveal(spec_video_representation);
        let mut video = match Self::prepare_video_representation(base_url, representation) {
            Ok(prepared) => prepared,
            Err(e) => {
                return Err(e);
            },
        };
        let segments = match Self::resolve_segments(
            &video.base_url,
            &video.file_url,
            video.segment_range.end(),
            index,
        ) {
            Ok(segments) => segments,
            Err(e) => {
                return Err(e);
            },
        };
        video.segments = segments;
        Ok(video)
    }

    /// Checks what can be checked of an audio representation before its
    /// index is at hand, and gives it with its initialization and index
    /// ranges and without media segments.
    pub fn prepare_audio_representation(base_url: &String, representation: &Representation) -> (result:
        Result<AudioRepresentation, PlayerError>)
        ensures
            match result {
                Ok(prepared) => spec_prepared_audio(base_url@, *representation) == Ok::<
                    AudioRepresentationView,
                    PlayerError,
                >(prepared@),
                Err(e) => spec_prepared_audio(base_url@, *representation) == Err::<
                    AudioRepresentationView,
                    PlayerError,
                >(e),
            },
    {
        let codecs: String = match &representation.codecs {
            Some(value) => value.clone(),
            None => {
                return Err(PlayerError::SchemaError);
            },
        };
        let audio_sampling_rate: u32 = match representation.audio_sampling_rate {
            Some(value) => value,
            None => {
                return Err(PlayerError::SchemaError);
            },
        };
        let url_base: String = base_url.clone();
        let file_url: String = representation.base_url.value.clone();
        let base_segment: &SegmentBase = match &representation.segment_base {
            Some(segment) => segment,
            None => {
                return Err(PlayerError::SchemaError);
            },
        };
        let (init_segment, index_segment) = match Self::base_segments(
            &url_base,
            &file_url,
            base_segment,
        ) {
            Ok(pair) => pair,
            Err(e) => {
                return Err(e);
            },
        };
        if !text_is(&representation.mime_type, "audio/mp4") {
            return Err(PlayerError::CodecUnsupported);
        }
        let segments: Vec<Segment> = Vec::new();
        assert(spec_segment_views(segments@) =~= Seq::<SegmentView>::empty());
        Ok(
            AudioRepresentation {
                id: representation.id,
                base_url: url_base,
                file_url,
                bandwidth: representation.bandwidth,
                codecs,
                mime_type: representation.mime_type.clone(),
                audio_sampling_rate,
                segment_init: init_segment,
                segment_range: index_segment,
                segments,
            },
        )
    }

    /// Builds an audio representation from the manifest and the bytes of
    /// its index range.
    pub fn parse_audio_representation(
        base_url: &String,
        representation: &Representation,
        index: &[u8],
    ) -> (result: Result<AudioRepresentation, PlayerError>)
        ensures
            match result {
                Ok(audio) => spec_audio_representation(base_url@, *representation, index@) == Ok::<
                    AudioRepresentationView,
                    PlayerError,
                >(audio@),
                Err(e) => spec_audio_representation(base_url@, *representation, index@) == Err::<
                    AudioRepresentationView,
                    PlayerError,
                >(e),
            },
    {
        reveal(spec_audio_representation);
        let mut audio = match Self::prepare_audio_representation(base_url, representation) {
            Ok(prepared) => prepared,
            Err(e) => {
                return Err(e);
            },
        };
        let segments = match Self::resolve_segments(
            &audio.base_url,
            &audio.file_url,
            audio.segment_range.end(),
            index,
        ) {
            Ok(segments) => segments,
            Err(e) => {
                return Err(e);
            },
        };
        audio.segments = segments;
        Ok(audio)
    }

    /// Builds a video adaptation set; `index` holds the bytes of the
    /// index range of each of its representations, in order, and a
    /// representation without a place in `index` is taken to have an
    /// empty index.
    #[verifier::loop_isolation(false)]
    pub fn parse_video_adaptation(
        base_url: &String,
        adaptation: &AdaptationSet,
        index: &Vec<Vec<u8>>,
    ) -> (result: Result<VideoAdaptation, PlayerError>)
        ensures
            match result {
                Ok(video) => spec_video_adaptation(base_url@, *adaptation, index@) == Ok::<
                    VideoAdaptationView,
                    PlayerError,
                >(video@),
                Err(e) => spec_video_adaptation(base_url@, *adaptation, index@) == Err::<
                    VideoAdaptationView,
                    PlayerError,
                >(e),
            },
    {
        reveal(spec_video_adaptation);
        let mut video_representations: Vec<VideoRepresenation> = Vec::new();
        let frame_rate: String = match &adaptation.frame_rate {
            Some(value) => value.clone(),
            None => {
                return Err(PlayerError::SchemaError);
            },
        };
        let max_width: u32 = match adaptation.max_width {
            Some(value) => value,
            None => {
                return Err(PlayerError::SchemaError);
            },
        };
        let max_height: u32 = match adaptation.max_height {
            Some(value) => value,
            None => {
                return Err(PlayerError::SchemaError);
            },
        };
        let subsegment_alignment: bool = match adaptation.subsegment_alignment {
            Some(value) => value,
            None => false,
        };
        let nothing: Vec<u8> = Vec::new();
        let mut i: usize = 0;
        assert(spec_video_representation_views(video_representations@) =~= Seq::<
            VideoRepresenationView,
        >::empty());
        while i < adaptation.representations.len()
            invariant
                i <= adaptation.representations.len(),
                nothing@.len() == 0,
                spec_video_representations(
                    base_url@,
                    adaptation.representations@,
                    index@,
                    i as int,
                ) == Ok::<Seq<VideoRepresenationView>, PlayerError>(
                    spec_video_representation_views(video_representations@),
                ),
            decreases adaptation.representations.len() - i,
        {
            let bytes: &[u8] = if i < index.len() {
                index[i].as_slice()
            } else {
                nothing.as_slice()
            };
            assert(bytes@ =~= spec_index_of(index@, i as int));
            let ghost before = spec_video_representation_views(video_representations@);
            let video = match Self::parse_video_representation(
                base_url,
                &adaptation.representations[i],
                bytes,
            ) {
                Ok(video) => video,
                Err(e) => {
                    proof {
                        Self::lemma_video_representations_fail(
                            base_url@,
                            adaptation.representations@,
                            index@,
                            i + 1,
                            adaptation.representations@.len() as int,
                        );
                    }
                    return Err(e);
                },
            };
            video_representations.push(video);
            assert(spec_video_representation_views(video_representations@) =~= before.push(
                video@,
            ));
            i = i + 1;
        }
        Ok(
            VideoAdaptation {
                id: adaptation.id,
                subsegment_alignment,
                frame_rate,
                max_width,
                max_height,
                representations: video_representations,
            },
        )
    }

    proof fn lemma_video_representations_fail(
        base_url: Seq<char>,
        representations: Seq<Representation>,
        index: Seq<Vec<u8>>,
        k: int,
        n: int,
    )
        requires
            0 <= k <= n,
            spec_video_representations(base_url, representations, index, k) is Err,
        ensures
            spec_video_representations(base_url, representations, index, n)
                == spec_video_representations(base_url, representations, index, k),
        decreases n - k,
    {
        if k < n {
            Self::lemma_video_representations_fail(base_url, representations, index, k, n - 1);
        }
    }

    proof fn lemma_audio_representations_fail(
        base_url: Seq<char>,
        representations: Seq<Representation>,
        index: Seq<Vec<u8>>,
        k: int,
        n: int,
    )
        requires
            0 <= k <= n,
            spec_audio_representations(base_url, representations, index, k) is Err,
        ensures
            spec_audio_representations(base_url, representations, index, n)
                == spec_audio_representations(base_url, representations, index, k),
        decreases n - k,
    {
        if k < n {
            Self::lemma_audio_representations_fail(base_url, representations, index, k, n - 1);
        }
    }

    /// Builds an audio adaptation set; `index` holds the bytes of the
    /// index range of each of its representations, in order, and a
    /// representation without a place in `index` is taken to have an
    /// empty index.
    #[verifier::loop_isolation(false)]
    pub fn parse_audio_adaptation(
        base_url: &String,
        adaptation: &AdaptationSet,
        index: &Vec<Vec<u8>>,
    ) -> (result: Result<AudioAdaptation, PlayerError>)
        ensures
            match result {
                Ok(audio) => spec_audio_adaptation(base_url@, *adaptation, index@) == Ok::<
                    AudioAdaptationView,
                    PlayerError,
                >(audio@),
                Err(e) => spec_audio_adaptation(base_url@, *adaptation, index@) == Err::<
                    AudioAdaptationView,
                    PlayerError,
                >(e),
            },
    {
        reveal(spec_audio_adaptation);
        let mut audio_representations: Vec<AudioRepresentation> = Vec::new();
        let lang: String = match &adaptation.lang {
            Some(value) => value.clone(),
            None => {
                return Err(PlayerError::SchemaError);
            },
        };
        let subsegment_alignment: bool = match adaptation.subsegment_alignment {
            Some(value) => value,
            None => false,
        };
        let nothing: Vec<u8> = Vec::new();
        let mut i: usize = 0;
        assert(spec_audio_representation_views(audio_representations@) =~= Seq::<
            AudioRepresentationView,
        >::empty());
        while i < adaptation.representations.len()
            invariant
                i <= adaptation.representations.len(),
                nothing@.len() == 0,
                spec_audio_representations(
                    base_url@,
                    adaptation.representations@,
                    index@,
                    i as int,
                ) == Ok::<Seq<AudioRepresentationView>, PlayerError>(
                    spec_audio_representation_views(audio_representations@),
                ),
            decreases adaptation.representations.len() - i,
        {
            let bytes: &[u8] = if i < index.len() {
                index[i].as_slice()
            } else {
                nothing.as_slice()
            };
            assert(bytes@ =~= spec_index_of(index@, i as int));
            let ghost before = spec_audio_representation_views(audio_representations@);
            let audio = match Self::parse_audio_representation(
                base_url,
                &adaptation.representations[i],
                bytes,
            ) {
                Ok(audio) => audio,
                Err(e) => {
                    proof {
                        Self::lemma_audio_representations_fail(
                            base_url@,
                            adaptation.representations@,
                            index@,
                            i + 1,
                            adaptation.representations@.len() as int,
                        );
                    }
                    return Err(e);
                },
            };
            audio_representations.push(audio);
            assert(spec_audio_representation_views(audio_representations@) =~= before.push(
                audio@,
            ));
            i = i + 1;
        }
        Ok(
            AudioAdaptation {
                id: adaptation.id,
                lang,
                subsegment_alignment,
                representations: audio_representations,
            },
        )
    }

    /// Builds a text adaptation set: one entry for each representation.
    pub fn parse_text_adaptation(base_url: &str, adaptation: &AdaptationSet) -> (result: Result<
        TextAdaptation,
        PlayerError,
    >)
        ensures
            result is Ok,
            result matches Ok(text) ==> text.representations@.len()
                == adaptation.representations@.len(),
    {
        let mut text_representations: Vec<TextRepresenation> = Vec::new();
        let mut i: usize = 0;
        while i < adaptation.representations.len()
            invariant
                i <= adaptation.representations.len(),
                text_representations@.len() == i,
            decreases adaptation.representations.len() - i,
        {
            text_representations.push(TextRepresenation {  });
            i = i + 1;
        }
        Ok(TextAdaptation { representations: text_representations })
    }

    proof fn lemma_tracks_of_sets_fail(
        base_url: Seq<char>,
        sets: Seq<AdaptationSet>,
        index: Seq<Vec<Vec<u8>>>,
        k: int,
        n: int,
    )
        requires
            0 <= k <= n,
            spec_tracks_of_sets(base_url, sets, index, k) is Err,
        ensures
            spec_tracks_of_sets(base_url, sets, index, n) == spec_tracks_of_sets(
                base_url,
                sets,
                index,
                k,
            ),
        decreases n - k,
    {
        if k < n {
            Self::lemma_tracks_of_sets_fail(base_url, sets, index, k, n - 1);
        }
    }

    /// Sorts the adaptation sets of the first period into video, audio
    /// and text tracks. `index` holds, for each adaptation set in order,
    /// the bytes of the index range of each of its representations.
    pub fn parse_tracks(base_url: String, mpd: &MPD, index: &Vec<Vec<Vec<u8>>>) -> (result: Result<
        TracksResult,
        PlayerError,
    >)
        ensures
            match result {
                Ok(tracks) => spec_tracks(base_url@, *mpd, index@) == Ok::<TracksView, PlayerError>(
                    tracks@,
                ),
                Err(e) => spec_tracks(base_url@, *mpd, index@) == Err::<TracksView, PlayerError>(e),
            },
    {
        if mpd.periods.len() == 0 {
            return Err(PlayerError::SchemaError);
        }
        let period = &mpd.periods[0];
        let mut video_adaptations: Vec<VideoAdaptation> = Vec::new();
        let mut audio_adaptations: Vec<AudioAdaptation> = Vec::new();
        let mut text_adaptations: Vec<TextAdaptation> = Vec::new();
        let nothing: Vec<Vec<u8>> = Vec::new();
        let ghost sets = period.adaptation_sets@;
        let mut i: usize = 0;
        proof {
            assert(spec_video_adaptation_views(video_adaptations@) =~= Seq::<
                VideoAdaptationView,
            >::empty());
            assert(spec_audio_adaptation_views(audio_adaptations@) =~= Seq::<
                AudioAdaptationView,
            >::empty());
            assert(spec_text_adaptation_views(text_adaptations@) =~= Seq::<nat>::empty());
        }
        while i < period.adaptation_sets.len()
            invariant
                i <= period.adaptation_sets.len(),
                mpd.periods@.len() > 0,
                sets == mpd.periods@[0].adaptation_sets@,
                sets == period.adaptation_sets@,
                nothing@.len() == 0,
                spec_tracks_of_sets(base_url@, sets, index@, i as int) == Ok::<
                    TracksView,
                    PlayerError,
                >(
                    TracksView {
                        video: spec_video_adaptation_views(video_adaptations@),
                        audio: spec_audio_adaptation_views(audio_adaptations@),
                        text: spec_text_adaptation_views(text_adaptations@),
                    },
                ),
            decreases period.adaptation_sets.len() - i,
        {
            let adaptation: &AdaptationSet = &period.adaptation_sets[i];
            let bytes: &Vec<Vec<u8>> = if i < index.len() {
                &index[i]
            } else {
                &nothing
            };
            assert(bytes@ =~= spec_indexes_of(index@, i as int));
            let ghost videos = spec_video_adaptation_views(video_adaptations@);
            let ghost audios = spec_audio_adaptation_views(audio_adaptations@);
            let ghost texts = spec_text_adaptation_views(text_adaptations@);
            if text_is(&adaptation.content_type, "video") {
                let value = match Self::parse_video_adaptation(&base_url, adaptation, bytes) {
                    Ok(value) => value,
                    Err(e) => {
                        proof {
                            Self::lemma_tracks_of_sets_fail(
                                base_url@,
                                sets,
                                index@,
                                i + 1,
                                sets.len() as int,
                            );
                        }
                        return Err(e);
                    },
                };
                video_adaptations.push(value);
                assert(spec_video_adaptation_views(video_adaptations@) =~= videos.push(value@));
            } else if text_is(&adaptation.content_type, "audio") {
                let value = match Self::parse_audio_adaptation(&base_url, adaptation, bytes) {
                    Ok(value) => value,
                    Err(e) => {
                        proof {
                            Self::lemma_tracks_of_sets_fail(
                                base_url@,
                                sets,
                                index@,
                                i + 1,
                                sets.len() as int,
                            );
                        }
                        return Err(e);
                    },
                };
                audio_adaptations.push(value);
                assert(spec_audio_adaptation_views(audio_adaptations@) =~= audios.push(value@));
            } else if text_is(&adaptation.content_type, "text") {
                let value = match Self::parse_text_adaptation(base_url.as_str(), adaptation) {
                    Ok(value) => value,
                    Err(e) => {
                        return Err(e);
                    },
                };
                text_adaptations.push(value);
                assert(spec_text_adaptation_views(text_adaptations@) =~= texts.push(
                    adaptation.representations@.len(),
                ));
            }
            i = i + 1;
        }
        Ok(TracksResult { video: video_adaptations, audio: audio_adaptations, text: text_adaptations })
    }

    /// Builds the tracks of a presentation of length `duration`. `index`
    /// holds, for each adaptation set of the first period in order, the
    /// bytes of the index range of each of its representations.
    pub fn new(
        base_url: String,
        mpd: &MPD,
        duration: std::time::Duration,
        index: &Vec<Vec<Vec<u8>>>,
    ) -> (result: Result<Self, PlayerError>)
        ensures
            match result {
                Ok(tracks) => spec_tracks(base_url@, *mpd, index@) == Ok::<TracksView, PlayerError>(
                    tracks@,
                ) && tracks.duration == duration,
                Err(e) => spec_tracks(base_url@, *mpd, index@) == Err::<TracksView, PlayerError>(e),
            },
    {
        let tracks = match Self::parse_tracks(base_url, mpd, index) {
            Ok(tracks) => tracks,
            Err(e) => {
                return Err(e);
            },
        };
        Ok(Tracks { duration, video: tracks.video, audio: tracks.audio, text: tracks.text })
    }
}

/// What [`lemma_resolved_segments_contiguous`] says of resolved segments
/// holds of the media segments of every video representation that was
/// built from an index with at least one entry.
pub proof fn lemma_video_segments_contiguous(
    base_url: Seq<char>,
    representation: Representation,
    index: Seq<u8>,
)
    requires
        spec_video_representation(base_url, representation, index) is Ok,
        spec_parse_sidx(index)->Ok_0.entries.len() >= 1,
    ensures
        ({
            let video = spec_video_representation(base_url, representation, index)->Ok_0;
            let segments = video.segments;
            &&& segments.len() >= 1
            &&& video.segment_init.start <= video.segment_init.end
            &&& video.segment_range.start <= video.segment_range.end
            &&& segments[0].start == video.segment_range.end + 1 + spec_parse_sidx(
                index,
            )->Ok_0.first_offset
            &&& forall|i: int| 0 <= i < segments.len() ==> segments[i].start <= segments[i].end
            &&& forall|i: int|
                0 <= i < segments.len() - 1 ==> segments[i].end + 1 == segments[i + 1].start
            &&& forall|i: int, j: int|
                0 <= i < j < segments.len() ==> segments[i].end < segments[j].start
        }),
{
    reveal(spec_video_representation);
    let prepared = spec_prepared_video(base_url, representation)->Ok_0;
    lemma_resolved_segments_contiguous(
        prepared.base_url,
        prepared.file_url,
        prepared.segment_range.end,
        index,
    );
}

/// What [`lemma_resolved_segments_contiguous`] says of resolved segments
/// holds of the media segments of every audio representation that was
/// built from an index with at least one entry.
pub proof fn lemma_audio_segments_contiguous(
    base_url: Seq<char>,
    representation: Representation,
    index: Seq<u8>,
)
    requires
        spec_audio_representation(base_url, representation, index) is Ok,
        spec_parse_sidx(index)->Ok_0.entries.len() >= 1,
    ensures
        ({
            let audio = spec_audio_representation(base_url, representation, index)->Ok_0;
            let segments = audio.segments;
            &&& segments.len() >= 1
            &&& audio.segment_init.start <= audio.segment_init.end
            &&& audio.segment_range.start <= audio.segment_range.end
            &&& segments[0].start == audio.segment_range.end + 1 + spec_parse_sidx(
                index,
            )->Ok_0.first_offset
            &&& forall|i: int| 0 <= i < segments.len() ==> segments[i].start <= segments[i].end
            &&& forall|i: int|
                0 <= i < segments.len() - 1 ==> segments[i].end + 1 == segments[i + 1].start
            &&& forall|i: int, j: int|
                0 <= i < j < segments.len() ==> segments[i].end < segments[j].start
        }),
{
    reveal(spec_audio_representation);
    let prepared = spec_prepared_audio(base_url, representation)->Ok_0;
    lemma_resolved_segments_contiguous(
        prepared.base_url,
        prepared.file_url,
        prepared.segment_range.end,
        index,
    );
}

} // verus!
