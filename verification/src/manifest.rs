//! The manifest of a presentation as a declarative tree.
//!
//! The tree holds what the document says and nothing more: which
//! attributes a representation needs depends on its content type and is
//! settled when the tracks are built from it.

use vstd::prelude::*;

verus! {

/// A loaded manifest: where it came from, its text and its tree.
#[derive(Clone, Debug)]
pub struct Manifest {
    pub url: String,
    pub content: String,
    pub mpd: MPD,
}

impl Manifest {
    /// Keeps a manifest that was fetched from `url` as `content` and read
    /// as `mpd`.
    pub fn new(url: String, content: String, mpd: MPD) -> (manifest: Self)
        ensures
            manifest.url == url,
            manifest.content == content,
            manifest.mpd == mpd,
    {
        Manifest { url, content, mpd }
    }
}

/// The presentation: its duration in ISO 8601 form and its periods.
#[derive(Clone, Debug)]
pub struct MPD {
    pub media_presentation_duration: String,
    pub periods: Vec<Period>,
}

/// A period: a list of adaptation sets.
#[derive(Clone, Debug)]
pub struct Period {
    pub adaptation_sets: Vec<AdaptationSet>,
}

/// A group of interchangeable representations of one content.
#[derive(Clone, Debug)]
pub struct AdaptationSet {
    pub id: u32,
    pub content_type: String,
    pub subsegment_alignment: Option<bool>,
    pub max_width: Option<u32>,
    pub max_height: Option<u32>,
    pub frame_rate: Option<String>,
    pub par: Option<String>,
    pub lang: Option<String>,
    pub representations: Vec<Representation>,
}

/// One concrete encoding of an adaptation set.
#[derive(Clone, Debug)]
pub struct Representation {
    pub id: u32,
    pub bandwidth: u64,
    pub mime_type: String,
    pub codecs: Option<String>,
    pub width: Option<u32>,
    pub height: Option<u32>,
    pub frame_rate: Option<u32>,
    pub sar: Option<String>,
    pub audio_sampling_rate: Option<u32>,
    pub base_url: BaseURL,
    pub segment_base: Option<SegmentBase>,
}

/// The path of the media file, relative to the manifest.
#[derive(Clone, Debug)]
pub struct BaseURL {
    pub value: String,
}

/// Where the segment index and the initialization segment lie in the
/// media file, each as `start-end`.
#[derive(Clone, Debug)]
pub struct SegmentBase {
    pub index_range: String,
    pub initialization: Initialization,
}

/// The byte range of the initialization segment, as `start-end`.
#[derive(Clone, Debug)]
pub struct Initialization {
    pub range: String,
}

} // verus!
