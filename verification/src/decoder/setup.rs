//! What a decoder is fed before the first sample, going by the sample
//! description of its track.

use crate::error::PlayerError;
use crate::parsers::mp4::{
    aac_adts_header, aac_sampling_frequency_index_to_u32, apped_hevc_header,
    spec_aac_sampling_frequency, spec_adts_header, spec_start_code,
};
use vstd::prelude::*;

verus! {

/// The frame length that the framing header announces.
pub const ADTS_FRAME_LENGTH: u32 = 1024;

/// The decoder-specific part of an AAC sample description.
#[derive(Clone, Copy, Debug, PartialEq, Eq, Structural)]
pub struct AacConfig {
    pub profile: u8,
    pub freq_index: u8,
    pub chan_conf: u8,
}

/// What the sample description of a video track holds, as far as the
/// player reads it: for HEVC the arrays of parameter sets, each a list of
/// NAL units.
#[derive(Clone, Debug, PartialEq, Eq)]
pub enum VideoSampleEntry {
    Hvc1(Vec<Vec<Vec<u8>>>),
    Hev1(Vec<Vec<Vec<u8>>>),
    Other,
}

/// What a [`VideoSampleEntry`] holds, as mathematical values.
pub enum VideoSampleEntryView {
    Hvc1(Seq<Seq<Seq<u8>>>),
    Hev1(Seq<Seq<Seq<u8>>>),
    Other,
}

impl View for VideoSampleEntry {
    type V = VideoSampleEntryView;

    open spec fn view(&self) -> VideoSampleEntryView {
        match self {
            VideoSampleEntry::Hvc1(arrays) => VideoSampleEntryView::Hvc1(arrays.deep_view()),
            VideoSampleEntry::Hev1(arrays) => VideoSampleEntryView::Hev1(arrays.deep_view()),
            VideoSampleEntry::Other => VideoSampleEntryView::Other,
        }
    }
}

/// What the sample description of an audio track holds, as far as the
/// player reads it: for AAC the decoder-specific configuration, where
/// there is one.
#[derive(Clone, Copy, Debug, PartialEq, Eq, Structural)]
pub enum AudioSampleEntry {
    Mp4a(Option<AacConfig>),
    Other,
}

/// Each unit of `nalus` with the start code in front.
pub open spec fn spec_annex_b(nalus: Seq<Seq<u8>>) -> Seq<Seq<u8>> {
    Seq::new(nalus.len(), |i: int| spec_start_code() + nalus[i])
}

/// The parameter sets of all `arrays` in Annex-B form: the units of the
/// first array in their order, then those of the second, and so on.
pub open spec fn spec_parameter_sets(arrays: Seq<Seq<Seq<u8>>>) -> Seq<Seq<u8>>
    decreases arrays.len(),
{
    if arrays.len() == 0 {
        Seq::empty()
    } else {
        spec_parameter_sets(arrays.drop_last()) + spec_annex_b(arrays.last())
    }
}

/// What the video decoder is fed before the first sample: the parameter
/// sets of an HEVC sample description. Any other description is of a
/// codec that the player does not decode.
pub open spec fn spec_video_setup(entry: VideoSampleEntryView) -> Result<
    Seq<Seq<u8>>,
    PlayerError,
> {
    match entry {
        VideoSampleEntryView::Hvc1(arrays) => Ok(spec_parameter_sets(arrays)),
        VideoSampleEntryView::Hev1(arrays) => Ok(spec_parameter_sets(arrays)),
        VideoSampleEntryView::Other => Err(PlayerError::CodecUnsupported),
    }
}

fn parameter_sets(arrays: &Vec<Vec<Vec<u8>>>) -> (packets: Vec<Vec<u8>>)
    ensures
        packets.deep_view() == spec_parameter_sets(arrays.deep_view()),
{
    let ghost all = arrays.deep_view();
    let mut packets: Vec<Vec<u8>> = Vec::new();
    let mut i: usize = 0;
    proof {
        assert(all.take(0) =~= Seq::<Seq<Seq<u8>>>::empty());
        assert(packets.deep_view() =~= Seq::<Seq<u8>>::empty());
    }
    while i < arrays.len()
        invariant
            i <= arrays.len(),
            all == arrays.deep_view(),
            packets.deep_view() == spec_parameter_sets(all.take(i as int)),
        decreases arrays.len() - i,
    {
        let array: &Vec<Vec<u8>> = &arrays[i];
        let ghost units = all[i as int];
        let ghost front = packets.deep_view();
        let mut j: usize = 0;
        proof {
            assert(array.deep_view() =~= units);
            assert(front + spec_annex_b(units.take(0)) =~= front);
        }
        while j < array.len()
            invariant
                j <= array.len(),
                units == array.deep_view(),
                packets.deep_view() == front + spec_annex_b(units.take(j as int)),
            decreases array.len() - j,
        {
            let ghost before = packets.deep_view();
            let unit: Vec<u8> = array[j].clone();
            let packet: Vec<u8> = apped_hevc_header(unit);
            proof {
                assert(array@[j as int].deep_view() =~= array@[j as int]@);
                assert(packet@ == spec_start_code() + units[j as int]);
                assert(packet.deep_view() =~= packet@);
            }
            packets.push(packet);
            proof {
                assert(packets.deep_view() =~= before.push(packet@));
                assert(spec_annex_b(units.take(j + 1)) =~= spec_annex_b(units.take(j as int)).push(
                    packet@,
                ));
                assert(front + spec_annex_b(units.take(j + 1)) =~= before.push(packet@));
            }
            j = j + 1;
        }
        proof {
            assert(units.take(j as int) =~= units);
            let done = all.take(i + 1);
            assert(done.drop_last() =~= all.take(i as int));
            assert(done.last() == units);
        }
        i = i + 1;
    }
    proof {
        assert(all.take(i as int) =~= all);
    }
    packets
}

/// Gives the packets that the video decoder is fed before the first
/// sample.
pub fn video_setup(entry: &VideoSampleEntry) -> (result: Result<Vec<Vec<u8>>, PlayerError>)
    ensures
        match result {
            Ok(packets) => spec_video_setup(entry@) == Ok::<Seq<Seq<u8>>, PlayerError>(
                packets.deep_view(),
            ),
            Err(e) => spec_video_setup(entry@) == Err::<Seq<Seq<u8>>, PlayerError>(e),
        },
{
    match entry {
        VideoSampleEntry::Hvc1(arrays) => Ok(parameter_sets(arrays)),
        VideoSampleEntry::Hev1(arrays) => Ok(parameter_sets(arrays)),
        VideoSampleEntry::Other => Err(PlayerError::CodecUnsupported),
    }
}

/// What the audio decoder needs before the first sample: the framing
/// header that it is fed, and the sampling rate of the source.
#[derive(Clone, Copy, Debug, PartialEq, Eq)]
pub struct AudioSetup {
    pub header: [u8; 8],
    pub source_rate: u32,
}

/// The setup of the audio decoder for a sample description. Only AAC is
/// decoded; its description must hold a configuration with a profile of
/// at least 1, from which the header is built for a frame length of 1024.
pub open spec fn spec_audio_setup(entry: AudioSampleEntry) -> Result<(Seq<u8>, u32), PlayerError> {
    match entry {
        AudioSampleEntry::Mp4a(Some(config)) => if config.profile >= 1 {
            Ok(
                (
                    spec_adts_header(
                        config.profile,
                        config.freq_index,
                        config.chan_conf,
                        ADTS_FRAME_LENGTH,
                    ),
                    spec_aac_sampling_frequency(config.freq_index),
                ),
            )
        } else {
            Err(PlayerError::CodecInitError)
        },
        AudioSampleEntry::Mp4a(None) => Err(PlayerError::CodecInitError),
        AudioSampleEntry::Other => Err(PlayerError::CodecUnsupported),
    }
}

/// Gives what the audio decoder needs before the first sample.
pub fn audio_setup(entry: &AudioSampleEntry) -> (result: Result<AudioSetup, PlayerError>)
    ensures
        match result {
            Ok(setup) => spec_audio_setup(*entry) == Ok::<(Seq<u8>, u32), PlayerError>(
                (setup.header@, setup.source_rate),
            ),
            Err(e) => spec_audio_setup(*entry) == Err::<(Seq<u8>, u32), PlayerError>(e),
        },
{
    match entry {
        AudioSampleEntry::Mp4a(Some(config)) => {
            match aac_adts_header(
                config.profile,
                config.freq_index,
                config.chan_conf,
                ADTS_FRAME_LENGTH,
            ) {
                Some(header) => Ok(
                    AudioSetup {
                        header,
                        source_rate: aac_sampling_frequency_index_to_u32(config.freq_index),
                    },
                ),
                None => Err(PlayerError::CodecInitError),
            }
        },
        AudioSampleEntry::Mp4a(None) => Err(PlayerError::CodecInitError),
        AudioSampleEntry::Other => Err(PlayerError::CodecUnsupported),
    }
}

} // verus!
