//! From fetched segments to the packets that a codec is fed: where the
//! samples of a segment lie, how a sample becomes packets, and when each
//! packet is to be shown.

pub mod order;
pub mod setup;

use crate::error::PlayerError;
use crate::parsers::mp4::{parse_hevc_nalu, spec_hevc_nalus};
use vstd::prelude::*;

verus! {

/// Where one sample lies in a file and when it is shown, in units of
/// `1 / timescale` seconds.
#[derive(Clone, Copy, Debug, PartialEq, Eq, Structural)]
pub struct SampleInfo {
    pub offset: u64,
    pub size: u64,
    pub composition_timestamp: i64,
    pub timescale: u64,
}

/// One packet for a codec: its bytes, its presentation time in
/// milliseconds and the timescale of the sample that it came from.
#[derive(Clone, Debug, PartialEq, Eq)]
pub struct Packet {
    pub data: Vec<u8>,
    pub pts: i64,
    pub timescale: u64,
}

/// What a [`Packet`] holds, as mathematical values.
pub struct PacketView {
    pub data: Seq<u8>,
    pub pts: i64,
    pub timescale: u64,
}

impl View for Packet {
    type V = PacketView;

    open spec fn view(&self) -> PacketView {
        PacketView { data: self.data@, pts: self.pts, timescale: self.timescale }
    }
}

/// The views of a list of packets, in order.
pub open spec fn spec_packet_views(packets: Seq<Packet>) -> Seq<PacketView> {
    Seq::new(packets.len(), |i: int| packets[i]@)
}

/// The views of a list of lists of packets, in order.
pub open spec fn spec_packet_group_views(groups: Seq<Vec<Packet>>) -> Seq<Seq<PacketView>> {
    Seq::new(groups.len(), |i: int| spec_packet_views(groups[i]@))
}

/// A timestamp of `timestamp` units of `1 / timescale` seconds in
/// milliseconds: the timestamp times 1000, divided by the timescale and
/// rounded towards zero. There is none for a timescale of zero or beyond
/// 63 bits, nor where the product leaves 64 signed bits.
pub open spec fn spec_pts_ms(timestamp: i64, timescale: u64) -> Option<i64> {
    if timescale == 0 || timescale > i64::MAX || timestamp * 1000 < i64::MIN || timestamp * 1000
        > i64::MAX {
        None
    } else if timestamp >= 0 {
        Some(((timestamp * 1000) / (timescale as int)) as i64)
    } else {
        Some((-((-(timestamp * 1000)) / (timescale as int))) as i64)
    }
}

/// Converts a timestamp to milliseconds.
pub fn pts_ms(timestamp: i64, timescale: u64) -> (pts: Option<i64>)
    ensures
        pts == spec_pts_ms(timestamp, timescale),
{
    if timescale == 0 || timescale > i64::MAX as u64 {
        return None;
    }
    let product: i128 = timestamp as i128 * 1000;
    if product < i64::MIN as i128 || product > i64::MAX as i128 {
        return None;
    }
    if product >= 0 {
        let quotient: u128 = (product as u128) / (timescale as u128);
        proof {
            lemma_quotient_bound(product as int, timescale as int);
        }
        Some(quotient as i64)
    } else {
        let magnitude: u128 = (-product) as u128;
        let quotient: u128 = magnitude / (timescale as u128);
        proof {
            lemma_quotient_bound(magnitude as int, timescale as int);
        }
        Some(-(quotient as i64))
    }
}

proof fn lemma_quotient_bound(a: int, d: int)
    requires
        0 <= a,
        0 < d,
    ensures
        0 <= a / d <= a,
{
    vstd::arithmetic::div_mod::lemma_div_pos_is_pos(a, d);
    vstd::arithmetic::div_mod::lemma_div_is_ordered_by_denominator(a, 1, d);
}

/// A later timestamp is never shown before an earlier one: on one
/// timescale the conversion to milliseconds keeps the order.
pub proof fn lemma_pts_ms_monotonic(earlier: i64, later: i64, timescale: u64)
    requires
        earlier <= later,
        spec_pts_ms(earlier, timescale) is Some,
        spec_pts_ms(later, timescale) is Some,
    ensures
        spec_pts_ms(earlier, timescale)->Some_0 <= spec_pts_ms(later, timescale)->Some_0,
{
    let d = timescale as int;
    if earlier >= 0 {
        vstd::arithmetic::div_mod::lemma_div_is_ordered(earlier * 1000, later * 1000, d);
        lemma_quotient_bound(earlier * 1000, d);
        lemma_quotient_bound(later * 1000, d);
    } else if later >= 0 {
        lemma_quotient_bound(-(earlier * 1000), d);
        lemma_quotient_bound(later * 1000, d);
    } else {
        vstd::arithmetic::div_mod::lemma_div_is_ordered(-(later * 1000), -(earlier * 1000), d);
        lemma_quotient_bound(-(earlier * 1000), d);
        lemma_quotient_bound(-(later * 1000), d);
    }
}

/// The bytes of `sample` in `data`; none where the sample does not lie
/// within `data`.
pub open spec fn spec_sample_bytes(data: Seq<u8>, sample: SampleInfo) -> Option<Seq<u8>> {
    if sample.offset + sample.size <= data.len() {
        Some(data.subrange(sample.offset as int, sample.offset + sample.size))
    } else {
        None
    }
}

/// The packets of one video sample. A sample that does not lie within
/// `data` gives no packets and no error. Otherwise its bytes are
/// length-prefixed NAL units, and each unit is one packet in Annex-B form
/// that is shown at the time of the sample.
pub open spec fn spec_video_sample(data: Seq<u8>, sample: SampleInfo) -> Result<
    Option<Seq<PacketView>>,
    PlayerError,
> {
    match spec_sample_bytes(data, sample) {
        None => Ok(None),
        Some(bytes) => match spec_hevc_nalus(bytes) {
            None => Err(PlayerError::ContainerParseError),
            Some(nalus) => if nalus.len() == 0 {
                Ok(Some(Seq::empty()))
            } else {
                match spec_pts_ms(sample.composition_timestamp, sample.timescale) {
                    None => Err(PlayerError::ContainerParseError),
                    Some(pts) => Ok(
                        Some(
                            Seq::new(
                                nalus.len(),
                                |i: int|
                                    PacketView { data: nalus[i], pts, timescale: sample.timescale },
                            ),
                        ),
                    ),
                }
            },
        },
    }
}

/// The packets of the first `n` video samples, one list for each sample
/// that lies within `data`, in order; the error of the first sample that
/// fails.
pub open spec fn spec_video_packets(data: Seq<u8>, samples: Seq<SampleInfo>, n: int) -> Result<
    Seq<Seq<PacketView>>,
    PlayerError,
>
    decreases n,
{
    if n <= 0 {
        Ok(Seq::empty())
    } else {
        match spec_video_packets(data, samples, n - 1) {
            Err(e) => Err(e),
            Ok(front) => match spec_video_sample(data, samples[n - 1]) {
                Err(e) => Err(e),
                Ok(None) => Ok(front),
                Ok(Some(packets)) => Ok(front.push(packets)),
            },
        }
    }
}

/// The packet of one audio sample: its bytes as they are, shown at the
/// sample's timestamp taken in units of `1 / output_rate` seconds. A
/// sample that does not lie within `data` gives no packet and no error.
pub open spec fn spec_audio_sample(data: Seq<u8>, sample: SampleInfo, output_rate: u32) -> Result<
    Option<PacketView>,
    PlayerError,
> {
    match spec_sample_bytes(data, sample) {
        None => Ok(None),
        Some(bytes) => match spec_pts_ms(sample.composition_timestamp, output_rate as u64) {
            None => Err(PlayerError::ContainerParseError),
            Some(pts) => Ok(Some(PacketView { data: bytes, pts, timescale: sample.timescale })),
        },
    }
}

/// The packets of the first `n` audio samples, one for each sample that
/// lies within `data`, in order; the error of the first sample that
/// fails.
pub open spec fn spec_audio_packets(
    data: Seq<u8>,
    samples: Seq<SampleInfo>,
    output_rate: u32,
    n: int,
) -> Result<Seq<PacketView>, PlayerError>
    decreases n,
{
    if n <= 0 {
        Ok(Seq::empty())
    } else {
        match spec_audio_packets(data, samples, output_rate, n - 1) {
            Err(e) => Err(e),
            Ok(front) => match spec_audio_sample(data, samples[n - 1], output_rate) {
                Err(e) => Err(e),
                Ok(None) => Ok(front),
                Ok(Some(packet)) => Ok(front.push(packet)),
            },
        }
    }
}

fn sample_bytes(data: &[u8], sample: &SampleInfo) -> (bytes: Option<Vec<u8>>)
    ensures
        match bytes {
            Some(bytes) => spec_sample_bytes(data@, *sample) == Some(bytes@),
            None => spec_sample_bytes(data@, *sample) is None,
        },
{
    let len: u64 = data.len() as u64;
    if sample.offset > len || sample.size > len - sample.offset {
        return None;
    }
    let start: usize = sample.offset as usize;
    let end: usize = (sample.offset + sample.size) as usize;
    let mut bytes: Vec<u8> = Vec::new();
    let mut k: usize = start;
    while k < end
        invariant
            start <= k <= end <= data.len(),
            bytes@ == data@.subrange(start as int, k as int),
        decreases end - k,
    {
        bytes.push(data[k]);
        assert(data@.subrange(start as int, k + 1) =~= data@.subrange(start as int, k as int).push(
            data@[k as int],
        ));
        k = k + 1;
    }
    Some(bytes)
}

fn video_sample(data: &[u8], sample: &SampleInfo) -> (result: Result<Option<Vec<Packet>>, PlayerError>)
    ensures
        match result {
            Ok(Some(packets)) => spec_video_sample(data@, *sample) == Ok::<
                Option<Seq<PacketView>>,
                PlayerError,
            >(Some(spec_packet_views(packets@))),
            Ok(None) => spec_video_sample(data@, *sample) == Ok::<
                Option<Seq<PacketView>>,
                PlayerError,
            >(None),
            Err(e) => spec_video_sample(data@, *sample) == Err::<
                Option<Seq<PacketView>>,
                PlayerError,
            >(e),
        },
{
    let bytes: Vec<u8> = match sample_bytes(data, sample) {
        Some(bytes) => bytes,
        None => {
            return Ok(None);
        },
    };
    let nalus: Vec<Vec<u8>> = match parse_hevc_nalu(bytes.as_slice()) {
        Ok(nalus) => nalus,
        Err(e) => {
            return Err(e);
        },
    };
    let ghost units = nalus.deep_view();
    let mut packets: Vec<Packet> = Vec::new();
    if nalus.len() == 0 {
        assert(spec_packet_views(packets@) =~= Seq::<PacketView>::empty());
        return Ok(Some(packets));
    }
    let pts: i64 = match pts_ms(sample.composition_timestamp, sample.timescale) {
        Some(pts) => pts,
        None => {
            return Err(PlayerError::ContainerParseError);
        },
    };
    let mut i: usize = 0;
    while i < nalus.len()
        invariant
            i <= nalus.len(),
            units == nalus.deep_view(),
            packets@.len() == i,
            forall|j: int|
                0 <= j < i ==> (#[trigger] packets@[j])@ == (PacketView {
                    data: units[j],
                    pts,
                    timescale: sample.timescale,
                }),
        decreases nalus.len() - i,
    {
        let unit: Vec<u8> = nalus[i].clone();
        assert(unit@ =~= units[i as int]) by {
            assert(nalus@[i as int].deep_view() =~= nalus@[i as int]@);
        }
        packets.push(Packet { data: unit, pts, timescale: sample.timescale });
        i = i + 1;
    }
    proof {
        assert(spec_packet_views(packets@) =~= Seq::new(
            units.len(),
            |i: int| PacketView { data: units[i], pts, timescale: sample.timescale },
        ));
    }
    Ok(Some(packets))
}

proof fn lemma_video_packets_fail(data: Seq<u8>, samples: Seq<SampleInfo>, k: int, n: int)
    requires
        0 <= k <= n,
        spec_video_packets(data, samples, k) is Err,
    ensures
        spec_video_packets(data, samples, n) == spec_video_packets(data, samples, k),
    decreases n - k,
{
    if k < n {
        lemma_video_packets_fail(data, samples, k, n - 1);
    }
}

proof fn lemma_audio_packets_fail(
    data: Seq<u8>,
    samples: Seq<SampleInfo>,
    output_rate: u32,
    k: int,
    n: int,
)
    requires
        0 <= k <= n,
        spec_audio_packets(data, samples, output_rate, k) is Err,
    ensures
        spec_audio_packets(data, samples, output_rate, n) == spec_audio_packets(
            data,
            samples,
            output_rate,
            k,
        ),
    decreases n - k,
{
    if k < n {
        lemma_audio_packets_fail(data, samples, output_rate, k, n - 1);
    }
}

/// Turns the video samples of a file into packets: one list of packets
/// for each sample that lies within `data`, in the order of the samples.
pub fn video_packets(data: &[u8], samples: &Vec<SampleInfo>) -> (result: Result<
    Vec<Vec<Packet>>,
    PlayerError,
>)
    ensures
        match result {
            Ok(groups) => spec_video_packets(data@, samples@, samples@.len() as int) == Ok::<
                Seq<Seq<PacketView>>,
                PlayerError,
            >(spec_packet_group_views(groups@)),
            Err(e) => spec_video_packets(data@, samples@, samples@.len() as int) == Err::<
                Seq<Seq<PacketView>>,
                PlayerError,
            >(e),
        },
{
    let mut groups: Vec<Vec<Packet>> = Vec::new();
    let mut i: usize = 0;
    assert(spec_packet_group_views(groups@) =~= Seq::<Seq<PacketView>>::empty());
    while i < samples.len()
        invariant
            i <= samples.len(),
            spec_video_packets(data@, samples@, i as int) == Ok::<
                Seq<Seq<PacketView>>,
                PlayerError,
            >(spec_packet_group_views(groups@)),
        decreases samples.len() - i,
    {
        let ghost before = spec_packet_group_views(groups@);
        match video_sample(data, &samples[i]) {
            Err(e) => {
                proof {
                    lemma_video_packets_fail(data@, samples@, i + 1, samples@.len() as int);
                }
                return Err(e);
            },
            Ok(None) => {},
            Ok(Some(packets)) => {
                groups.push(packets);
                assert(spec_packet_group_views(groups@) =~= before.push(
                    spec_packet_views(packets@),
                ));
            },
        }
        i = i + 1;
    }
    Ok(groups)
}

/// Turns the audio samples of a file into packets: one packet for each
/// sample that lies within `data`, in the order of the samples. The
/// presentation time is counted on `output_rate`, the rate of the output
/// device.
pub fn audio_packets(data: &[u8], samples: &Vec<SampleInfo>, output_rate: u32) -> (result: Result<
    Vec<Packet>,
    PlayerError,
>)
    ensures
        match result {
            Ok(packets) => spec_audio_packets(
                data@,
                samples@,
                output_rate,
                samples@.len() as int,
            ) == Ok::<Seq<PacketView>, PlayerError>(spec_packet_views(packets@)),
            Err(e) => spec_audio_packets(data@, samples@, output_rate, samples@.len() as int)
                == Err::<Seq<PacketView>, PlayerError>(e),
        },
{
    let mut packets: Vec<Packet> = Vec::new();
    let mut i: usize = 0;
    assert(spec_packet_views(packets@) =~= Seq::<PacketView>::empty());
    while i < samples.len()
        invariant
            i <= samples.len(),
            spec_audio_packets(data@, samples@, output_rate, i as int) == Ok::<
                Seq<PacketView>,
                PlayerError,
            >(spec_packet_views(packets@)),
        decreases samples.len() - i,
    {
        let ghost before = spec_packet_views(packets@);
        let sample: &SampleInfo = &samples[i];
        match sample_bytes(data, sample) {
            None => {},
            Some(bytes) => {
                let pts: i64 = match pts_ms(sample.composition_timestamp, output_rate as u64) {
                    Some(pts) => pts,
                    None => {
                        proof {
                            lemma_audio_packets_fail(
                                data@,
                                samples@,
                                output_rate,
                                i + 1,
                                samples@.len() as int,
                            );
                        }
                        return Err(PlayerError::ContainerParseError);
                    },
                };
                let packet = Packet { data: bytes, pts, timescale: sample.timescale };
                packets.push(packet);
                assert(spec_packet_views(packets@) =~= before.push(packet@));
            },
        }
        i = i + 1;
    }
    Ok(packets)
}

/// What the player takes from a file with these `tracks`, listed in
/// ascending order of their ids: what belongs to the first of them. A
/// file without a track cannot be played.
pub open spec fn spec_first_track<T>(tracks: Seq<T>) -> Result<T, PlayerError> {
    if tracks.len() > 0 {
        Ok(tracks[0])
    } else {
        Err(PlayerError::ContainerParseError)
    }
}

/// Picks what belongs to the first track of a file, given what belongs
/// to each of its tracks in ascending order of the track ids.
pub fn first_track<T>(tracks: Vec<T>) -> (result: Result<T, PlayerError>)
    ensures
        result == spec_first_track(tracks@),
{
    let mut tracks = tracks;
    if tracks.len() == 0 {
        return Err(PlayerError::ContainerParseError);
    }
    Ok(tracks.remove(0))
}

/// Puts a fetched segment behind the initialization segment of its
/// track: the two read as one file, in which the samples of the segment
/// are found.
pub fn segment_file(init: &[u8], segment: &[u8]) -> (file: Vec<u8>)
    ensures
        file@ == init@ + segment@,
{
    let mut file: Vec<u8> = Vec::new();
    let mut i: usize = 0;
    while i < init.len()
        invariant
            i <= init.len(),
            file@ == init@.take(i as int),
        decreases init.len() - i,
    {
        file.push(init[i]);
        assert(init@.take(i + 1) =~= init@.take(i as int).push(init@[i as int]));
        i = i + 1;
    }
    assert(init@.take(i as int) =~= init@);
    let mut k: usize = 0;
    while k < segment.len()
        invariant
            k <= segment.len(),
            file@ == init@ + segment@.take(k as int),
        decreases segment.len() - k,
    {
        file.push(segment[k]);
        assert(init@ + segment@.take(k + 1) =~= (init@ + segment@.take(k as int)).push(
            segment@[k as int],
        ));
        k = k + 1;
    }
    assert(segment@.take(k as int) =~= segment@);
    file
}

} // verus!
