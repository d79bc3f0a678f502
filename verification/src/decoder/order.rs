//! Packets come out in the order in which they are to be shown.

use super::{
    lemma_pts_ms_monotonic, spec_audio_packets, spec_audio_sample, spec_pts_ms, spec_video_packets,
    spec_video_sample, PacketView, SampleInfo,
};
use vstd::prelude::*;

verus! {

/// Whether the samples come in the order of their timestamps and share
/// one timescale.
pub open spec fn spec_samples_in_order(samples: Seq<SampleInfo>) -> bool {
    forall|i: int, j: int|
        0 <= i <= j < samples.len() ==> (#[trigger] samples[i]).composition_timestamp <= (
        #[trigger] samples[j]).composition_timestamp && samples[i].timescale
            == samples[j].timescale
}

/// Whether no packet is due before a packet that comes before it.
pub open spec fn spec_packets_in_order(packets: Seq<PacketView>) -> bool {
    forall|i: int, j: int|
        0 <= i <= j < packets.len() ==> (#[trigger] packets[i]).pts <= (#[trigger] packets[j]).pts
}

/// Whether no packet is due before a packet that comes before it, in its
/// own list or in an earlier one.
pub open spec fn spec_groups_in_order(groups: Seq<Seq<PacketView>>) -> bool {
    forall|g: int, i: int, h: int, j: int|
        #![trigger groups[g][i], groups[h][j]]
        0 <= g <= h < groups.len() && 0 <= i < groups[g].len() && 0 <= j < groups[h].len() && (g
            < h || i <= j) ==> groups[g][i].pts <= groups[h][j].pts
}

proof fn lemma_video_packets_bounded(data: Seq<u8>, samples: Seq<SampleInfo>, n: int)
    requires
        0 <= n <= samples.len(),
        spec_samples_in_order(samples),
        spec_video_packets(data, samples, n) is Ok,
    ensures
        spec_groups_in_order(spec_video_packets(data, samples, n)->Ok_0),
        forall|k: int, g: int, i: int|
            #![trigger samples[k], spec_video_packets(data, samples, n)->Ok_0[g][i]]
            0 <= k && n - 1 <= k < samples.len() && spec_pts_ms(
                samples[k].composition_timestamp,
                samples[k].timescale,
            ) is Some && 0 <= g < spec_video_packets(data, samples, n)->Ok_0.len() && 0 <= i
                < spec_video_packets(data, samples, n)->Ok_0[g].len() ==> spec_video_packets(
                data,
                samples,
                n,
            )->Ok_0[g][i].pts <= spec_pts_ms(
                samples[k].composition_timestamp,
                samples[k].timescale,
            )->Some_0,
    decreases n,
{
    if n > 0 {
        lemma_video_packets_bounded(data, samples, n - 1);
        let front = spec_video_packets(data, samples, n - 1)->Ok_0;
        let all = spec_video_packets(data, samples, n)->Ok_0;
        let last = samples[n - 1];
        match spec_video_sample(data, last) {
            Ok(Some(packets)) => {
                assert(all == front.push(packets));
                if packets.len() > 0 {
                    let due = spec_pts_ms(last.composition_timestamp, last.timescale)->Some_0;
                    assert forall|k: int, g: int, i: int|
                        #![trigger samples[k], all[g][i]]
                        0 <= k && n - 1 <= k < samples.len() && spec_pts_ms(
                            samples[k].composition_timestamp,
                            samples[k].timescale,
                        ) is Some && 0 <= g < all.len() && 0 <= i < all[g].len() implies all[g][i].pts
                        <= spec_pts_ms(
                        samples[k].composition_timestamp,
                        samples[k].timescale,
                    )->Some_0 by {
                        assert(samples[n - 1].timescale == samples[k].timescale);
                        lemma_pts_ms_monotonic(
                            last.composition_timestamp,
                            samples[k].composition_timestamp,
                            last.timescale,
                        );
                        if g < front.len() {
                            assert(all[g][i] == front[g][i]);
                            assert(front[g][i].pts <= due) by {
                                let _ = samples[n - 1];
                            }
                        } else {
                            assert(all[g][i].pts == due);
                        }
                    }
                    assert forall|g: int, i: int, h: int, j: int|
                        #![trigger all[g][i], all[h][j]]
                        0 <= g <= h < all.len() && 0 <= i < all[g].len() && 0 <= j < all[h].len()
                            && (g < h || i <= j) implies all[g][i].pts <= all[h][j].pts by {
                        if h < front.len() {
                            assert(all[g][i] == front[g][i]);
                            assert(all[h][j] == front[h][j]);
                        } else if g < front.len() {
                            assert(all[g][i] == front[g][i]);
                            assert(all[h][j].pts == due);
                            assert(front[g][i].pts <= due) by {
                                let _ = samples[n - 1];
                            }
                        } else {
                            assert(all[g][i].pts == due);
                            assert(all[h][j].pts == due);
                        }
                    }
                } else {
                    assert forall|g: int, i: int| 0 <= g < all.len() && 0 <= i
                        < all[g].len() implies g < front.len() && #[trigger] all[g][i]
                        == front[g][i] by {}
                }
            },
            _ => {
                assert(all == front);
            },
        }
    }
}

/// Where the samples of a video track come in the order of their
/// timestamps on one timescale, their packets come in the order of their
/// presentation times.
pub proof fn lemma_video_packets_in_order(data: Seq<u8>, samples: Seq<SampleInfo>)
    requires
        spec_samples_in_order(samples),
        spec_video_packets(data, samples, samples.len() as int) is Ok,
    ensures
        spec_groups_in_order(spec_video_packets(data, samples, samples.len() as int)->Ok_0),
{
    lemma_video_packets_bounded(data, samples, samples.len() as int);
}

proof fn lemma_audio_packets_bounded(
    data: Seq<u8>,
    samples: Seq<SampleInfo>,
    output_rate: u32,
    n: int,
)
    requires
        0 <= n <= samples.len(),
        spec_samples_in_order(samples),
        spec_audio_packets(data, samples, output_rate, n) is Ok,
    ensures
        spec_packets_in_order(spec_audio_packets(data, samples, output_rate, n)->Ok_0),
        forall|k: int, i: int|
            #![trigger samples[k], spec_audio_packets(data, samples, output_rate, n)->Ok_0[i]]
            0 <= k && n - 1 <= k < samples.len() && spec_pts_ms(
                samples[k].composition_timestamp,
                output_rate as u64,
            ) is Some && 0 <= i < spec_audio_packets(data, samples, output_rate, n)->Ok_0.len()
                ==> spec_audio_packets(data, samples, output_rate, n)->Ok_0[i].pts
                <= spec_pts_ms(samples[k].composition_timestamp, output_rate as u64)->Some_0,
    decreases n,
{
    if n > 0 {
        lemma_audio_packets_bounded(data, samples, output_rate, n - 1);
        let front = spec_audio_packets(data, samples, output_rate, n - 1)->Ok_0;
        let all = spec_audio_packets(data, samples, output_rate, n)->Ok_0;
        let last = samples[n - 1];
        match spec_audio_sample(data, last, output_rate) {
            Ok(Some(packet)) => {
                assert(all == front.push(packet));
                let due = spec_pts_ms(last.composition_timestamp, output_rate as u64)->Some_0;
                assert(packet.pts == due);
                assert forall|i: int| 0 <= i < front.len() implies (#[trigger] front[i]).pts
                    <= due by {
                    let _ = samples[n - 1];
                }
                assert forall|k: int, i: int|
                    #![trigger samples[k], all[i]]
                    0 <= k && n - 1 <= k < samples.len() && spec_pts_ms(
                        samples[k].composition_timestamp,
                        output_rate as u64,
                    ) is Some && 0 <= i < all.len() implies all[i].pts <= spec_pts_ms(
                    samples[k].composition_timestamp,
                    output_rate as u64,
                )->Some_0 by {
                    lemma_pts_ms_monotonic(
                        last.composition_timestamp,
                        samples[k].composition_timestamp,
                        output_rate as u64,
                    );
                    if i < front.len() {
                        assert(all[i] == front[i]);
                    }
                }
                assert forall|i: int, j: int| 0 <= i <= j < all.len() implies (#[trigger] all[i]).pts
                    <= (#[trigger] all[j]).pts by {
                    if j < front.len() {
                        assert(all[i] == front[i]);
                        assert(all[j] == front[j]);
                    } else if i < front.len() {
                        assert(all[i] == front[i]);
                    }
                }
            },
            _ => {
                assert(all == front);
            },
        }
    }
}

/// Where the samples of an audio track come in the order of their
/// timestamps, their packets come in the order of their presentation
/// times.
pub proof fn lemma_audio_packets_in_order(
    data: Seq<u8>,
    samples: Seq<SampleInfo>,
    output_rate: u32,
)
    requires
        spec_samples_in_order(samples),
        spec_audio_packets(data, samples, output_rate, samples.len() as int) is Ok,
    ensures
        spec_packets_in_order(
            spec_audio_packets(data, samples, output_rate, samples.len() as int)->Ok_0,
        ),
{
    lemma_audio_packets_bounded(data, samples, output_rate, samples.len() as int);
}

} // verus!
