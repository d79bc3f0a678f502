use player::error::PlayerError;
use player::parsers::mp4::{
    aac_adts_header, aac_sampling_frequency_index_to_u32, apped_hevc_header, parse_hevc_nalu,
    parse_sidx, serialize_sidx, SidxBox, SidxEntry,
};

fn sidx_bytes(first_offset: u32, entries: &[(u32, u32, u32)]) -> Vec<u8> {
    let mut bytes = Vec::new();
    bytes.extend_from_slice(&((32 + 12 * entries.len()) as u32).to_be_bytes());
    bytes.extend_from_slice(b"sidx");
    bytes.extend_from_slice(&0x0100_0002u32.to_be_bytes());
    bytes.extend_from_slice(&7u32.to_be_bytes());
    bytes.extend_from_slice(&90000u32.to_be_bytes());
    bytes.extend_from_slice(&1234u32.to_be_bytes());
    bytes.extend_from_slice(&first_offset.to_be_bytes());
    bytes.extend_from_slice(&0u16.to_be_bytes());
    bytes.extend_from_slice(&(entries.len() as u16).to_be_bytes());
    for (first, duration, third) in entries {
        bytes.extend_from_slice(&first.to_be_bytes());
        bytes.extend_from_slice(&duration.to_be_bytes());
        bytes.extend_from_slice(&third.to_be_bytes());
    }
    bytes
}

#[test]
fn sidx_fields_are_read_bit_exact() {
    let bytes = sidx_bytes(16, &[(0x8000_1000, 180000, 0x9000_0005), (2000, 90000, 0x7FFF_FFFF)]);
    let mut cursor: &[u8] = &bytes;
    let sidx = parse_sidx(&mut cursor).unwrap();
    assert_eq!(sidx.size, 56);
    assert_eq!(sidx.version, 1);
    assert_eq!(sidx.flags, 2);
    assert_eq!(sidx.reference_id, 7);
    assert_eq!(sidx.timescale, 90000);
    assert_eq!(sidx.earliest_presentation_time, 1234);
    assert_eq!(sidx.first_offset, 16);
    assert_eq!(sidx.entry_count, 2);
    assert_eq!(
        sidx.entries,
        vec![
            SidxEntry {
                reference_type: 1,
                reference_size: 0x1000,
                subsegment_duration: 180000,
                starts_with_sap: 1,
                sap_type: 1,
                sap_delta: 5,
            },
            SidxEntry {
                reference_type: 0,
                reference_size: 2000,
                subsegment_duration: 90000,
                starts_with_sap: 0,
                sap_type: 7,
                sap_delta: 0x0FFF_FFFF,
            },
        ]
    );
    assert!(cursor.is_empty());
}

#[test]
fn sidx_leaves_what_follows_the_box() {
    let mut bytes = sidx_bytes(0, &[(100, 1, 0)]);
    bytes.extend_from_slice(&[9, 8, 7]);
    let mut cursor: &[u8] = &bytes;
    let sidx = parse_sidx(&mut cursor).unwrap();
    assert_eq!(sidx.entries.len(), 1);
    assert_eq!(cursor, &[9, 8, 7]);
}

#[test]
fn sidx_without_entries_is_read() {
    let bytes = sidx_bytes(3, &[]);
    let mut cursor: &[u8] = &bytes;
    let sidx = parse_sidx(&mut cursor).unwrap();
    assert_eq!(sidx.entry_count, 0);
    assert!(sidx.entries.is_empty());
}

#[test]
fn sidx_with_another_type_is_refused() {
    let mut bytes = sidx_bytes(0, &[(100, 1, 0)]);
    bytes[4..8].copy_from_slice(b"moof");
    let mut cursor: &[u8] = &bytes;
    assert_eq!(parse_sidx(&mut cursor), Err(PlayerError::NotAnSidx));
    assert_eq!(cursor.len(), bytes.len() - 8);
}

#[test]
fn sidx_shorter_than_its_type_is_truncated() {
    let bytes = [0u8, 0, 0, 44, b's', b'i', b'd'];
    let mut cursor: &[u8] = &bytes;
    assert_eq!(parse_sidx(&mut cursor), Err(PlayerError::TruncatedSidx));
    assert_eq!(cursor.len(), 7);
}

#[test]
fn sidx_shorter_than_its_header_is_truncated() {
    let bytes = sidx_bytes(0, &[]);
    let mut cursor: &[u8] = &bytes[..31];
    assert_eq!(parse_sidx(&mut cursor), Err(PlayerError::TruncatedSidx));
    assert_eq!(cursor.len(), 31);
}

#[test]
fn sidx_shorter_than_its_entries_is_truncated() {
    let bytes = sidx_bytes(0, &[(100, 1, 0), (200, 1, 0)]);
    let mut cursor: &[u8] = &bytes[..bytes.len() - 1];
    assert_eq!(parse_sidx(&mut cursor), Err(PlayerError::TruncatedSidx));
    assert_eq!(cursor.len(), bytes.len() - 1);
}

#[test]
fn empty_input_is_a_truncated_sidx() {
    let mut cursor: &[u8] = &[];
    assert_eq!(parse_sidx(&mut cursor), Err(PlayerError::TruncatedSidx));
}

#[test]
fn sidx_is_written_as_it_was_read() {
    let bytes = sidx_bytes(16, &[(0x8000_1000, 180000, 0x9000_0005), (2000, 90000, 0x7FFF_FFFF)]);
    let mut cursor: &[u8] = &bytes;
    let sidx = parse_sidx(&mut cursor).unwrap();
    assert_eq!(serialize_sidx(&sidx), Some(bytes));
}

#[test]
fn sidx_round_trip_keeps_the_fields() {
    let sidx = SidxBox {
        size: 44,
        version: 0,
        flags: 0x00AB_CDEF,
        reference_id: 1,
        timescale: 48000,
        earliest_presentation_time: 0,
        first_offset: 0,
        entry_count: 1,
        entries: vec![SidxEntry {
            reference_type: 0,
            reference_size: 0x7FFF_FFFF,
            subsegment_duration: 96000,
            starts_with_sap: 1,
            sap_type: 2,
            sap_delta: 3,
        }],
    };
    let bytes = serialize_sidx(&sidx).unwrap();
    assert_eq!(bytes.len(), 44);
    let mut cursor: &[u8] = &bytes;
    let first = parse_sidx(&mut cursor).unwrap();
    assert_eq!(first, sidx);
    let again = serialize_sidx(&first).unwrap();
    let mut cursor: &[u8] = &again;
    assert_eq!(parse_sidx(&mut cursor).unwrap(), first);
}

#[test]
fn sidx_that_does_not_fit_its_bits_is_not_written() {
    let entry = SidxEntry {
        reference_type: 0,
        reference_size: 10,
        subsegment_duration: 1,
        starts_with_sap: 0,
        sap_type: 0,
        sap_delta: 0,
    };
    let good = SidxBox {
        size: 44,
        version: 0,
        flags: 0,
        reference_id: 1,
        timescale: 1,
        earliest_presentation_time: 0,
        first_offset: 0,
        entry_count: 1,
        entries: vec![entry],
    };
    assert!(serialize_sidx(&good).is_some());
    let mut wide_flags = good.clone();
    wide_flags.flags = 0x0100_0000;
    assert_eq!(serialize_sidx(&wide_flags), None);
    let mut wrong_count = good.clone();
    wrong_count.entry_count = 2;
    assert_eq!(serialize_sidx(&wrong_count), None);
    let mut wide_size = good.clone();
    wide_size.entries[0].reference_size = 0x8000_0000;
    assert_eq!(serialize_sidx(&wide_size), None);
    let mut wide_type = good.clone();
    wide_type.entries[0].reference_type = 2;
    assert_eq!(serialize_sidx(&wide_type), None);
    let mut wide_sap = good.clone();
    wide_sap.entries[0].sap_type = 8;
    assert_eq!(serialize_sidx(&wide_sap), None);
    let mut wide_delta = good.clone();
    wide_delta.entries[0].sap_delta = 0x1000_0000;
    assert_eq!(serialize_sidx(&wide_delta), None);
    let mut wide_flag = good;
    wide_flag.entries[0].starts_with_sap = 2;
    assert_eq!(serialize_sidx(&wide_flag), None);
}

#[test]
fn start_code_is_put_in_front() {
    assert_eq!(apped_hevc_header(vec![0xAA, 0xBB]), vec![0, 0, 0, 1, 0xAA, 0xBB]);
    assert_eq!(apped_hevc_header(vec![]), vec![0, 0, 0, 1]);
}

#[test]
fn annex_b_transform_of_two_units() {
    let sample = [0x00, 0x00, 0x00, 0x04, 0xAA, 0xBB, 0xCC, 0xDD, 0x00, 0x00, 0x00, 0x02, 0xEE, 0xFF];
    assert_eq!(
        parse_hevc_nalu(&sample),
        Ok(vec![vec![0x00, 0x00, 0x00, 0x01, 0xAA, 0xBB, 0xCC, 0xDD], vec![0x00, 0x00, 0x00, 0x01, 0xEE, 0xFF]])
    );
}

#[test]
fn annex_b_transform_of_nothing_and_of_an_empty_unit() {
    assert_eq!(parse_hevc_nalu(&[]), Ok(vec![]));
    assert_eq!(parse_hevc_nalu(&[0, 0, 0, 0]), Ok(vec![vec![0, 0, 0, 1]]));
}

#[test]
fn annex_b_transform_refuses_a_cut_sample() {
    assert_eq!(parse_hevc_nalu(&[0, 0, 0]), Err(PlayerError::ContainerParseError));
    assert_eq!(parse_hevc_nalu(&[0, 0, 0, 2, 0xAA]), Err(PlayerError::ContainerParseError));
    assert_eq!(
        parse_hevc_nalu(&[0, 0, 0, 1, 0xAA, 0, 0]),
        Err(PlayerError::ContainerParseError)
    );
    assert_eq!(
        parse_hevc_nalu(&[0xFF, 0xFF, 0xFF, 0xFF, 0xAA]),
        Err(PlayerError::ContainerParseError)
    );
}

#[test]
fn aac_frequency_table() {
    let table = [
        96000, 88200, 64000, 48000, 44100, 32000, 24000, 22050, 16000, 12000, 11025, 8000, 7350,
    ];
    for (index, frequency) in table.iter().enumerate() {
        assert_eq!(aac_sampling_frequency_index_to_u32(index as u8), *frequency);
    }
    assert_eq!(aac_sampling_frequency_index_to_u32(13), 44100);
    assert_eq!(aac_sampling_frequency_index_to_u32(255), 44100);
}

#[test]
fn adts_header_for_low_complexity_stereo() {
    assert_eq!(
        aac_adts_header(2, 4, 2, 1024),
        Some([0xFF, 0xF1, 0x50, 0x80, 0x80, 0x1F, 0xFC, 0xFF])
    );
}

#[test]
fn adts_header_spreads_the_frame_length() {
    assert_eq!(
        aac_adts_header(1, 3, 7, 0x1FFF),
        Some([0xFF, 0xF1, 0x0D, 0xC3, 0xFF, 0xFF, 0xFC, 0xFF])
    );
    assert_eq!(
        aac_adts_header(4, 11, 1, 5),
        Some([0xFF, 0xF1, 0xEC, 0x40, 0x00, 0xBF, 0xFC, 0xFF])
    );
}

#[test]
fn adts_header_has_no_profile_zero() {
    assert_eq!(aac_adts_header(0, 4, 2, 1024), None);
}
