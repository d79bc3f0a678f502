use player::networking::{received_bytes, RequestType};
use player::renderers::audio::{interleaved_len, SAMPLE_BYTES};
use player::tracks::segment::Segment;
use player::tracks::Tracks;

#[test]
fn range_request_carries_the_range_of_its_segment() {
    let segment = Segment::new(&"https://example.com/".to_string(), &"a.mp4".to_string(), 932, 4931)
        .unwrap();
    assert_eq!(RequestType::RangeGet(segment).range_value(), Some(b"bytes=932-4931".to_vec()));
}

#[test]
fn other_requests_carry_no_range() {
    assert_eq!(RequestType::Get.range_value(), None);
    assert_eq!(RequestType::Post("body".to_string()).range_value(), None);
}

#[test]
fn content_length_is_read() {
    assert_eq!(received_bytes(Some("4000")), 4000);
    assert_eq!(received_bytes(Some("0")), 0);
    assert_eq!(received_bytes(Some("+17")), 17);
    assert_eq!(received_bytes(Some("18446744073709551615")), u64::MAX);
}

#[test]
fn content_length_that_is_no_number_counts_as_nothing() {
    assert_eq!(received_bytes(None), 0);
    assert_eq!(received_bytes(Some("")), 0);
    assert_eq!(received_bytes(Some("12 ")), 0);
    assert_eq!(received_bytes(Some("-1")), 0);
    assert_eq!(received_bytes(Some("1-2")), 0);
    assert_eq!(received_bytes(Some("18446744073709551616")), 0);
}

#[test]
fn unsigned_numbers_are_read_as_the_standard_library_reads_them() {
    for text in ["0", "7", "+7", "007", "+", "", "-7", "7+", " 7", "1e3", "18446744073709551615",
        "18446744073709551616", "184467440737095516150", "٧"]
    {
        assert_eq!(Tracks::parse_u64(text), text.parse::<u64>().ok(), "{:?}", text);
    }
}

#[test]
fn interleaved_samples_take_four_bytes_each() {
    assert_eq!(SAMPLE_BYTES, 4);
    assert_eq!(interleaved_len(1024, 2), Some(8192));
    assert_eq!(interleaved_len(0, 2), Some(0));
    assert_eq!(interleaved_len(1024, 0), Some(0));
    assert_eq!(interleaved_len(1, 1), Some(4));
    assert_eq!(interleaved_len(usize::MAX / 4, 1), Some(usize::MAX / 4 * 4));
}

#[test]
fn frame_larger_than_memory_has_no_length() {
    assert_eq!(interleaved_len(usize::MAX / 4 + 1, 1), None);
    assert_eq!(interleaved_len(usize::MAX, 2), None);
    assert_eq!(interleaved_len(usize::MAX, u16::MAX), None);
}
