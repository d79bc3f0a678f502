//! What a request says before it is sent, and what is read from the
//! headers of its answer.

use crate::tracks::segment::spec_range_header;
use crate::tracks::segment::Segment;
use crate::tracks::range::spec_parse_u64;
use crate::tracks::Tracks;
use vstd::prelude::*;

verus! {

/// A request to the origin.
#[derive(Debug)]
pub enum RequestType {
    /// A plain GET.
    Get,
    /// A POST with this body.
    Post(String),
    /// A GET for the bytes of this segment.
    RangeGet(Segment),
}

impl RequestType {
    /// The value of the `Range` header of the request, where it has one.
    pub fn range_value(&self) -> (value: Option<Vec<u8>>)
        ensures
            match self {
                RequestType::RangeGet(segment) => value matches Some(text) && text@
                    == spec_range_header(segment@.start, segment@.end),
                _ => value is None,
            },
    {
        match self {
            RequestType::RangeGet(segment) => Some(segment.range_header()),
            _ => None,
        }
    }
}

/// The number of bytes that an answer announces in its `Content-Length`
/// header: the number that the header writes, and zero where there is no
/// header or it writes no number.
pub open spec fn spec_received_bytes(content_length: Option<Seq<char>>) -> u64 {
    match content_length {
        Some(text) => match spec_parse_u64(vstd::utf8::encode_utf8(text)) {
            Some(length) => length,
            None => 0,
        },
        None => 0,
    }
}

/// Reads the number of bytes that an answer announces.
pub fn received_bytes(content_length: Option<&str>) -> (received: u64)
    ensures
        received == spec_received_bytes(
            match content_length {
                Some(text) => Some(text@),
                None => None,
            },
        ),
{
    match content_length {
        Some(text) => match Tracks::parse_u64(text) {
            Some(length) => length,
            None => 0,
        },
        None => 0,
    }
}

} // verus!
