//! A byte range of one media file.

use crate::error::PlayerError;
use vstd::prelude::*;

verus! {

/// An inclusive byte range of the file `file_url` below `base_url`.
#[derive(Debug)]
pub struct Segment {
    base_url: String,
    file_url: String,
    start: u64,
    end: u64,
}

/// What a [`Segment`] holds, as mathematical values.
pub struct SegmentView {
    pub base_url: Seq<char>,
    pub file_url: Seq<char>,
    pub start: u64,
    pub end: u64,
}

impl View for Segment {
    type V = SegmentView;

    closed spec fn view(&self) -> SegmentView {
        SegmentView {
            base_url: self.base_url@,
            file_url: self.file_url@,
            start: self.start,
            end: self.end,
        }
    }
}

impl Clone for Segment {
    fn clone(&self) -> (copy: Self)
        ensures
            copy@ == self@,
    {
        proof {
            use_type_invariant(self);
        }
        Segment {
            base_url: self.base_url.clone(),
            file_url: self.file_url.clone(),
            start: self.start,
            end: self.end,
        }
    }
}

/// The decimal digits of `n` in ASCII, without leading zeros.
pub open spec fn spec_decimal(n: nat) -> Seq<u8>
    decreases n,
{
    if n < 10 {
        seq![(0x30 + n) as u8]
    } else {
        spec_decimal(n / 10).push((0x30 + n % 10) as u8)
    }
}

/// The text `bytes=`.
pub open spec fn spec_bytes_unit() -> Seq<u8> {
    seq![0x62u8, 0x79u8, 0x74u8, 0x65u8, 0x73u8, 0x3Du8]
}

/// The value of the `Range` header that asks for `start` to `end`:
/// `bytes=`, the start, a hyphen, the end.
pub open spec fn spec_range_header(start: u64, end: u64) -> Seq<u8> {
    spec_bytes_unit() + spec_decimal(start as nat) + seq![0x2Du8] + spec_decimal(end as nat)
}

fn push_decimal(out: &mut Vec<u8>, n: u64)
    ensures
        final(out)@ == old(out)@ + spec_decimal(n as nat),
    decreases n,
{
    if n < 10 {
        out.push(0x30 + n as u8);
        assert(out@ =~= old(out)@ + spec_decimal(n as nat));
    } else {
        push_decimal(out, n / 10);
        out.push(0x30 + (n % 10) as u8);
        assert(out@ =~= old(out)@ + spec_decimal(n as nat));
    }
}

impl Segment {
    #[verifier::type_invariant]
    spec fn ordered(&self) -> bool {
        self.start <= self.end
    }

    /// Makes the range `start` to `end`, both included; a range whose
    /// start lies after its end is refused.
    pub fn new(base_url: &String, file_url: &String, start: u64, end: u64) -> (result: Result<
        Self,
        PlayerError,
    >)
        ensures
            result is Ok <==> start <= end,
            result matches Ok(segment) ==> segment@ == (SegmentView {
                base_url: base_url@,
                file_url: file_url@,
                start,
                end,
            }),
            result matches Err(e) ==> e == PlayerError::RangeSyntaxError,
    {
        if start > end {
            return Err(PlayerError::RangeSyntaxError);
        }
        Ok(Segment { base_url: base_url.clone(), file_url: file_url.clone(), start, end })
    }

    /// The first byte of the range, which never lies after the last.
    pub fn start(&self) -> (start: u64)
        ensures
            start == self@.start,
            self@.start <= self@.end,
    {
        proof {
            use_type_invariant(self);
        }
        self.start
    }

    /// The last byte of the range.
    pub fn end(&self) -> (end: u64)
        ensures
            end == self@.end,
            self@.start <= self@.end,
    {
        proof {
            use_type_invariant(self);
        }
        self.end
    }

    /// The address below which the file lies.
    pub fn base_url(&self) -> (base_url: &String)
        ensures
            base_url@ == self@.base_url,
    {
        &self.base_url
    }

    /// The path of the file below the base address.
    pub fn file_url(&self) -> (file_url: &String)
        ensures
            file_url@ == self@.file_url,
    {
        &self.file_url
    }

    /// The address of the file: the base address and the path, joined as
    /// they stand.
    pub fn url(&self) -> (url: String)
        ensures
            url@ == self@.base_url + self@.file_url,
    {
        let mut url: String = self.base_url.clone();
        url.append(self.file_url.as_str());
        url
    }

    /// The value of the `Range` header that asks for this range.
    pub fn range_header(&self) -> (value: Vec<u8>)
        ensures
            value@ == spec_range_header(self@.start, self@.end),
    {
        let mut value: Vec<u8> = Vec::new();
        value.push(0x62);
        value.push(0x79);
        value.push(0x74);
        value.push(0x65);
        value.push(0x73);
        value.push(0x3D);
        assert(value@ =~= spec_bytes_unit());
        push_decimal(&mut value, self.start);
        value.push(0x2D);
        push_decimal(&mut value, self.end);
        assert(value@ =~= spec_range_header(self@.start, self@.end));
        value
    }
}

} // verus!
