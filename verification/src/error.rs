use vstd::prelude::*;

verus! {

/// Every way in which an operation of the player can fail.
#[derive(Clone, Copy, Debug, PartialEq, Eq, Structural)]
pub enum PlayerError {
    /// An operation was called in a lifecycle state that does not allow it.
    InvalidState,
    /// `play` was called before both a video and an audio track were chosen.
    TrackNotSelected,
    /// The transport failed, or a URL could not be used to reach the origin.
    NetworkError,
    /// The manifest is not well-formed XML.
    ParseError,
    /// The manifest lacks a mandatory element or attribute.
    SchemaError,
    /// A byte range is not of the form `start-end` with `start <= end`,
    /// or a segment index asks for a segment of no bytes or for one that
    /// ends beyond 64 bits.
    RangeSyntaxError,
    /// The index range does not hold a `sidx` box.
    NotAnSidx,
    /// The `sidx` box is shorter than its header and entry count demand.
    TruncatedSidx,
    /// A media segment could not be downloaded.
    SegmentDownloadFailed,
    /// The container structure of a segment could not be read: the file
    /// has no track, a sample is cut inside a NAL unit, or a timestamp
    /// cannot be converted.
    ContainerParseError,
    /// The manifest or the sample description names a format that the
    /// player does not decode.
    CodecUnsupported,
    /// The decoder could not be set up, or the sample description lacks
    /// what the framing header is built from.
    CodecInitError,
    /// The decoder rejected a packet.
    CodecDecodeError,
    /// No output device is available.
    DeviceUnavailable,
    /// The output stream could not be built.
    StreamBuildError,
    /// The operation was cancelled by `stop`.
    Cancelled,
}

} // verus!
