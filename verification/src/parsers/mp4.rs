//! The pieces of ISO base media files that the player reads itself: the
//! segment index box, length-prefixed HEVC samples and the AAC framing
//! header.

use crate::error::PlayerError;
use vstd::prelude::*;

verus! {

/// Bytes of a `sidx` box before its first entry.
pub const SIDX_HEADER_LEN: usize = 32;

/// Bytes of one `sidx` entry.
pub const SIDX_ENTRY_LEN: usize = 12;

/// The big-endian number held by the four bytes of `s` that start at `at`.
pub open spec fn spec_be_u32(s: Seq<u8>, at: int) -> int {
    s[at] * 0x100_0000 + s[at + 1] * 0x1_0000 + s[at + 2] * 0x100 + s[at + 3]
}

/// The big-endian number held by the two bytes of `s` that start at `at`.
pub open spec fn spec_be_u16(s: Seq<u8>, at: int) -> int {
    s[at] * 0x100 + s[at + 1]
}

/// The four bytes that hold `x`, most significant first.
pub open spec fn spec_u32_be_bytes(x: int) -> Seq<u8> {
    seq![
        (x / 0x100_0000 % 0x100) as u8,
        (x / 0x1_0000 % 0x100) as u8,
        (x / 0x100 % 0x100) as u8,
        (x % 0x100) as u8,
    ]
}

/// The two bytes that hold `x`, most significant first.
pub open spec fn spec_u16_be_bytes(x: int) -> Seq<u8> {
    seq![(x / 0x100 % 0x100) as u8, (x % 0x100) as u8]
}

/// The box type `sidx` in ASCII.
pub open spec fn spec_sidx_tag() -> Seq<u8> {
    seq![0x73u8, 0x69u8, 0x64u8, 0x78u8]
}

/// The Annex-B start code `00 00 00 01`.
pub open spec fn spec_start_code() -> Seq<u8> {
    seq![0u8, 0u8, 0u8, 1u8]
}

fn read_u32(data: &mut &[u8]) -> (result: u32)
    requires
        old(data)@.len() >= 4,
    ensures
        result == spec_be_u32(old(data)@, 0),
        final(data)@ == old(data)@.skip(4),
{
    let d: &[u8] = *data;
    let result: u32 = (d[0] as u32) * 0x100_0000 + (d[1] as u32) * 0x1_0000 + (d[2] as u32)
        * 0x100 + (d[3] as u32);
    let (_, rest) = d.split_at(4);
    *data = rest;
    result
}

fn read_u16(data: &mut &[u8]) -> (result: u16)
    requires
        old(data)@.len() >= 2,
    ensures
        result == spec_be_u16(old(data)@, 0),
        final(data)@ == old(data)@.skip(2),
{
    let d: &[u8] = *data;
    let result: u16 = (d[0] as u16) * 0x100 + (d[1] as u16);
    let (_, rest) = d.split_at(2);
    *data = rest;
    result
}

/// One reference of a segment index.
#[derive(Debug, Clone, Copy, PartialEq, Eq, Structural)]
pub struct SidxEntry {
    pub reference_type: u8,
    pub reference_size: u64,
    pub subsegment_duration: u32,
    pub starts_with_sap: u8,
    pub sap_type: u8,
    pub sap_delta: u32,
}

/// A segment index box.
#[derive(Debug, Clone, PartialEq, Eq)]
pub struct SidxBox {
    pub size: u32,
    pub version: u8,
    pub flags: u32,
    pub reference_id: u32,
    pub timescale: u32,
    pub earliest_presentation_time: u32,
    pub first_offset: u32,
    pub entry_count: u16,
    pub entries: Vec<SidxEntry>,
}

/// What a [`SidxBox`] holds, as mathematical values.
pub struct SidxBoxView {
    pub size: u32,
    pub version: u8,
    pub flags: u32,
    pub reference_id: u32,
    pub timescale: u32,
    pub earliest_presentation_time: u32,
    pub first_offset: u32,
    pub entry_count: u16,
    pub entries: Seq<SidxEntry>,
}

impl View for SidxBox {
    type V = SidxBoxView;

    open spec fn view(&self) -> SidxBoxView {
        SidxBoxView {
            size: self.size,
            version: self.version,
            flags: self.flags,
            reference_id: self.reference_id,
            timescale: self.timescale,
            earliest_presentation_time: self.earliest_presentation_time,
            first_offset: self.first_offset,
            entry_count: self.entry_count,
            entries: self.entries@,
        }
    }
}

/// The entry held by the twelve bytes of `data` that start at `at`: the
/// top bit of the first word is the reference type and its low 31 bits
/// the size; the second word is the duration; the third word holds the
/// SAP flag (top bit), the SAP type (next three bits) and the SAP delta
/// (low 28 bits).
pub open spec fn spec_sidx_entry(data: Seq<u8>, at: int) -> SidxEntry {
    let first = spec_be_u32(data, at);
    let third = spec_be_u32(data, at + 8);
    SidxEntry {
        reference_type: (first / 0x8000_0000) as u8,
        reference_size: (first % 0x8000_0000) as u64,
        subsegment_duration: spec_be_u32(data, at + 4) as u32,
        starts_with_sap: (third / 0x8000_0000) as u8,
        sap_type: (third / 0x1000_0000 % 8) as u8,
        sap_delta: (third % 0x1000_0000) as u32,
    }
}

/// The number of entries that the header of `data` declares.
pub open spec fn spec_sidx_entry_count(data: Seq<u8>) -> int {
    spec_be_u16(data, 30)
}

/// The bytes that a complete box takes, going by the entry count in the
/// header of `data`.
pub open spec fn spec_sidx_len(data: Seq<u8>) -> int {
    SIDX_HEADER_LEN + SIDX_ENTRY_LEN * spec_sidx_entry_count(data)
}

/// What reading `data` as a segment index gives.
///
/// The fields are read in order, big-endian: size, type, version and
/// flags (one word: top 8 bits and low 24 bits), reference id, timescale,
/// earliest presentation time, first offset, 16 reserved bits, the entry
/// count, then the entries. The size field is recorded and not checked;
/// bytes after the last entry are not looked at.
pub open spec fn spec_parse_sidx(data: Seq<u8>) -> Result<SidxBoxView, PlayerError> {
    if data.len() < 8 {
        Err(PlayerError::TruncatedSidx)
    } else if data.subrange(4, 8) != spec_sidx_tag() {
        Err(PlayerError::NotAnSidx)
    } else if data.len() < SIDX_HEADER_LEN || data.len() < spec_sidx_len(data) {
        Err(PlayerError::TruncatedSidx)
    } else {
        let version_flags = spec_be_u32(data, 8);
        Ok(
            SidxBoxView {
                size: spec_be_u32(data, 0) as u32,
                version: (version_flags / 0x100_0000) as u8,
                flags: (version_flags % 0x100_0000) as u32,
                reference_id: spec_be_u32(data, 12) as u32,
                timescale: spec_be_u32(data, 16) as u32,
                earliest_presentation_time: spec_be_u32(data, 20) as u32,
                first_offset: spec_be_u32(data, 24) as u32,
                entry_count: spec_sidx_entry_count(data) as u16,
                entries: Seq::new(
                    spec_sidx_entry_count(data) as nat,
                    |i: int| spec_sidx_entry(data, SIDX_HEADER_LEN + SIDX_ENTRY_LEN * i),
                ),
            },
        )
    }
}

/// What is left of `data` once [`parse_sidx`] has returned: everything
/// after the box where it was read, everything after the size and type
/// where the type is wrong, and all of `data` where it is too short.
pub open spec fn spec_sidx_rest(data: Seq<u8>) -> Seq<u8> {
    match spec_parse_sidx(data) {
        Ok(_) => data.skip(spec_sidx_len(data)),
        Err(PlayerError::NotAnSidx) => data.skip(8),
        Err(_) => data,
    }
}

/// Reads a segment index box from the front of `data` and moves `data`
/// past what was read.
pub fn parse_sidx(data: &mut &[u8]) -> (result: Result<SidxBox, PlayerError>)
    ensures
        match result {
            Ok(sidx) => spec_parse_sidx(old(data)@) == Ok::<SidxBoxView, PlayerError>(sidx@),
            Err(e) => spec_parse_sidx(old(data)@) == Err::<SidxBoxView, PlayerError>(e),
        },
        final(data)@ == spec_sidx_rest(old(data)@),
{
    let whole: &[u8] = *data;
    if whole.len() < 8 {
        return Err(PlayerError::TruncatedSidx);
    }
    let size: u32 = read_u32(data);
    let tag: &[u8] = *data;
    let is_sidx: bool = tag[0] == 0x73 && tag[1] == 0x69 && tag[2] == 0x64 && tag[3] == 0x78;
    let (_, after_tag) = tag.split_at(4);
    *data = after_tag;
    proof {
        assert(data@ =~= whole@.skip(8));
        let found = whole@.subrange(4, 8);
        assert(found.len() == 4);
        assert(forall|k: int| 0 <= k < 4 ==> found[k] == tag@[k]);
        if is_sidx {
            assert(found =~= spec_sidx_tag());
        } else {
            assert(found[0] != 0x73 || found[1] != 0x69 || found[2] != 0x64 || found[3] != 0x78);
        }
    }
    if !is_sidx {
        return Err(PlayerError::NotAnSidx);
    }
    if whole.len() < SIDX_HEADER_LEN {
        *data = whole;
        return Err(PlayerError::TruncatedSidx);
    }
    let version_flags: u32 = read_u32(data);
    assert(version_flags >> 24 == version_flags / 0x100_0000) by (bit_vector);
    assert(version_flags & 0x00FF_FFFF == version_flags % 0x100_0000) by (bit_vector);
    let version: u8 = (version_flags >> 24) as u8;
    let flags: u32 = version_flags & 0x00FF_FFFF;

    let reference_id: u32 = read_u32(data);
    let timescale: u32 = read_u32(data);
    let earliest_presentation_time: u32 = read_u32(data);
    let first_offset: u32 = read_u32(data);
    let _reserved: u16 = read_u16(data);
    let entry_count: u16 = read_u16(data);
    proof {
        assert(data@ =~= whole@.skip(SIDX_HEADER_LEN as int));
    }
    if whole.len() - SIDX_HEADER_LEN < SIDX_ENTRY_LEN * (entry_count as usize) {
        *data = whole;
        return Err(PlayerError::TruncatedSidx);
    }
    let mut entries: Vec<SidxEntry> = Vec::new();
    let mut i: u16 = 0;
    while i < entry_count
        invariant
            i <= entry_count,
            entry_count == spec_sidx_entry_count(whole@),
            whole@.len() >= spec_sidx_len(whole@),
            data@ == whole@.skip(SIDX_HEADER_LEN + SIDX_ENTRY_LEN * i),
            entries@.len() == i,
            forall|j: int|
                0 <= j < i ==> entries@[j] == spec_sidx_entry(
                    whole@,
                    SIDX_HEADER_LEN + SIDX_ENTRY_LEN * j,
                ),
        decreases entry_count - i,
    {
        let ghost at: int = SIDX_HEADER_LEN + SIDX_ENTRY_LEN * i;
        let first: u32 = read_u32(data);
        let subsegment_duration: u32 = read_u32(data);
        let third: u32 = read_u32(data);
        proof {
            assert(data@ =~= whole@.skip(at + 12));
            assert(first == spec_be_u32(whole@, at));
            assert(subsegment_duration == spec_be_u32(whole@, at + 4));
            assert(third == spec_be_u32(whole@, at + 8));
        }
        assert(first >> 31 == first / 0x8000_0000) by (bit_vector);
        assert(first & 0x7FFF_FFFF == first % 0x8000_0000) by (bit_vector);
        assert(third >> 31 == third / 0x8000_0000) by (bit_vector);
        assert((third >> 28) & 0x7 == third / 0x1000_0000 % 8) by (bit_vector);
        assert(third & 0x0FFF_FFFF == third % 0x1000_0000) by (bit_vector);
        let entry = SidxEntry {
            reference_type: (first >> 31) as u8,
            reference_size: (first & 0x7FFF_FFFF) as u64,
            subsegment_duration,
            starts_with_sap: (third >> 31) as u8,
            sap_type: ((third >> 28) & 0x7) as u8,
            sap_delta: third & 0x0FFF_FFFF,
        };
        entries.push(entry);
        i = i + 1;
    }
    let sidx = SidxBox {
        size,
        version,
        flags,
        reference_id,
        timescale,
        earliest_presentation_time,
        first_offset,
        entry_count,
        entries,
    };
    proof {
        let expected = spec_parse_sidx(whole@);
        assert(expected is Ok);
        assert(sidx@.entries =~= expected->Ok_0.entries);
    }
    Ok(sidx)
}

/// Whether every field of `sidx` fits the bits that the box gives it, and
/// the entry count is the number of entries.
pub open spec fn spec_sidx_wf(sidx: SidxBoxView) -> bool {
    &&& sidx.flags < 0x100_0000
    &&& sidx.entry_count == sidx.entries.len()
    &&& forall|i: int| 0 <= i < sidx.entries.len() ==> spec_sidx_entry_wf(#[trigger] sidx.entries[i])
}

/// Whether every field of `entry` fits the bits that the box gives it.
pub open spec fn spec_sidx_entry_wf(entry: SidxEntry) -> bool {
    &&& entry.reference_type <= 1
    &&& entry.reference_size < 0x8000_0000
    &&& entry.starts_with_sap <= 1
    &&& entry.sap_type <= 7
    &&& entry.sap_delta < 0x1000_0000
}

/// The twelve bytes that hold `entry`.
pub open spec fn spec_sidx_entry_bytes(entry: SidxEntry) -> Seq<u8> {
    spec_u32_be_bytes(entry.reference_type * 0x8000_0000 + entry.reference_size)
        + spec_u32_be_bytes(entry.subsegment_duration as int) + spec_u32_be_bytes(
        entry.starts_with_sap * 0x8000_0000 + entry.sap_type * 0x1000_0000 + entry.sap_delta,
    )
}

/// The bytes that hold `entries`, one after the other.
pub open spec fn spec_sidx_entries_bytes(entries: Seq<SidxEntry>) -> Seq<u8>
    decreases entries.len(),
{
    if entries.len() == 0 {
        Seq::empty()
    } else {
        spec_sidx_entries_bytes(entries.drop_last()) + spec_sidx_entry_bytes(entries.last())
    }
}

/// The bytes before the first entry of the box that holds `sidx`; the
/// reserved bits are zero.
pub open spec fn spec_sidx_header_bytes(sidx: SidxBoxView) -> Seq<u8> {
    spec_u32_be_bytes(sidx.size as int) + spec_sidx_tag() + spec_u32_be_bytes(
        sidx.version * 0x100_0000 + sidx.flags,
    ) + spec_u32_be_bytes(sidx.reference_id as int) + spec_u32_be_bytes(sidx.timescale as int)
        + spec_u32_be_bytes(sidx.earliest_presentation_time as int) + spec_u32_be_bytes(
        sidx.first_offset as int,
    ) + spec_u16_be_bytes(0) + spec_u16_be_bytes(sidx.entry_count as int)
}

/// The box that holds `sidx`.
pub open spec fn spec_serialize_sidx(sidx: SidxBoxView) -> Seq<u8> {
    spec_sidx_header_bytes(sidx) + spec_sidx_entries_bytes(sidx.entries)
}

fn push_u32(out: &mut Vec<u8>, x: u32)
    ensures
        final(out)@ == old(out)@ + spec_u32_be_bytes(x as int),
{
    out.push((x / 0x100_0000 % 0x100) as u8);
    out.push((x / 0x1_0000 % 0x100) as u8);
    out.push((x / 0x100 % 0x100) as u8);
    out.push((x % 0x100) as u8);
    assert(out@ =~= old(out)@ + spec_u32_be_bytes(x as int));
}

fn push_u16(out: &mut Vec<u8>, x: u16)
    ensures
        final(out)@ == old(out)@ + spec_u16_be_bytes(x as int),
{
    out.push((x / 0x100 % 0x100) as u8);
    out.push((x % 0x100) as u8);
    assert(out@ =~= old(out)@ + spec_u16_be_bytes(x as int));
}

fn sidx_entry_fits(entry: &SidxEntry) -> (fits: bool)
    ensures
        fits == spec_sidx_entry_wf(*entry),
{
    entry.reference_type <= 1 && entry.reference_size < 0x8000_0000 && entry.starts_with_sap <= 1
        && entry.sap_type <= 7 && entry.sap_delta < 0x1000_0000
}

/// Writes `sidx` as a box, or nothing where a field does not fit its bits
/// or the entry count is not the number of entries.
pub fn serialize_sidx(sidx: &SidxBox) -> (out: Option<Vec<u8>>)
    ensures
        out is Some <==> spec_sidx_wf(sidx@),
        out matches Some(bytes) ==> bytes@ == spec_serialize_sidx(sidx@),
{
    if sidx.flags >= 0x100_0000 || sidx.entries.len() != sidx.entry_count as usize {
        return None;
    }
    let mut bytes: Vec<u8> = Vec::new();
    push_u32(&mut bytes, sidx.size);
    bytes.push(0x73);
    bytes.push(0x69);
    bytes.push(0x64);
    bytes.push(0x78);
    push_u32(&mut bytes, (sidx.version as u32) * 0x100_0000 + sidx.flags);
    push_u32(&mut bytes, sidx.reference_id);
    push_u32(&mut bytes, sidx.timescale);
    push_u32(&mut bytes, sidx.earliest_presentation_time);
    push_u32(&mut bytes, sidx.first_offset);
    push_u16(&mut bytes, 0);
    push_u16(&mut bytes, sidx.entry_count);
    assert(bytes@ =~= spec_sidx_header_bytes(sidx@));
    let mut i: usize = 0;
    while i < sidx.entries.len()
        invariant
            i <= sidx.entries.len(),
            bytes@ == spec_sidx_header_bytes(sidx@) + spec_sidx_entries_bytes(
                sidx.entries@.take(i as int),
            ),
            forall|j: int| 0 <= j < i ==> spec_sidx_entry_wf(#[trigger] sidx.entries@[j]),
        decreases sidx.entries.len() - i,
    {
        let entry: &SidxEntry = &sidx.entries[i];
        if !sidx_entry_fits(entry) {
            return None;
        }
        let ghost before = bytes@;
        push_u32(&mut bytes, (entry.reference_type as u32) * 0x8000_0000 + entry.reference_size as u32);
        push_u32(&mut bytes, entry.subsegment_duration);
        push_u32(
            &mut bytes,
            (entry.starts_with_sap as u32) * 0x8000_0000 + (entry.sap_type as u32) * 0x1000_0000
                + entry.sap_delta,
        );
        proof {
            let done = sidx.entries@.take(i + 1);
            assert(done.drop_last() =~= sidx.entries@.take(i as int));
            assert(done.last() == *entry);
            assert(bytes@ =~= before + spec_sidx_entry_bytes(*entry));
            assert(bytes@ =~= spec_sidx_header_bytes(sidx@) + spec_sidx_entries_bytes(done));
        }
        i = i + 1;
    }
    proof {
        assert(sidx.entries@.take(i as int) =~= sidx.entries@);
    }
    Some(bytes)
}

proof fn lemma_u32_be_round_trip(x: int, s: Seq<u8>, at: int)
    requires
        0 <= x < 0x1_0000_0000,
        0 <= at,
        at + 4 <= s.len(),
        s.subrange(at, at + 4) == spec_u32_be_bytes(x),
    ensures
        spec_be_u32(s, at) == x,
{
    let b = s.subrange(at, at + 4);
    assert(b[0] == s[at] && b[1] == s[at + 1] && b[2] == s[at + 2] && b[3] == s[at + 3]);
}

proof fn lemma_u16_be_round_trip(x: int, s: Seq<u8>, at: int)
    requires
        0 <= x < 0x1_0000,
        0 <= at,
        at + 2 <= s.len(),
        s.subrange(at, at + 2) == spec_u16_be_bytes(x),
    ensures
        spec_be_u16(s, at) == x,
{
    let b = s.subrange(at, at + 2);
    assert(b[0] == s[at] && b[1] == s[at + 1]);
}

proof fn lemma_sidx_entries_bytes(entries: Seq<SidxEntry>, i: int)
    requires
        0 <= i < entries.len(),
    ensures
        spec_sidx_entries_bytes(entries).len() == SIDX_ENTRY_LEN * entries.len(),
        spec_sidx_entries_bytes(entries).subrange(
            SIDX_ENTRY_LEN * i,
            SIDX_ENTRY_LEN * i + SIDX_ENTRY_LEN,
        ) == spec_sidx_entry_bytes(entries[i]),
    decreases entries.len(),
{
    let all = spec_sidx_entries_bytes(entries);
    let front = spec_sidx_entries_bytes(entries.drop_last());
    lemma_sidx_entries_len(entries);
    lemma_sidx_entries_len(entries.drop_last());
    if i == entries.len() - 1 {
        assert(all.subrange(SIDX_ENTRY_LEN * i, SIDX_ENTRY_LEN * i + SIDX_ENTRY_LEN)
            =~= spec_sidx_entry_bytes(entries[i]));
    } else {
        lemma_sidx_entries_bytes(entries.drop_last(), i);
        assert(all.subrange(SIDX_ENTRY_LEN * i, SIDX_ENTRY_LEN * i + SIDX_ENTRY_LEN)
            =~= front.subrange(SIDX_ENTRY_LEN * i, SIDX_ENTRY_LEN * i + SIDX_ENTRY_LEN));
    }
}

proof fn lemma_sidx_entries_len(entries: Seq<SidxEntry>)
    ensures
        spec_sidx_entries_bytes(entries).len() == SIDX_ENTRY_LEN * entries.len(),
    decreases entries.len(),
{
    if entries.len() > 0 {
        lemma_sidx_entries_len(entries.drop_last());
    }
}

proof fn lemma_sidx_entry_words(entry: SidxEntry)
    requires
        spec_sidx_entry_wf(entry),
    ensures
        ({
            let first = entry.reference_type * 0x8000_0000 + entry.reference_size;
            let third = entry.starts_with_sap * 0x8000_0000 + entry.sap_type * 0x1000_0000
                + entry.sap_delta;
            &&& 0 <= first < 0x1_0000_0000
            &&& 0 <= third < 0x1_0000_0000
            &&& first / 0x8000_0000 == entry.reference_type
            &&& first % 0x8000_0000 == entry.reference_size
            &&& third / 0x8000_0000 == entry.starts_with_sap
            &&& third / 0x1000_0000 % 8 == entry.sap_type
            &&& third % 0x1000_0000 == entry.sap_delta
        }),
{
}

proof fn lemma_sidx_entry_round_trip(entry: SidxEntry, s: Seq<u8>, at: int)
    requires
        spec_sidx_entry_wf(entry),
        0 <= at,
        at + 12 <= s.len(),
        s.subrange(at, at + 12) == spec_sidx_entry_bytes(entry),
    ensures
        spec_sidx_entry(s, at) == entry,
{
    let b = spec_sidx_entry_bytes(entry);
    let first = entry.reference_type * 0x8000_0000 + entry.reference_size;
    let third = entry.starts_with_sap * 0x8000_0000 + entry.sap_type * 0x1000_0000
        + entry.sap_delta;
    lemma_sidx_entry_words(entry);
    assert(spec_be_u32(s, at) == first) by {
        assert(s.subrange(at, at + 4) =~= b.subrange(0, 4));
        assert(b.subrange(0, 4) =~= spec_u32_be_bytes(first));
        lemma_u32_be_round_trip(first, s, at);
    }
    assert(spec_be_u32(s, at + 4) == entry.subsegment_duration) by {
        assert(s.subrange(at + 4, at + 8) =~= b.subrange(4, 8));
        assert(b.subrange(4, 8) =~= spec_u32_be_bytes(entry.subsegment_duration as int));
        lemma_u32_be_round_trip(entry.subsegment_duration as int, s, at + 4);
    }
    assert(spec_be_u32(s, at + 8) == third) by {
        assert(s.subrange(at + 8, at + 12) =~= b.subrange(8, 12));
        assert(b.subrange(8, 12) =~= spec_u32_be_bytes(third));
        lemma_u32_be_round_trip(third, s, at + 8);
    }
}

proof fn lemma_be_u32_in_concat(front: Seq<u8>, x: int, back: Seq<u8>)
    requires
        0 <= x < 0x1_0000_0000,
    ensures
        spec_be_u32(front + spec_u32_be_bytes(x) + back, front.len() as int) == x,
{
    let s = front + spec_u32_be_bytes(x) + back;
    let at = front.len() as int;
    assert(s.subrange(at, at + 4) =~= spec_u32_be_bytes(x));
    lemma_u32_be_round_trip(x, s, at);
}

proof fn lemma_be_u16_in_concat(front: Seq<u8>, x: int, back: Seq<u8>)
    requires
        0 <= x < 0x1_0000,
    ensures
        spec_be_u16(front + spec_u16_be_bytes(x) + back, front.len() as int) == x,
{
    let s = front + spec_u16_be_bytes(x) + back;
    let at = front.len() as int;
    assert(s.subrange(at, at + 2) =~= spec_u16_be_bytes(x));
    lemma_u16_be_round_trip(x, s, at);
}

proof fn lemma_sidx_header_round_trip(sidx: SidxBoxView, body: Seq<u8>)
    requires
        sidx.flags < 0x100_0000,
    ensures
        ({
            let s = spec_sidx_header_bytes(sidx) + body;
            &&& spec_sidx_header_bytes(sidx).len() == 32
            &&& s.subrange(4, 8) == spec_sidx_tag()
            &&& spec_be_u32(s, 0) == sidx.size
            &&& spec_be_u32(s, 8) == sidx.version * 0x100_0000 + sidx.flags
            &&& spec_be_u32(s, 12) == sidx.reference_id
            &&& spec_be_u32(s, 16) == sidx.timescale
            &&& spec_be_u32(s, 20) == sidx.earliest_presentation_time
            &&& spec_be_u32(s, 24) == sidx.first_offset
            &&& spec_be_u16(s, 30) == sidx.entry_count
        }),
{
    let s = spec_sidx_header_bytes(sidx) + body;
    let size = spec_u32_be_bytes(sidx.size as int);
    let tag = spec_sidx_tag();
    let vf = spec_u32_be_bytes(sidx.version * 0x100_0000 + sidx.flags);
    let id = spec_u32_be_bytes(sidx.reference_id as int);
    let ts = spec_u32_be_bytes(sidx.timescale as int);
    let ept = spec_u32_be_bytes(sidx.earliest_presentation_time as int);
    let off = spec_u32_be_bytes(sidx.first_offset as int);
    let res = spec_u16_be_bytes(0);
    let cnt = spec_u16_be_bytes(sidx.entry_count as int);
    assert(s.subrange(4, 8) =~= tag);
    assert(spec_be_u32(s, 0) == sidx.size) by {
        let back = tag + vf + id + ts + ept + off + res + cnt + body;
        assert(s =~= Seq::<u8>::empty() + size + back);
        lemma_be_u32_in_concat(Seq::empty(), sidx.size as int, back);
    }
    assert(spec_be_u32(s, 8) == sidx.version * 0x100_0000 + sidx.flags) by {
        let back = id + ts + ept + off + res + cnt + body;
        assert(s =~= (size + tag) + vf + back);
        lemma_be_u32_in_concat(size + tag, sidx.version * 0x100_0000 + sidx.flags, back);
    }
    assert(spec_be_u32(s, 12) == sidx.reference_id) by {
        let back = ts + ept + off + res + cnt + body;
        assert(s =~= (size + tag + vf) + id + back);
        lemma_be_u32_in_concat(size + tag + vf, sidx.reference_id as int, back);
    }
    assert(spec_be_u32(s, 16) == sidx.timescale) by {
        let back = ept + off + res + cnt + body;
        assert(s =~= (size + tag + vf + id) + ts + back);
        lemma_be_u32_in_concat(size + tag + vf + id, sidx.timescale as int, back);
    }
    assert(spec_be_u32(s, 20) == sidx.earliest_presentation_time) by {
        let back = off + res + cnt + body;
        assert(s =~= (size + tag + vf + id + ts) + ept + back);
        lemma_be_u32_in_concat(
            size + tag + vf + id + ts,
            sidx.earliest_presentation_time as int,
            back,
        );
    }
    assert(spec_be_u32(s, 24) == sidx.first_offset) by {
        let back = res + cnt + body;
        assert(s =~= (size + tag + vf + id + ts + ept) + off + back);
        lemma_be_u32_in_concat(size + tag + vf + id + ts + ept, sidx.first_offset as int, back);
    }
    assert(spec_be_u16(s, 30) == sidx.entry_count) by {
        assert(s =~= (size + tag + vf + id + ts + ept + off + res) + cnt + body);
        lemma_be_u16_in_concat(
            size + tag + vf + id + ts + ept + off + res,
            sidx.entry_count as int,
            body,
        );
    }
}

proof fn lemma_sidx_entries_round_trip(front: Seq<u8>, entries: Seq<SidxEntry>)
    requires
        front.len() == SIDX_HEADER_LEN,
        forall|i: int| 0 <= i < entries.len() ==> spec_sidx_entry_wf(#[trigger] entries[i]),
    ensures
        forall|i: int|
            0 <= i < entries.len() ==> #[trigger] spec_sidx_entry(
                front + spec_sidx_entries_bytes(entries),
                SIDX_HEADER_LEN + SIDX_ENTRY_LEN * i,
            ) == entries[i],
{
    let body = spec_sidx_entries_bytes(entries);
    let s = front + body;
    lemma_sidx_entries_len(entries);
    assert forall|i: int| 0 <= i < entries.len() implies #[trigger] spec_sidx_entry(
        s,
        SIDX_HEADER_LEN + SIDX_ENTRY_LEN * i,
    ) == entries[i] by {
        lemma_sidx_entries_bytes(entries, i);
        let at = SIDX_HEADER_LEN + SIDX_ENTRY_LEN * i;
        assert(s.subrange(at, at + 12) =~= body.subrange(
            SIDX_ENTRY_LEN * i,
            SIDX_ENTRY_LEN * i + SIDX_ENTRY_LEN,
        ));
        lemma_sidx_entry_round_trip(entries[i], s, at);
    }
}

proof fn lemma_version_flags(version: u8, flags: u32)
    requires
        flags < 0x100_0000,
    ensures
        (version * 0x100_0000 + flags) / 0x100_0000 == version,
        (version * 0x100_0000 + flags) % 0x100_0000 == flags,
{
}

/// Reading the box written for a well-formed index gives that index back.
pub proof fn lemma_sidx_parse_serialize(sidx: SidxBoxView)
    requires
        spec_sidx_wf(sidx),
    ensures
        spec_parse_sidx(spec_serialize_sidx(sidx)) == Ok::<SidxBoxView, PlayerError>(sidx),
{
    let body = spec_sidx_entries_bytes(sidx.entries);
    let s = spec_serialize_sidx(sidx);
    lemma_sidx_entries_len(sidx.entries);
    lemma_sidx_header_round_trip(sidx, body);
    lemma_sidx_entries_round_trip(spec_sidx_header_bytes(sidx), sidx.entries);
    lemma_version_flags(sidx.version, sidx.flags);
    let parsed = spec_parse_sidx(s);
    assert(s.len() == SIDX_HEADER_LEN + SIDX_ENTRY_LEN * sidx.entries.len());
    assert(spec_sidx_entry_count(s) == sidx.entries.len());
    assert(parsed is Ok);
    assert(parsed->Ok_0.entries =~= sidx.entries);
}

/// Whatever is read from bytes is well formed.
pub proof fn lemma_sidx_parsed_is_wf(data: Seq<u8>)
    requires
        spec_parse_sidx(data) is Ok,
    ensures
        spec_sidx_wf(spec_parse_sidx(data)->Ok_0),
{
}

/// Reading a box, writing what was read and reading that again gives the
/// same fields as the first reading.
pub proof fn lemma_sidx_round_trip(data: Seq<u8>)
    requires
        spec_parse_sidx(data) is Ok,
    ensures
        spec_parse_sidx(spec_serialize_sidx(spec_parse_sidx(data)->Ok_0)) == spec_parse_sidx(data),
{
    lemma_sidx_parsed_is_wf(data);
    lemma_sidx_parse_serialize(spec_parse_sidx(data)->Ok_0);
}

/// Puts the Annex-B start code in front of one NAL unit.
pub fn apped_hevc_header(mut nalu_data: Vec<u8>) -> (nalu: Vec<u8>)
    ensures
        nalu@ == spec_start_code() + nalu_data@,
{
    let mut nalu: Vec<u8> = Vec::new();
    nalu.push(0x00);
    nalu.push(0x00);
    nalu.push(0x00);
    nalu.push(0x01);
    assert(nalu@ =~= spec_start_code());
    nalu.append(&mut nalu_data);
    nalu
}

/// The NAL units of a sample in Annex-B form.
///
/// A sample is a run of units, each a four-byte big-endian length and
/// then that many bytes of payload; each unit comes out as the start code
/// and its payload. There is no result where the bytes end inside a
/// length or inside a payload.
pub open spec fn spec_hevc_nalus(data: Seq<u8>) -> Option<Seq<Seq<u8>>>
    decreases data.len(),
{
    if data.len() == 0 {
        Some(Seq::empty())
    } else if data.len() < 4 || 4 + spec_be_u32(data, 0) > data.len() {
        None
    } else {
        let end = 4 + spec_be_u32(data, 0);
        match spec_hevc_nalus(data.skip(end)) {
            Some(rest) => Some(seq![spec_start_code() + data.subrange(4, end)] + rest),
            None => None,
        }
    }
}

/// Splits a length-prefixed sample into its NAL units, each with the
/// Annex-B start code in front.
pub fn parse_hevc_nalu(data: &[u8]) -> (result: Result<Vec<Vec<u8>>, PlayerError>)
    ensures
        match result {
            Ok(nalus) => spec_hevc_nalus(data@) == Some(nalus.deep_view()),
            Err(e) => e == PlayerError::ContainerParseError && spec_hevc_nalus(data@) is None,
        },
{
    let mut nalus: Vec<Vec<u8>> = Vec::new();
    let mut index: usize = 0;
    proof {
        assert(data@.skip(0) =~= data@);
        assert(nalus.deep_view() =~= Seq::<Seq<u8>>::empty());
        assert(Seq::<Seq<u8>>::empty() + spec_hevc_nalus(data@)->Some_0 =~= spec_hevc_nalus(
            data@,
        )->Some_0);
    }
    while index < data.len()
        invariant
            index <= data.len(),
            spec_hevc_nalus(data@) == match spec_hevc_nalus(data@.skip(index as int)) {
                Some(rest) => Some(nalus.deep_view() + rest),
                None => None,
            },
        decreases data.len() - index,
    {
        let ghost here = data@.skip(index as int);
        if data.len() - index < 4 {
            return Err(PlayerError::ContainerParseError);
        }
        let length_u32: u32 = (data[index] as u32) * 0x100_0000 + (data[index + 1] as u32)
            * 0x1_0000 + (data[index + 2] as u32) * 0x100 + (data[index + 3] as u32);
        assert(length_u32 == spec_be_u32(here, 0));
        let length: usize = length_u32 as usize;
        if length > data.len() - index - 4 {
            return Err(PlayerError::ContainerParseError);
        }
        let start: usize = index + 4;
        let end: usize = start + length;
        let mut nalu: Vec<u8> = Vec::new();
        nalu.push(0x00);
        nalu.push(0x00);
        nalu.push(0x00);
        nalu.push(0x01);
        let mut k: usize = start;
        while k < end
            invariant
                start <= k <= end <= data.len(),
                nalu@ == spec_start_code() + data@.subrange(start as int, k as int),
            decreases end - k,
        {
            nalu.push(data[k]);
            assert(data@.subrange(start as int, k + 1) =~= data@.subrange(start as int, k as int)
                .push(data@[k as int]));
            k = k + 1;
        }
        proof {
            assert(data@.subrange(start as int, end as int) =~= here.subrange(4, 4 + length));
            assert(here.skip(4 + length) =~= data@.skip(end as int));
        }
        let ghost before = nalus.deep_view();
        nalus.push(nalu);
        proof {
            assert(nalu.deep_view() =~= nalu@);
            assert(nalus.deep_view() =~= before + seq![nalu@]);
            match spec_hevc_nalus(data@.skip(end as int)) {
                Some(rest) => {
                    assert(before + (seq![nalu@] + rest) =~= nalus.deep_view() + rest);
                },
                None => {},
            }
        }
        index = end;
    }
    proof {
        assert(nalus.deep_view() + Seq::<Seq<u8>>::empty() =~= nalus.deep_view());
    }
    Ok(nalus)
}

/// The sampling frequency in hertz that an AAC frequency index stands
/// for; 44100 for an index outside the table.
pub open spec fn spec_aac_sampling_frequency(index: u8) -> u32 {
    if index == 0 {
        96000
    } else if index == 1 {
        88200
    } else if index == 2 {
        64000
    } else if index == 3 {
        48000
    } else if index == 4 {
        44100
    } else if index == 5 {
        32000
    } else if index == 6 {
        24000
    } else if index == 7 {
        22050
    } else if index == 8 {
        16000
    } else if index == 9 {
        12000
    } else if index == 10 {
        11025
    } else if index == 11 {
        8000
    } else if index == 12 {
        7350
    } else {
        44100
    }
}

/// Looks up the sampling frequency of an AAC frequency index.
pub fn aac_sampling_frequency_index_to_u32(index: u8) -> (frequency: u32)
    ensures
        frequency == spec_aac_sampling_frequency(index),
{
    match index {
        0 => 96000,
        1 => 88200,
        2 => 64000,
        3 => 48000,
        4 => 44100,
        5 => 32000,
        6 => 24000,
        7 => 22050,
        8 => 16000,
        9 => 12000,
        10 => 11025,
        11 => 8000,
        12 => 7350,
        _ => 44100,
    }
}

/// The framing header that announces an AAC stream to the decoder, for a
/// profile of at least 1. The sync word and the MPEG-4, no-CRC marker
/// come first; byte 2 holds the profile less one in its top two bits,
/// then the frequency index, then the top bit of the channel
/// configuration; byte 3 starts with the other two channel bits; the
/// frame length is spread over bytes 3 to 5; the buffer fullness is all
/// ones and the frame count zero.
pub open spec fn spec_adts_header(
    profile: u8,
    freq_index: u8,
    chan_conf: u8,
    frame_length: u32,
) -> Seq<u8> {
    seq![
        0xFFu8,
        0xF1u8,
        (((profile - 1) as u8) << 6) | (freq_index << 2) | ((chan_conf & 0x4) >> 2),
        ((chan_conf & 0x3) << 6) | (((frame_length >> 11) & 0x03) as u8),
        ((frame_length >> 3) & 0xFF) as u8,
        ((((frame_length & 0x07) as u8) << 5) | 0x1F),
        0xFCu8,
        0xFFu8,
    ]
}

/// Builds the AAC framing header, or nothing for profile 0, which the
/// header cannot express.
pub fn aac_adts_header(profile: u8, freq_index: u8, chan_conf: u8, frame_length: u32) -> (header:
    Option<[u8; 8]>)
    ensures
        header is Some <==> profile >= 1,
        header matches Some(bytes) ==> bytes@ == spec_adts_header(
            profile,
            freq_index,
            chan_conf,
            frame_length,
        ),
{
    if profile == 0 {
        return None;
    }
    let length_high: u32 = (frame_length >> 11) & 0x03;
    let length_mid: u32 = (frame_length >> 3) & 0xFF;
    let length_low: u32 = frame_length & 0x07;
    assert(length_high <= 0x03) by (bit_vector)
        requires
            length_high == (frame_length >> 11) & 0x03,
    ;
    assert(length_mid <= 0xFF) by (bit_vector)
        requires
            length_mid == (frame_length >> 3) & 0xFF,
    ;
    assert(length_low <= 0x07) by (bit_vector)
        requires
            length_low == frame_length & 0x07,
    ;
    let bytes: [u8; 8] = [
        0xFF,
        0xF1,
        ((profile - 1) << 6) | (freq_index << 2) | ((chan_conf & 0x4) >> 2),
        ((chan_conf & 0x3) << 6) | (length_high as u8),
        length_mid as u8,
        ((length_low as u8) << 5) | 0x1F,
        0xFC,
        0xFF,
    ];
    assert(bytes@ =~= spec_adts_header(profile, freq_index, chan_conf, frame_length));
    Some(bytes)
}

} // verus!
