//! The TLV frame decoder: a 16-bit version, then records of one kind byte,
//! one length byte and that many body bytes, until the buffer ends.

use vstd::prelude::*;
use crate::fields::{be16, be32, parse_mac_address, parse_u16, parse_u32, parse_uuid};
use crate::fields::{DomainUuid, MacAddress};

verus! {

/// Why a payload could not be decoded.
#[derive(Debug, Clone, Copy, PartialEq, Eq, Structural)]
pub enum FormatError {
    /// The buffer ends inside the version, a record header or a record body.
    TooShort,
    /// A record's kind byte is none of the four known kinds.
    UnknownRecordKind(u8),
    /// The domain identifier of a common record could not be read.
    MalformedUuid,
    /// A record's body is shorter than the fixed layout of its kind.
    MalformedRecord,
}

/// A decoded frame: its version and its records in wire order.
#[derive(Debug, PartialEq, Eq)]
pub struct MRPData {
    pub version: u16,
    pub tlv_headers: Vec<MRPTLVHeader>,
}

/// One record: its kind byte, its length and its decoded body.
#[derive(Debug, PartialEq, Eq)]
pub struct MRPTLVHeader {
    pub tlv_type: u8,
    pub length: u8,
    pub data: MRPTLVData,
}

/// The body of a record, by kind.
#[derive(Debug, PartialEq, Eq)]
pub enum MRPTLVData {
    MRPTest(MRPTestData),
    MRPCommon(MRPCommonData),
    MRPOption(MRPOptionData),
    MRPEnd,
}

/// The body of a test record.
#[derive(Debug, PartialEq, Eq)]
pub struct MRPTestData {
    pub prio: u16,
    pub sa: MacAddress,
    pub port_role: u16,
    pub ring_state: u16,
    pub transition: u16,
    pub timestamp: u32,
}

/// The body of a common record.
#[derive(Debug, PartialEq, Eq)]
pub struct MRPCommonData {
    pub sequence_id: u16,
    pub domain_uuid: DomainUuid,
}

/// The body of an option record.
#[derive(Debug, PartialEq, Eq)]
pub struct MRPOptionData {
    pub manufacturer_oui: [u8; 3],
    pub ed1_type: u8,
    pub ed1_manufacturer_data: u16,
}

pub const KIND_END: u8 = 0x00;
pub const KIND_COMMON: u8 = 0x01;
pub const KIND_TEST: u8 = 0x02;
pub const KIND_OPTION: u8 = 0x7f;

pub open spec fn known_kind(kind: u8) -> bool {
    kind == KIND_END || kind == KIND_COMMON || kind == KIND_TEST || kind == KIND_OPTION
}

/// The fewest body bytes that a record of a known kind must carry.
pub open spec fn min_body_len(kind: u8) -> int {
    if kind == KIND_TEST || kind == KIND_COMMON {
        18
    } else if kind == KIND_OPTION {
        6
    } else {
        0
    }
}

/// Splits `data` from offset `off` into the (kind, body) pairs of its
/// records, or gives the first structural fault met on the way.
pub open spec fn scan(data: Seq<u8>, off: int) -> Result<Seq<(u8, Seq<u8>)>, FormatError>
    decreases data.len() - off,
{
    if off < 0 || off >= data.len() {
        Ok(Seq::empty())
    } else if off + 2 > data.len() {
        Err(FormatError::TooShort)
    } else {
        let kind = data[off];
        let len = data[off + 1] as int;
        if off + 2 + len > data.len() {
            Err(FormatError::TooShort)
        } else if !known_kind(kind) {
            Err(FormatError::UnknownRecordKind(kind))
        } else if len < min_body_len(kind) {
            Err(FormatError::MalformedRecord)
        } else {
            match scan(data, off + 2 + len) {
                Ok(rest) => Ok(seq![(kind, data.subrange(off + 2, off + 2 + len))] + rest),
                Err(e) => Err(e),
            }
        }
    }
}

/// `h` is the record of the given kind decoded from `body`.
pub open spec fn header_matches(h: MRPTLVHeader, kind: u8, body: Seq<u8>) -> bool {
    &&& h.tlv_type == kind
    &&& if kind == KIND_END {
        h.length == 0 && h.data is MRPEnd
    } else {
        h.length as int == body.len() && match h.data {
            MRPTLVData::MRPTest(t) => kind == KIND_TEST && test_matches(t, body),
            MRPTLVData::MRPCommon(c) => kind == KIND_COMMON && common_matches(c, body),
            MRPTLVData::MRPOption(o) => kind == KIND_OPTION && option_matches(o, body),
            MRPTLVData::MRPEnd => false,
        }
    }
}

pub open spec fn test_matches(t: MRPTestData, body: Seq<u8>) -> bool {
    &&& t.prio as int == be16(body, 0)
    &&& t.sa.0@ == body.subrange(2, 8)
    &&& t.port_role as int == be16(body, 8)
    &&& t.ring_state as int == be16(body, 10)
    &&& t.transition as int == be16(body, 12)
    &&& t.timestamp as int == be32(body, 14)
}

pub open spec fn common_matches(c: MRPCommonData, body: Seq<u8>) -> bool {
    &&& c.sequence_id as int == be16(body, 0)
    &&& c.domain_uuid.bytes@ == body.subrange(2, 18)
}

pub open spec fn option_matches(o: MRPOptionData, body: Seq<u8>) -> bool {
    &&& o.manufacturer_oui@ == body.subrange(0, 3)
    &&& o.ed1_type == body[3]
    &&& o.ed1_manufacturer_data as int == be16(body, 4)
}

/// `hs` are the records decoded, one for one, from the pairs `raw`.
pub open spec fn headers_match(hs: Seq<MRPTLVHeader>, raw: Seq<(u8, Seq<u8>)>) -> bool {
    &&& hs.len() == raw.len()
    &&& forall|i: int| 0 <= i < hs.len() ==> header_matches(#[trigger] hs[i], raw[i].0, raw[i].1)
}

/// What decoding `data` gives: `TooShort` without room for the version,
/// else the first fault of the record scan, else a frame whose records are
/// those of the scan.
pub open spec fn decodes_to(data: Seq<u8>, r: Result<MRPData, FormatError>) -> bool {
    if data.len() < 2 {
        r == Err::<MRPData, FormatError>(FormatError::TooShort)
    } else {
        match scan(data, 2) {
            Err(e) => r == Err::<MRPData, FormatError>(e),
            Ok(raw) => r is Ok && r->Ok_0.version as int == be16(data, 0)
                && headers_match(r->Ok_0.tlv_headers@, raw),
        }
    }
}

spec fn prepend(done: Seq<(u8, Seq<u8>)>, r: Result<Seq<(u8, Seq<u8>)>, FormatError>) -> Result<
    Seq<(u8, Seq<u8>)>,
    FormatError,
> {
    match r {
        Ok(rest) => Ok(done + rest),
        Err(e) => Err(e),
    }
}

/// Decodes the body of one record of a known kind whose body is long
/// enough for that kind.
fn parse_record(kind: u8, body: &[u8]) -> (r: Result<MRPTLVHeader, FormatError>)
    requires
        known_kind(kind),
        body@.len() >= min_body_len(kind),
        body@.len() < 256,
    ensures
        r is Ok,
        r is Ok ==> header_matches(r->Ok_0, kind, body@),
{
    let length = body.len() as u8;
    if kind == KIND_TEST {
        let data = MRPTLVData::MRPTest(
            MRPTestData {
                prio: parse_u16(slice_range(body, 0, 2)),
                sa: parse_mac_address(slice_range(body, 2, 8)),
                port_role: parse_u16(slice_range(body, 8, 10)),
                ring_state: parse_u16(slice_range(body, 10, 12)),
                transition: parse_u16(slice_range(body, 12, 14)),
                timestamp: parse_u32(slice_range(body, 14, 18)),
            },
        );
        Ok(MRPTLVHeader { tlv_type: kind, length, data })
    } else if kind == KIND_COMMON {
        let sequence_id = parse_u16(slice_range(body, 0, 2));
        let domain_uuid = match parse_uuid(slice_range(body, 2, 18)) {
            Some(u) => u,
            None => return Err(FormatError::MalformedUuid),
        };
        let data = MRPTLVData::MRPCommon(MRPCommonData { sequence_id, domain_uuid });
        Ok(MRPTLVHeader { tlv_type: kind, length, data })
    } else if kind == KIND_OPTION {
        let oui = [body[0], body[1], body[2]];
        assert(oui@ =~= body@.subrange(0, 3));
        let data = MRPTLVData::MRPOption(
            MRPOptionData {
                manufacturer_oui: oui,
                ed1_type: body[3],
                ed1_manufacturer_data: parse_u16(slice_range(body, 4, 6)),
            },
        );
        Ok(MRPTLVHeader { tlv_type: kind, length, data })
    } else {
        Ok(MRPTLVHeader { tlv_type: kind, length: 0, data: MRPTLVData::MRPEnd })
    }
}

/// The bytes of `s` from `lo` up to `hi`.
fn slice_range(s: &[u8], lo: usize, hi: usize) -> (r: &[u8])
    requires
        lo <= hi <= s@.len(),
    ensures
        r@ == s@.subrange(lo as int, hi as int),
{
    vstd::slice::slice_subrange(s, lo, hi)
}

/// Decodes an MRP payload into its version and records.
pub fn parse_mrp_data(data: &[u8]) -> (r: Result<MRPData, FormatError>)
    ensures
        decodes_to(data@, r),
{
    if data.len() < 2 {
        return Err(FormatError::TooShort);
    }
    let version = parse_u16(slice_range(data, 0, 2));
    let mut offset: usize = 2;
    let mut tlv_headers: Vec<MRPTLVHeader> = Vec::new();
    let ghost mut done: Seq<(u8, Seq<u8>)> = Seq::empty();
    while offset < data.len()
        invariant
            2 <= offset <= data@.len(),
            version as int == be16(data@, 0),
            scan(data@, 2) == prepend(done, scan(data@, offset as int)),
            headers_match(tlv_headers@, done),
        decreases data@.len() - offset,
    {
        if data.len() - offset < 2 {
            return Err(FormatError::TooShort);
        }
        let kind = data[offset];
        let length = data[offset + 1] as usize;
        if data.len() - offset - 2 < length {
            return Err(FormatError::TooShort);
        }
        if !(kind == KIND_END || kind == KIND_COMMON || kind == KIND_TEST || kind == KIND_OPTION) {
            return Err(FormatError::UnknownRecordKind(kind));
        }
        let need: usize = if kind == KIND_TEST || kind == KIND_COMMON {
            18
        } else if kind == KIND_OPTION {
            6
        } else {
            0
        };
        if length < need {
            return Err(FormatError::MalformedRecord);
        }
        let body = slice_range(data, offset + 2, offset + 2 + length);
        let header = match parse_record(kind, body) {
            Ok(h) => h,
            Err(e) => return Err(e),
        };
        let ghost next = offset + 2 + length;
        proof {
            let item = (kind, body@);
            assert(scan(data@, offset as int) == prepend(seq![item], scan(data@, next)));
            match scan(data@, next) {
                Ok(rest) => {
                    assert(done + (seq![item] + rest) =~= done.push(item) + rest);
                },
                Err(e) => {},
            }
        }
        tlv_headers.push(header);
        proof {
            done = done.push((kind, body@));
        }
        offset = offset + 2 + length;
    }
    proof {
        assert(done + Seq::<(u8, Seq<u8>)>::empty() =~= done);
    }
    Ok(MRPData { version, tlv_headers })
}

/// A record is fixed by its kind and body: two records decoded from the
/// same pair are equal.
pub proof fn lemma_header_unique(h1: MRPTLVHeader, h2: MRPTLVHeader, kind: u8, body: Seq<u8>)
    requires
        header_matches(h1, kind, body),
        header_matches(h2, kind, body),
    ensures
        h1 == h2,
{
    match (h1.data, h2.data) {
        (MRPTLVData::MRPTest(t1), MRPTLVData::MRPTest(t2)) => {
            assert(t1.sa.0 =~= t2.sa.0);
        },
        (MRPTLVData::MRPCommon(c1), MRPTLVData::MRPCommon(c2)) => {
            assert(c1.domain_uuid.bytes =~= c2.domain_uuid.bytes);
        },
        (MRPTLVData::MRPOption(o1), MRPTLVData::MRPOption(o2)) => {
            assert(o1.manufacturer_oui =~= o2.manufacturer_oui);
        },
        _ => {},
    }
}

/// Decoding is a function of the payload: any two results that the
/// decoder's contract admits for the same bytes are the same error, or
/// frames with the same version and the same records.
pub proof fn lemma_decode_unique(data: Seq<u8>, r1: Result<MRPData, FormatError>, r2: Result<MRPData, FormatError>)
    requires
        decodes_to(data, r1),
        decodes_to(data, r2),
    ensures
        r1 is Ok <==> r2 is Ok,
        r1 is Err ==> r1 == r2,
        r1 is Ok ==> r1->Ok_0.version == r2->Ok_0.version && r1->Ok_0.tlv_headers@
            == r2->Ok_0.tlv_headers@,
{
    if data.len() >= 2 {
        if let Ok(raw) = scan(data, 2) {
            let d1 = r1->Ok_0;
            let d2 = r2->Ok_0;
            assert forall|i: int| 0 <= i < d1.tlv_headers@.len() implies d1.tlv_headers@[i]
                == d2.tlv_headers@[i] by {
                lemma_header_unique(d1.tlv_headers@[i], d2.tlv_headers@[i], raw[i].0, raw[i].1);
            }
            assert(d1.tlv_headers@ =~= d2.tlv_headers@);
        }
    }
}

/// Scanning a buffer that extends `p` goes through the records of `p`
/// unchanged, then on from the end of `p`.
proof fn lemma_scan_concat(p: Seq<u8>, s: Seq<u8>, off: int)
    requires
        0 <= off <= p.len(),
        scan(p, off) is Ok,
    ensures
        scan(p + s, off) == prepend(scan(p, off)->Ok_0, scan(p + s, p.len() as int)),
    decreases p.len() - off,
{
    let d = p + s;
    if off == p.len() {
        if let Ok(rest) = scan(d, off) {
            assert(Seq::<(u8, Seq<u8>)>::empty() + rest =~= rest);
        }
    } else {
        let len = p[off + 1] as int;
        let next = off + 2 + len;
        assert(d[off] == p[off]);
        assert(d[off + 1] == p[off + 1]);
        assert(d.subrange(off + 2, next) =~= p.subrange(off + 2, next));
        lemma_scan_concat(p, s, next);
        let item = (p[off], p.subrange(off + 2, next));
        let mid = scan(p, next)->Ok_0;
        if let Ok(rest) = scan(d, p.len() as int) {
            assert(seq![item] + (mid + rest) =~= (seq![item] + mid) + rest);
        }
    }
}

/// After the version and whole, well-formed records, a record header with
/// a known or unknown kind whose declared body runs past the end of the
/// buffer makes the decode fail with `TooShort`.
pub proof fn lemma_overlong_body_fails(
    head: Seq<u8>,
    kind: u8,
    len: u8,
    tail: Seq<u8>,
    r: Result<MRPData, FormatError>,
)
    requires
        head.len() >= 2,
        scan(head, 2) is Ok,
        tail.len() < len,
        decodes_to(head + (seq![kind, len] + tail), r),
    ensures
        r == Err::<MRPData, FormatError>(FormatError::TooShort),
{
    let rec = seq![kind, len] + tail;
    lemma_scan_concat(head, rec, 2);
    let d = head + rec;
    assert(d[head.len() as int] == kind);
    assert(d[head.len() + 1int] == len);
}

/// After the version and whole, well-formed records, a complete record
/// whose kind byte is none of the four known kinds makes the decode fail
/// with `UnknownRecordKind` of that byte.
pub proof fn lemma_unknown_kind_fails(
    head: Seq<u8>,
    kind: u8,
    len: u8,
    tail: Seq<u8>,
    r: Result<MRPData, FormatError>,
)
    requires
        head.len() >= 2,
        scan(head, 2) is Ok,
        !known_kind(kind),
        tail.len() >= len,
        decodes_to(head + (seq![kind, len] + tail), r),
    ensures
        r == Err::<MRPData, FormatError>(FormatError::UnknownRecordKind(kind)),
{
    let rec = seq![kind, len] + tail;
    lemma_scan_concat(head, rec, 2);
    let d = head + rec;
    assert(d[head.len() as int] == kind);
    assert(d[head.len() + 1int] == len);
}

/// After the version and whole, well-formed records, a complete record of a
/// known kind whose body is shorter than that kind's fixed layout (18 bytes
/// for test and common records, 6 for option records) makes the decode fail
/// with `MalformedRecord`; nothing past its body is read.
pub proof fn lemma_short_body_fails(
    head: Seq<u8>,
    kind: u8,
    len: u8,
    tail: Seq<u8>,
    r: Result<MRPData, FormatError>,
)
    requires
        head.len() >= 2,
        scan(head, 2) is Ok,
        known_kind(kind),
        len < min_body_len(kind),
        tail.len() >= len,
        decodes_to(head + (seq![kind, len] + tail), r),
    ensures
        r == Err::<MRPData, FormatError>(FormatError::MalformedRecord),
{
    let rec = seq![kind, len] + tail;
    lemma_scan_concat(head, rec, 2);
    let d = head + rec;
    assert(d[head.len() as int] == kind);
    assert(d[head.len() + 1int] == len);
}

} // verus!
