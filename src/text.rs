//! Text rendering of decoded frames: one labelled, indented block per record.

use vstd::prelude::*;
use crate::fields::{DomainUuid, MacAddress};
use crate::frame::{decodes_to, lemma_decode_unique, FormatError, MRPCommonData, MRPData, MRPOptionData, MRPTLVData, MRPTLVHeader, MRPTestData};

verus! {

/// The lowercase hexadecimal digit for `d` (taken modulo 16).
pub open spec fn hex_digit(d: int) -> Seq<char> {
    let d = d % 16;
    if d == 0 { "0"@ } else if d == 1 { "1"@ } else if d == 2 { "2"@ } else if d == 3 { "3"@ }
    else if d == 4 { "4"@ } else if d == 5 { "5"@ } else if d == 6 { "6"@ } else if d == 7 { "7"@ }
    else if d == 8 { "8"@ } else if d == 9 { "9"@ } else if d == 10 { "a"@ } else if d == 11 { "b"@ }
    else if d == 12 { "c"@ } else if d == 13 { "d"@ } else if d == 14 { "e"@ } else { "f"@ }
}

/// The last `n` lowercase hexadecimal digits of `v`, zero-padded.
pub open spec fn hex_digits(v: nat, n: nat) -> Seq<char>
    decreases n,
{
    if n == 0 {
        Seq::empty()
    } else {
        hex_digits(v / 16, (n - 1) as nat) + hex_digit((v % 16) as int)
    }
}

/// The decimal digits of `v`, without padding.
pub open spec fn dec_digits(v: nat) -> Seq<char>
    decreases v,
{
    if v < 10 {
        hex_digit(v as int)
    } else {
        dec_digits(v / 10) + hex_digit((v % 10) as int)
    }
}

/// `v` as `0x` followed by `n` hexadecimal digits.
pub open spec fn hex_prefixed(v: nat, n: nat) -> Seq<char> {
    "0x"@ + hex_digits(v, n)
}

/// The bytes of `a` as two hex digits each, joined by colons.
pub open spec fn colon_hex(a: Seq<u8>) -> Seq<char>
    decreases a.len(),
{
    if a.len() == 0 {
        Seq::empty()
    } else if a.len() == 1 {
        hex_digits(a[0] as nat, 2)
    } else {
        colon_hex(a.drop_last()) + ":"@ + hex_digits(a.last() as nat, 2)
    }
}

/// The canonical hyphenated form of a 16-byte UUID: two hex digits per
/// byte, with a hyphen before the bytes at positions 4, 6, 8 and 10.
pub open spec fn uuid_text(b: Seq<u8>) -> Seq<char>
    decreases b.len(),
{
    if b.len() == 0 {
        Seq::empty()
    } else {
        let i = b.len() - 1;
        let sep = if i == 4 || i == 6 || i == 8 || i == 10 { "-"@ } else { Seq::empty() };
        uuid_text(b.drop_last()) + sep + hex_digits(b.last() as nat, 2)
    }
}

pub open spec fn test_text(t: MRPTestData) -> Seq<char> {
    "    MRP Test Data:\n      Prio: "@ + hex_prefixed(t.prio as nat, 4)
        + "\n      SA: "@ + colon_hex(t.sa.0@)
        + "\n      Port Role: "@ + hex_prefixed(t.port_role as nat, 4)
        + "\n      Ring State: "@ + hex_prefixed(t.ring_state as nat, 4)
        + "\n      Transition: "@ + hex_prefixed(t.transition as nat, 4)
        + "\n      Timestamp: "@ + hex_prefixed(t.timestamp as nat, 8) + "\n"@
}

pub open spec fn common_text(c: MRPCommonData) -> Seq<char> {
    "    MRP Common Data:\n      Sequence ID: "@ + hex_prefixed(c.sequence_id as nat, 4)
        + "\n      Domain UUID: "@ + uuid_text(c.domain_uuid.bytes@) + "\n"@
}

pub open spec fn option_text(o: MRPOptionData) -> Seq<char> {
    "    MRP Option Data:\n      Manufacturer OUI: "@ + colon_hex(o.manufacturer_oui@)
        + "\n      Ed1 Type: "@ + hex_prefixed(o.ed1_type as nat, 2)
        + "\n      Ed1 Manufacturer Data: "@ + hex_prefixed(o.ed1_manufacturer_data as nat, 4)
        + "\n"@
}

pub open spec fn body_text(d: MRPTLVData) -> Seq<char> {
    match d {
        MRPTLVData::MRPTest(t) => test_text(t),
        MRPTLVData::MRPCommon(c) => common_text(c),
        MRPTLVData::MRPOption(o) => option_text(o),
        MRPTLVData::MRPEnd => "  End of MRP Data\n"@,
    }
}

pub open spec fn header_text(h: MRPTLVHeader) -> Seq<char> {
    "  TLV Type: "@ + hex_prefixed(h.tlv_type as nat, 2) + ", Length: "@ + dec_digits(
        h.length as nat,
    ) + "\n  Data:\n"@ + body_text(h.data)
}

/// The blocks of the records `hs`, in order.
pub open spec fn headers_text(hs: Seq<MRPTLVHeader>) -> Seq<char>
    decreases hs.len(),
{
    if hs.len() == 0 {
        Seq::empty()
    } else {
        headers_text(hs.drop_last()) + header_text(hs.last())
    }
}

pub open spec fn frame_text(d: MRPData) -> Seq<char> {
    "MRP Version: "@ + hex_prefixed(d.version as nat, 4) + "\n"@ + headers_text(d.tlv_headers@)
}

fn digit_str(d: u32) -> (r: &'static str)
    requires
        d < 16,
    ensures
        r@ == hex_digit(d as int),
{
    if d == 0 { "0" } else if d == 1 { "1" } else if d == 2 { "2" } else if d == 3 { "3" }
    else if d == 4 { "4" } else if d == 5 { "5" } else if d == 6 { "6" } else if d == 7 { "7" }
    else if d == 8 { "8" } else if d == 9 { "9" } else if d == 10 { "a" } else if d == 11 { "b" }
    else if d == 12 { "c" } else if d == 13 { "d" } else if d == 14 { "e" } else { "f" }
}

fn append_hex(out: &mut String, v: u32, n: u32)
    ensures
        final(out)@ == old(out)@ + hex_digits(v as nat, n as nat),
    decreases n,
{
    if n == 0 {
        assert(hex_digits(v as nat, 0) =~= Seq::<char>::empty());
        assert(out@ =~= out@ + Seq::<char>::empty());
        return;
    }
    append_hex(out, v / 16, n - 1);
    out.append(digit_str(v % 16));
}

fn append_dec(out: &mut String, v: u32)
    ensures
        final(out)@ == old(out)@ + dec_digits(v as nat),
    decreases v,
{
    if v >= 10 {
        append_dec(out, v / 10);
    }
    out.append(digit_str(v % 10));
}

fn append_colon_hex(out: &mut String, a: &[u8])
    ensures
        final(out)@ == old(out)@ + colon_hex(a@),
{
    let ghost start = out@;
    let mut i: usize = 0;
    while i < a.len()
        invariant
            i <= a@.len(),
            out@ == start + colon_hex(a@.subrange(0, i as int)),
        decreases a@.len() - i,
    {
        let ghost prev = a@.subrange(0, i as int);
        if i > 0 {
            out.append(":");
        }
        append_hex(out, a[i] as u32, 2);
        proof {
            let next = a@.subrange(0, i + 1);
            assert(next.drop_last() =~= prev);
            if i == 0 {
                assert(prev =~= Seq::<u8>::empty());
                assert(start + Seq::<char>::empty() =~= start);
            }
        }
        i = i + 1;
    }
    assert(a@.subrange(0, a@.len() as int) =~= a@);
}

/// Relies on `uuid::Uuid`'s `Display`: the lowercase hyphenated form
/// (`Hyphenated`, written by `format_hyphenated`).
#[verifier::external_body]
fn uuid_to_string(b: &[u8; 16]) -> (r: String)
    ensures
        r@ == uuid_text(b@),
{
    uuid::Uuid::from_bytes(*b).to_string()
}

fn append_hex_prefixed(out: &mut String, v: u32, n: u32)
    ensures
        final(out)@ == old(out)@ + hex_prefixed(v as nat, n as nat),
{
    let ghost start = out@;
    out.append("0x");
    append_hex(out, v, n);
    assert(out@ =~= start + hex_prefixed(v as nat, n as nat));
}

impl MacAddress {
    /// Six lowercase hex octets joined by colons.
    pub fn to_string(&self) -> (r: String)
        ensures
            r@ == colon_hex(self.0@),
    {
        let mut out = String::new();
        append_colon_hex(&mut out, &self.0);
        out
    }
}

impl DomainUuid {
    /// The canonical hyphenated form, as the `uuid` crate writes it.
    pub fn to_string(&self) -> (r: String)
        ensures
            r@ == uuid_text(self.bytes@),
    {
        uuid_to_string(&self.bytes)
    }
}

impl MRPTestData {
    pub fn to_string(&self) -> (r: String)
        ensures
            r@ == test_text(*self),
    {
        let mut out = String::new();
        out.append("    MRP Test Data:\n      Prio: ");
        append_hex_prefixed(&mut out, self.prio as u32, 4);
        out.append("\n      SA: ");
        out.append(self.sa.to_string().as_str());
        out.append("\n      Port Role: ");
        append_hex_prefixed(&mut out, self.port_role as u32, 4);
        out.append("\n      Ring State: ");
        append_hex_prefixed(&mut out, self.ring_state as u32, 4);
        out.append("\n      Transition: ");
        append_hex_prefixed(&mut out, self.transition as u32, 4);
        out.append("\n      Timestamp: ");
        append_hex_prefixed(&mut out, self.timestamp, 8);
        out.append("\n");
        out
    }
}

impl MRPCommonData {
    pub fn to_string(&self) -> (r: String)
        ensures
            r@ == common_text(*self),
    {
        let mut out = String::new();
        out.append("    MRP Common Data:\n      Sequence ID: ");
        append_hex_prefixed(&mut out, self.sequence_id as u32, 4);
        out.append("\n      Domain UUID: ");
        out.append(self.domain_uuid.to_string().as_str());
        out.append("\n");
        out
    }
}

impl MRPOptionData {
    pub fn to_string(&self) -> (r: String)
        ensures
            r@ == option_text(*self),
    {
        let mut out = String::new();
        out.append("    MRP Option Data:\n      Manufacturer OUI: ");
        append_colon_hex(&mut out, &self.manufacturer_oui);
        out.append("\n      Ed1 Type: ");
        append_hex_prefixed(&mut out, self.ed1_type as u32, 2);
        out.append("\n      Ed1 Manufacturer Data: ");
        append_hex_prefixed(&mut out, self.ed1_manufacturer_data as u32, 4);
        out.append("\n");
        out
    }
}

impl MRPTLVData {
    pub fn to_string(&self) -> (r: String)
        ensures
            r@ == body_text(*self),
    {
        match self {
            MRPTLVData::MRPTest(t) => t.to_string(),
            MRPTLVData::MRPCommon(c) => c.to_string(),
            MRPTLVData::MRPOption(o) => o.to_string(),
            MRPTLVData::MRPEnd => String::from_str("  End of MRP Data\n"),
        }
    }
}

impl MRPTLVHeader {
    pub fn to_string(&self) -> (r: String)
        ensures
            r@ == header_text(*self),
    {
        let mut out = String::new();
        out.append("  TLV Type: ");
        append_hex_prefixed(&mut out, self.tlv_type as u32, 2);
        out.append(", Length: ");
        append_dec(&mut out, self.length as u32);
        out.append("\n  Data:\n");
        out.append(self.data.to_string().as_str());
        out
    }
}

impl MRPData {
    /// The version line, then one block per record in order.
    pub fn to_string(&self) -> (r: String)
        ensures
            r@ == frame_text(*self),
    {
        let mut out = String::new();
        out.append("MRP Version: ");
        append_hex_prefixed(&mut out, self.version as u32, 4);
        out.append("\n");
        let ghost start = out@;
        let mut i: usize = 0;
        assert(self.tlv_headers@.subrange(0, 0) =~= Seq::<MRPTLVHeader>::empty());
        assert(start + Seq::<char>::empty() =~= start);
        while i < self.tlv_headers.len()
            invariant
                i <= self.tlv_headers@.len(),
                out@ == start + headers_text(self.tlv_headers@.subrange(0, i as int)),
            decreases self.tlv_headers@.len() - i,
        {
            out.append(self.tlv_headers[i].to_string().as_str());
            proof {
                let next = self.tlv_headers@.subrange(0, i + 1);
                assert(next.drop_last() =~= self.tlv_headers@.subrange(0, i as int));
            }
            i = i + 1;
        }
        assert(self.tlv_headers@.subrange(0, i as int) =~= self.tlv_headers@);
        out
    }
}

/// Rendering a decoded payload is deterministic and never empty: whichever
/// result the decoder gives for the same bytes, a successful one renders to
/// the same non-empty text.
pub proof fn lemma_render_deterministic(
    data: Seq<u8>,
    r1: Result<MRPData, FormatError>,
    r2: Result<MRPData, FormatError>,
)
    requires
        decodes_to(data, r1),
        decodes_to(data, r2),
        r1 is Ok,
    ensures
        r2 is Ok,
        frame_text(r1->Ok_0) == frame_text(r2->Ok_0),
        frame_text(r1->Ok_0).len() > 0,
{
    lemma_decode_unique(data, r1, r2);
    reveal_strlit("MRP Version: ");
}

} // verus!
