//! Fixed-width field decoders: big-endian integers, hardware addresses and
//! the 16-byte domain identifier.

use vstd::prelude::*;

verus! {

/// The big-endian value of the two bytes of `s` starting at `i`.
pub open spec fn be16(s: Seq<u8>, i: int) -> int {
    s[i] as int * 256 + s[i + 1] as int
}

/// The big-endian value of the four bytes of `s` starting at `i`.
pub open spec fn be32(s: Seq<u8>, i: int) -> int {
    be16(s, i) * 65536 + be16(s, i + 2)
}

/// A 6-byte hardware (MAC) address, held verbatim.
#[derive(Debug, PartialEq, Eq)]
pub struct MacAddress(pub [u8; 6]);

/// A 16-byte domain identifier, laid out as an RFC 4122 UUID.
#[derive(Debug, PartialEq, Eq)]
pub struct DomainUuid {
    pub bytes: [u8; 16],
}

/// Reads a big-endian `u16` from the first two bytes of `data`.
pub fn parse_u16(data: &[u8]) -> (r: u16)
    requires
        data@.len() >= 2,
    ensures
        r as int == be16(data@, 0),
{
    (data[0] as u16) * 256 + (data[1] as u16)
}

/// Reads a big-endian `u32` from the first four bytes of `data`.
pub fn parse_u32(data: &[u8]) -> (r: u32)
    requires
        data@.len() >= 4,
    ensures
        r as int == be32(data@, 0),
{
    let hi = (data[0] as u32) * 256 + (data[1] as u32);
    let lo = (data[2] as u32) * 256 + (data[3] as u32);
    hi * 65536 + lo
}

/// Copies a hardware address out of a slice of exactly six bytes.
pub fn parse_mac_address(data: &[u8]) -> (r: MacAddress)
    requires
        data@.len() == 6,
    ensures
        r.0@ == data@,
{
    let a = [data[0], data[1], data[2], data[3], data[4], data[5]];
    assert(a@ =~= data@);
    MacAddress(a)
}

#[verifier::external_type_specification]
#[verifier::external_body]
pub struct ExUuidError(uuid::Error);

/// Relies on `uuid::Uuid::from_slice`: it succeeds exactly on a slice of
/// sixteen bytes and then holds those bytes in order (`Uuid::as_bytes`).
#[verifier::external_body]
fn uuid_from_slice(b: &[u8]) -> (r: Result<[u8; 16], uuid::Error>)
    ensures
        r is Ok <==> b@.len() == 16,
        r is Ok ==> r->Ok_0@ == b@,
{
    uuid::Uuid::from_slice(b).map(|u| *u.as_bytes())
}

/// Reads a domain identifier from a slice of sixteen bytes; `None` when the
/// slice has another length.
pub fn parse_uuid(data: &[u8]) -> (r: Option<DomainUuid>)
    ensures
        r is Some <==> data@.len() == 16,
        r is Some ==> r->Some_0.bytes@ == data@,
{
    match uuid_from_slice(data) {
        Ok(bytes) => Some(DomainUuid { bytes }),
        Err(_) => None,
    }
}

} // verus!
