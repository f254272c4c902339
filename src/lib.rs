//! Decoder for Media Redundancy Protocol (MRP) frame payloads: a 16-bit
//! version followed by type-length-value records, with a text rendering of
//! the decoded structure.

pub mod fields;
pub mod frame;
pub mod text;

pub use fields::{parse_mac_address, parse_u16, parse_u32, parse_uuid, DomainUuid, MacAddress};
pub use frame::{parse_mrp_data, FormatError, MRPCommonData, MRPData, MRPOptionData};
pub use frame::{MRPTLVData, MRPTLVHeader, MRPTestData};
