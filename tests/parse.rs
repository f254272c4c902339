use mrp_decode::{parse_mac_address, parse_mrp_data, parse_u16, parse_u32, parse_uuid};
use mrp_decode::{FormatError, MRPTLVData, MacAddress};
use uuid::Uuid;

fn sample_payload() -> Vec<u8> {
    vec![
        0x00, 0x01, 0x02, 0x12, 0xa0, 0x00, 0x00, 0x0e, 0x8c, 0xe0, 0x2f, 0x22,
        0x00, 0x00, 0x00, 0x00, 0x00, 0x01, 0x19, 0xfa, 0x3f, 0xd4, 0x01, 0x12,
        0x05, 0x7e, 0xc3, 0xd6, 0x87, 0xfe, 0x78, 0x9e, 0x03, 0xa1, 0xac, 0xdb,
        0xe5, 0xbf, 0xcb, 0xbc, 0x27, 0xb6, 0x7f, 0x06, 0x08, 0x00, 0x06, 0x00,
        0x00, 0x00, 0x00, 0x00,
    ]
}

#[test]
fn test_parse_mac_address() {
    let mac_bytes = vec![0x00, 0x0e, 0x8c, 0xe0, 0x2f, 0x22];
    let mac = parse_mac_address(&mac_bytes);
    assert_eq!(mac, MacAddress([0x00, 0x0e, 0x8c, 0xe0, 0x2f, 0x22]));
}

#[test]
fn test_parse_u16() {
    let bytes = vec![0x12, 0x34];
    let value = parse_u16(&bytes);
    assert_eq!(value, 0x1234);
}

#[test]
fn test_parse_u32() {
    let bytes = vec![0x12, 0x34, 0x56, 0x78];
    let value = parse_u32(&bytes);
    assert_eq!(value, 0x12345678);
}

#[test]
fn test_parse_mrp_data() {
    let payload = sample_payload();

    let mrp_data = parse_mrp_data(&payload).expect("Failed to parse MRP data");

    assert_eq!(mrp_data.version, 0x0001);
    assert_eq!(mrp_data.tlv_headers.len(), 4);

    if let MRPTLVData::MRPTest(data) = &mrp_data.tlv_headers[0].data {
        assert_eq!(data.prio, 0xa000);
        assert_eq!(data.sa.to_string(), "00:0e:8c:e0:2f:22");
        assert_eq!(data.port_role, 0x0000);
        assert_eq!(data.ring_state, 0x0000);
        assert_eq!(data.transition, 0x0001);
        assert_eq!(data.timestamp, 0x19fa3fd4);
    } else {
        panic!("Expected MRPTest data");
    }

    if let MRPTLVData::MRPCommon(data) = &mrp_data.tlv_headers[1].data {
        assert_eq!(data.sequence_id, 0x057e);
        assert_eq!(
            Uuid::from_bytes(data.domain_uuid.bytes),
            Uuid::parse_str("c3d687fe-789e-03a1-acdb-e5bfcbbc27b6").unwrap()
        );
    } else {
        panic!("Expected MRPCommon data");
    }

    if let MRPTLVData::MRPOption(data) = &mrp_data.tlv_headers[2].data {
        assert_eq!(data.manufacturer_oui, [0x08, 0x00, 0x06]);
        assert_eq!(data.ed1_type, 0x00);
        assert_eq!(data.ed1_manufacturer_data, 0x0000);
    } else {
        panic!("Expected MRPOption data");
    }

    if let MRPTLVData::MRPEnd = &mrp_data.tlv_headers[3].data {
        // Correct end
    } else {
        panic!("Expected MRPEnd data");
    }
}

#[test]
fn sample_record_kinds_and_lengths() {
    let d = parse_mrp_data(&sample_payload()).unwrap();
    let kinds: Vec<u8> = d.tlv_headers.iter().map(|h| h.tlv_type).collect();
    let lengths: Vec<u8> = d.tlv_headers.iter().map(|h| h.length).collect();
    assert_eq!(kinds, vec![0x02, 0x01, 0x7f, 0x00]);
    assert_eq!(lengths, vec![18, 18, 6, 0]);
}

#[test]
fn read_u16_and_u32_use_only_leading_bytes() {
    assert_eq!(parse_u16(&[0xff, 0xfe, 0x01]), 0xfffe);
    assert_eq!(parse_u32(&[0xde, 0xad, 0xbe, 0xef, 0x00]), 0xdeadbeef);
    assert_eq!(parse_u16(&[0x00, 0x00]), 0);
}

#[test]
fn uuid_needs_sixteen_bytes() {
    let bytes: Vec<u8> = (1u8..=16).collect();
    let u = parse_uuid(&bytes).unwrap();
    assert_eq!(u.bytes.to_vec(), bytes);
    assert!(parse_uuid(&bytes[..15]).is_none());
    assert!(parse_uuid(&[]).is_none());
}

#[test]
fn empty_and_one_byte_buffers_are_too_short() {
    assert_eq!(parse_mrp_data(&[]), Err(FormatError::TooShort));
    assert_eq!(parse_mrp_data(&[0x00]), Err(FormatError::TooShort));
}

#[test]
fn version_only_gives_no_records() {
    let d = parse_mrp_data(&[0xbe, 0xef]).unwrap();
    assert_eq!(d.version, 0xbeef);
    assert!(d.tlv_headers.is_empty());
}

#[test]
fn unknown_kind_is_reported() {
    assert_eq!(
        parse_mrp_data(&[0x00, 0x01, 0x05, 0x00]),
        Err(FormatError::UnknownRecordKind(0x05))
    );
    assert_eq!(
        parse_mrp_data(&[0x00, 0x01, 0x00, 0x00, 0x03, 0x01, 0xaa]),
        Err(FormatError::UnknownRecordKind(0x03))
    );
}

#[test]
fn header_cut_off_is_too_short() {
    assert_eq!(parse_mrp_data(&[0x00, 0x01, 0x02]), Err(FormatError::TooShort));
}

#[test]
fn declared_length_past_end_is_too_short() {
    assert_eq!(
        parse_mrp_data(&[0x00, 0x01, 0x02, 0x12, 0x01, 0x02, 0x03]),
        Err(FormatError::TooShort)
    );
    let mut cut = sample_payload();
    cut.truncate(30);
    assert_eq!(parse_mrp_data(&cut), Err(FormatError::TooShort));
}

#[test]
fn short_test_record_is_malformed() {
    let mut buf = vec![0x00, 0x01, 0x02, 17];
    buf.extend(std::iter::repeat(0u8).take(17));
    assert_eq!(parse_mrp_data(&buf), Err(FormatError::MalformedRecord));
    assert_eq!(
        parse_mrp_data(&[0x00, 0x01, 0x02, 0x04, 1, 2, 3, 4]),
        Err(FormatError::MalformedRecord)
    );
}

#[test]
fn short_common_and_option_records_are_malformed() {
    let mut common = vec![0x00, 0x01, 0x01, 17];
    common.extend(std::iter::repeat(0u8).take(17));
    assert_eq!(parse_mrp_data(&common), Err(FormatError::MalformedRecord));
    assert_eq!(
        parse_mrp_data(&[0x00, 0x01, 0x7f, 0x05, 1, 2, 3, 4, 5]),
        Err(FormatError::MalformedRecord)
    );
}

#[test]
fn end_record_length_is_zero_and_decoding_goes_on() {
    let d = parse_mrp_data(&[0x00, 0x02, 0x00, 0x03, 9, 9, 9, 0x7f, 0x06, 1, 2, 3, 4, 0x12, 0x34])
        .unwrap();
    assert_eq!(d.version, 2);
    assert_eq!(d.tlv_headers.len(), 2);
    assert_eq!(d.tlv_headers[0].tlv_type, 0x00);
    assert_eq!(d.tlv_headers[0].length, 0);
    assert!(matches!(d.tlv_headers[0].data, MRPTLVData::MRPEnd));
    if let MRPTLVData::MRPOption(o) = &d.tlv_headers[1].data {
        assert_eq!(o.manufacturer_oui, [1, 2, 3]);
        assert_eq!(o.ed1_type, 4);
        assert_eq!(o.ed1_manufacturer_data, 0x1234);
    } else {
        panic!("expected an option record");
    }
}

#[test]
fn longer_bodies_are_accepted_and_skipped_whole() {
    let mut buf = vec![0x00, 0x01, 0x02, 20];
    buf.extend(1u8..=20);
    buf.extend([0x00, 0x00]);
    let d = parse_mrp_data(&buf).unwrap();
    assert_eq!(d.tlv_headers.len(), 2);
    assert_eq!(d.tlv_headers[0].length, 20);
    if let MRPTLVData::MRPTest(t) = &d.tlv_headers[0].data {
        assert_eq!(t.prio, 0x0102);
        assert_eq!(t.sa, MacAddress([3, 4, 5, 6, 7, 8]));
        assert_eq!(t.timestamp, 0x0f101112);
    } else {
        panic!("expected a test record");
    }
    assert!(matches!(d.tlv_headers[1].data, MRPTLVData::MRPEnd));
}

#[test]
fn decoding_twice_gives_equal_frames() {
    let a = parse_mrp_data(&sample_payload()).unwrap();
    let b = parse_mrp_data(&sample_payload()).unwrap();
    assert_eq!(a, b);
}
