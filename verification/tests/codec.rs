//! Exact checks of the value codec, the field-specifier wire form, and
//! every error the framer can report.

use ipfixrw::framer::parse_field_spec;
use ipfixrw::{ExpandedFieldSpecifier, Template};
use ipfixrw::values::{read_value, write_value};
use ipfixrw::{
    get_default_formatter, parse_ipfix_message, write_ipfix_message, DataRecord, DataRecordKey,
    DataRecordType, DataRecordValue, IpfixError, Message, RecordSet, Records, TemplateRecord,
    TemplateStore,
};

// --- variable-length encoding -------------------------------------------

#[test]
fn variable_length_short_form() {
    let payload: Vec<u8> = (0..200u8).collect();
    let mut out: Vec<u8> = Vec::new();
    write_value(
        &DataRecordValue::Bytes(payload.clone()),
        0xFFFF,
        &mut out,
    )
    .unwrap();
    assert_eq!(out.len(), payload.len() + 1);
    assert_eq!(out[0], 200);
    assert_eq!(&out[1..], payload.as_slice());

    let (v, p) = read_value(DataRecordType::Bytes, 0xFFFF, &out, 0, out.len()).unwrap();
    assert_eq!(v, DataRecordValue::Bytes(payload));
    assert_eq!(p, out.len());
}

#[test]
fn variable_length_long_form() {
    let payload: Vec<u8> = vec![0xAB; 300];
    let mut out: Vec<u8> = Vec::new();
    write_value(
        &DataRecordValue::Bytes(payload.clone()),
        0xFFFF,
        &mut out,
    )
    .unwrap();
    assert_eq!(out.len(), payload.len() + 3);
    assert_eq!(out[0], 255);
    assert_eq!(out[1], 1); // 300 = 0x012C
    assert_eq!(out[2], 0x2C);
    assert_eq!(&out[3..], payload.as_slice());

    let (v, p) = read_value(DataRecordType::Bytes, 0xFFFF, &out, 0, out.len()).unwrap();
    assert_eq!(v, DataRecordValue::Bytes(payload));
    assert_eq!(p, out.len());
}

#[test]
fn variable_length_boundary_255() {
    let payload: Vec<u8> = vec![7; 255];
    let mut out: Vec<u8> = Vec::new();
    write_value(
        &DataRecordValue::Bytes(payload.clone()),
        0xFFFF,
        &mut out,
    )
    .unwrap();
    assert_eq!(out.len(), 255 + 3);
    assert_eq!(out[0], 255);
    assert_eq!(out[1], 0);
    assert_eq!(out[2], 255);

    let payload254: Vec<u8> = vec![7; 254];
    let mut out254: Vec<u8> = Vec::new();
    write_value(
        &DataRecordValue::Bytes(payload254.clone()),
        0xFFFF,
        &mut out254,
    )
    .unwrap();
    assert_eq!(out254.len(), 254 + 1);
    assert_eq!(out254[0], 254);
}

#[test]
fn variable_length_overflow_on_write() {
    let payload: Vec<u8> = vec![0; 0xFFFF - 2];
    let mut out: Vec<u8> = Vec::new();
    let r = write_value(&DataRecordValue::Bytes(payload), 0xFFFF, &mut out);
    assert!(matches!(
        r,
        Err(IpfixError::VariableLengthOverflow { len: 0xFFFD })
    ));
    assert!(out.is_empty());
}

#[test]
fn non_variable_value_in_variable_slot() {
    let mut out: Vec<u8> = Vec::new();
    let r = write_value(&DataRecordValue::U32(5), 0xFFFF, &mut out);
    assert!(matches!(r, Err(IpfixError::NonVariableValue)));
    assert!(out.is_empty());
}

// --- fixed-width values --------------------------------------------------

#[test]
fn unsigned_widths() {
    let b = [0x01u8, 0x02, 0x03, 0x04, 0x05, 0x06, 0x07, 0x08];
    assert_eq!(
        read_value(DataRecordType::UnsignedInt, 1, &b, 0, 8).unwrap(),
        (DataRecordValue::U8(1), 1)
    );
    assert_eq!(
        read_value(DataRecordType::UnsignedInt, 2, &b, 0, 8).unwrap(),
        (DataRecordValue::U16(0x0102), 2)
    );
    assert_eq!(
        read_value(DataRecordType::UnsignedInt, 4, &b, 0, 8).unwrap(),
        (DataRecordValue::U32(0x01020304), 4)
    );
    assert_eq!(
        read_value(DataRecordType::UnsignedInt, 8, &b, 0, 8).unwrap(),
        (DataRecordValue::U64(0x0102030405060708), 8)
    );
}

#[test]
fn signed_negative_round_trip() {
    let b = [0xFFu8, 0xFE];
    let (v, _) = read_value(DataRecordType::SignedInt, 2, &b, 0, 2).unwrap();
    assert_eq!(v, DataRecordValue::I16(-2));
    let mut out: Vec<u8> = Vec::new();
    write_value(&v, 2, &mut out).unwrap();
    assert_eq!(out, vec![0xFF, 0xFE]);
}

#[test]
fn float_bits_preserved() {
    // 1.0f32 in IEEE 754 bits, read back bit-exactly
    let b = [0x3Fu8, 0x80, 0x00, 0x00];
    let (v, _) = read_value(DataRecordType::Float, 4, &b, 0, 4).unwrap();
    assert_eq!(v, DataRecordValue::F32(0x3F800000));
    assert_eq!(f32::from_bits(0x3F800000), 1.0f32);
    let mut out: Vec<u8> = Vec::new();
    write_value(&v, 4, &mut out).unwrap();
    assert_eq!(out, b.to_vec());
}

#[test]
fn bool_encoding() {
    assert_eq!(
        read_value(DataRecordType::Bool, 1, &[1], 0, 1).unwrap().0,
        DataRecordValue::Bool(true)
    );
    assert_eq!(
        read_value(DataRecordType::Bool, 1, &[2], 0, 1).unwrap().0,
        DataRecordValue::Bool(false)
    );
    // any other byte is coerced to false on read
    assert_eq!(
        read_value(DataRecordType::Bool, 1, &[7], 0, 1).unwrap().0,
        DataRecordValue::Bool(false)
    );
    let mut out: Vec<u8> = Vec::new();
    write_value(&DataRecordValue::Bool(true), 1, &mut out).unwrap();
    write_value(&DataRecordValue::Bool(false), 1, &mut out).unwrap();
    assert_eq!(out, vec![1, 2]);
}

#[test]
fn addresses_and_times() {
    let mac = [1u8, 2, 3, 4, 5, 6];
    assert_eq!(
        read_value(DataRecordType::MacAddress, 6, &mac, 0, 6).unwrap().0,
        DataRecordValue::MacAddress(mac)
    );
    let v4 = [172u8, 19, 219, 50];
    assert_eq!(
        read_value(DataRecordType::Ipv4Addr, 4, &v4, 0, 4).unwrap().0,
        DataRecordValue::Ipv4Addr(v4)
    );
    let v6 = [0u8, 1, 2, 3, 4, 5, 6, 7, 8, 9, 10, 11, 12, 13, 14, 15];
    assert_eq!(
        read_value(DataRecordType::Ipv6Addr, 16, &v6, 0, 16).unwrap().0,
        DataRecordValue::Ipv6Addr(v6)
    );
    let t = [0x47u8, 0x95, 0x32, 0x54];
    assert_eq!(
        read_value(DataRecordType::DateTimeSeconds, 4, &t, 0, 4).unwrap().0,
        DataRecordValue::DateTimeSeconds(1200960084)
    );
    let ms = [0x00u8, 0x00, 0x01, 0x58, 0x8D, 0x64, 0xFA, 0x78];
    assert_eq!(
        read_value(DataRecordType::DateTimeMilliseconds, 8, &ms, 0, 8)
            .unwrap()
            .0,
        DataRecordValue::DateTimeMilliseconds(1479840955000)
    );
}

#[test]
fn strings_fixed_and_variable() {
    let b = b"abc";
    let (v, p) = read_value(DataRecordType::String, 3, b, 0, 3).unwrap();
    assert_eq!(v, DataRecordValue::String("abc".to_string()));
    assert_eq!(p, 3);

    let mut out: Vec<u8> = Vec::new();
    write_value(
        &DataRecordValue::String("hello".to_string()),
        0xFFFF,
        &mut out,
    )
    .unwrap();
    assert_eq!(out, vec![5, b'h', b'e', b'l', b'l', b'o']);
    let (v2, _) = read_value(DataRecordType::String, 0xFFFF, &out, 0, out.len()).unwrap();
    assert_eq!(v2, DataRecordValue::String("hello".to_string()));
}

// --- value codec errors --------------------------------------------------

#[test]
fn type_length_error() {
    let b = [0u8; 8];
    let r = read_value(DataRecordType::UnsignedInt, 3, &b, 0, 8);
    assert!(matches!(
        r,
        Err(IpfixError::TypeLength {
            pos: 0,
            ty: DataRecordType::UnsignedInt,
            length: 3
        })
    ));
}

#[test]
fn invalid_utf8_error() {
    let b = [0xFFu8, 0xFF];
    let r = read_value(DataRecordType::String, 2, &b, 0, 2);
    assert!(matches!(r, Err(IpfixError::InvalidUtf8 { pos: 2 })));
}

#[test]
fn unexpected_eof_error() {
    let b = [0u8, 1];
    let r = read_value(DataRecordType::UnsignedInt, 4, &b, 0, 2);
    assert!(matches!(r, Err(IpfixError::UnexpectedEof { pos: 0 })));
}

// --- field specifiers ----------------------------------------------------

#[test]
fn field_spec_enterprise_bit() {
    // high bit set: enterprise number follows
    let b = [0x80u8, 0x02, 0xFF, 0xFF, 0x00, 0x00, 0x76, 0x8F];
    let (fs, p) = parse_field_spec(&b, 0, 8).unwrap();
    assert_eq!(fs.information_element_identifier, 2);
    assert_eq!(fs.field_length, 0xFFFF);
    assert_eq!(fs.enterprise_number, Some(30351));
    assert_eq!(p, 8);

    // high bit clear: no enterprise number
    let b2 = [0x00u8, 0x96, 0x00, 0x04];
    let (fs2, p2) = parse_field_spec(&b2, 0, 4).unwrap();
    assert_eq!(fs2.information_element_identifier, 150);
    assert_eq!(fs2.field_length, 4);
    assert_eq!(fs2.enterprise_number, None);
    assert_eq!(p2, 4);
}

// --- framer errors -------------------------------------------------------

fn header(len: u16) -> Vec<u8> {
    let mut b = vec![0x00, 0x0A];
    b.extend_from_slice(&len.to_be_bytes());
    b.extend_from_slice(&[0, 0, 0, 1, 0, 0, 0, 2, 0, 0, 0, 3]);
    b
}

#[test]
fn bad_magic() {
    let mut templates = TemplateStore::new();
    let formatter = get_default_formatter();
    let b = [0x00u8, 0x09, 0, 16, 0, 0, 0, 0, 0, 0, 0, 0, 0, 0, 0, 0];
    let r = parse_ipfix_message(&b, &mut templates, &formatter);
    assert!(matches!(r, Err(IpfixError::BadMagic { pos: 0 })));
}

#[test]
fn short_set() {
    let mut templates = TemplateStore::new();
    let formatter = get_default_formatter();
    let mut b = header(24);
    b.extend_from_slice(&[0x00, 0x02, 0x00, 0x04, 0, 0, 0, 0]);
    let r = parse_ipfix_message(&b, &mut templates, &formatter);
    assert!(matches!(r, Err(IpfixError::ShortSet { pos: 16, length: 4 })));
}

#[test]
fn reserved_set_id() {
    let mut templates = TemplateStore::new();
    let formatter = get_default_formatter();
    let mut b = header(24);
    b.extend_from_slice(&[0x00, 0x05, 0x00, 0x08, 0, 0, 0, 0]);
    let r = parse_ipfix_message(&b, &mut templates, &formatter);
    assert!(matches!(
        r,
        Err(IpfixError::ReservedSetId { pos: 16, set_id: 5 })
    ));
}

#[test]
fn reserved_template_id() {
    let mut templates = TemplateStore::new();
    let formatter = get_default_formatter();
    let mut b = header(24);
    // template set whose record uses reserved template id 100
    b.extend_from_slice(&[0x00, 0x02, 0x00, 0x08, 0x00, 0x64, 0x00, 0x00]);
    let r = parse_ipfix_message(&b, &mut templates, &formatter);
    assert!(matches!(
        r,
        Err(IpfixError::ReservedTemplateId {
            pos: 20,
            template_id: 100
        })
    ));
}

#[test]
fn missing_template() {
    let mut templates = TemplateStore::new();
    let formatter = get_default_formatter();
    let mut b = header(24);
    b.extend_from_slice(&[0x03, 0xE7, 0x00, 0x08, 0, 0, 0, 0]);
    let r = parse_ipfix_message(&b, &mut templates, &formatter);
    assert!(matches!(
        r,
        Err(IpfixError::MissingTemplate {
            pos: 20,
            set_id: 999
        })
    ));
}

#[test]
fn truncated_set_is_an_error() {
    let mut templates = TemplateStore::new();
    let formatter = get_default_formatter();
    let mut b = header(40);
    // set declares 24 bytes but only 4 follow
    b.extend_from_slice(&[0x00, 0x02, 0x00, 0x18]);
    let r = parse_ipfix_message(&b, &mut templates, &formatter);
    assert!(matches!(r, Err(IpfixError::UnexpectedEof { pos: 16 })));
}

#[test]
fn trailing_bytes_beyond_declared_length_are_tolerated() {
    let mut templates = TemplateStore::new();
    let formatter = get_default_formatter();
    // declared length 16: anything after the header is ignored
    let mut b = header(16);
    b.extend_from_slice(&[0xDE, 0xAD]);
    let m = parse_ipfix_message(&b, &mut templates, &formatter).unwrap();
    assert_eq!(m.sets.len(), 0);
    assert_eq!(m.sequence_number, 2);
}

#[test]
fn missing_field_on_write() {
    let mut templates = TemplateStore::new();
    let formatter = get_default_formatter();
    // install template 500 expecting protocolIdentifier (one byte)
    let mut b = header(28);
    b.extend_from_slice(&[
        0x00, 0x02, 0x00, 0x0C, 0x01, 0xF4, 0x00, 0x01, 0x00, 0x04, 0x00, 0x01,
    ]);
    parse_ipfix_message(&b, &mut templates, &formatter).unwrap();

    let message = Message {
        export_time: 0,
        sequence_number: 0,
        observation_domain_id: 0,
        sets: vec![RecordSet {
            records: Records::Data {
                set_id: 500,
                data: vec![DataRecord::new()],
            },
        }],
    };
    let r = write_ipfix_message(&message, &templates, 1);
    match r {
        Err(IpfixError::MissingField { key }) => {
            assert_eq!(key, DataRecordKey::Str("protocolIdentifier".to_string()));
        }
        other => panic!("expected a missing-field failure, got {:?}", other),
    }
}

#[test]
fn missing_template_on_write() {
    let templates = TemplateStore::new();
    let message = Message {
        export_time: 0,
        sequence_number: 0,
        observation_domain_id: 0,
        sets: vec![RecordSet {
            records: Records::Data {
                set_id: 700,
                data: vec![],
            },
        }],
    };
    let r = write_ipfix_message(&message, &templates, 1);
    assert!(matches!(
        r,
        Err(IpfixError::MissingTemplate { set_id: 700, .. })
    ));
}

// --- writer length invariants -------------------------------------------

#[test]
fn written_lengths_match_wire_fields() {
    let mut templates = TemplateStore::new();
    let formatter = get_default_formatter();
    let message = Message {
        export_time: 7,
        sequence_number: 8,
        observation_domain_id: 9,
        sets: vec![RecordSet {
            records: Records::Template(vec![TemplateRecord {
                template_id: 500,
                field_specifiers: vec![
                    ipfixrw::FieldSpecifier::new(None, 4, 1),
                    ipfixrw::FieldSpecifier::new(None, 8, 4),
                    ipfixrw::FieldSpecifier::new(None, 7, 2),
                ],
            }]),
        }],
    };
    // payload: template id + count + three 4-byte specifiers = 16 bytes
    let out = write_ipfix_message(&message, &templates, 1).unwrap();
    // header length invariant: the 16-bit length field equals the bytes written
    assert_eq!(out.len(), 16 + 4 + 16);
    assert_eq!(u16::from_be_bytes([out[2], out[3]]) as usize, out.len());
    // set length invariant: header + payload, no padding at alignment 1
    assert_eq!(u16::from_be_bytes([out[18], out[19]]), 4 + 16);

    // alignment 8: payload ends at offset 36, padded by 4 to reach 40
    let out8 = write_ipfix_message(&message, &templates, 8).unwrap();
    assert_eq!(out8.len(), 40);
    assert_eq!(u16::from_be_bytes([out8[2], out8[3]]) as usize, out8.len());
    assert_eq!(u16::from_be_bytes([out8[18], out8[19]]), 4 + 16 + 4);
    assert_eq!(&out8[36..], &[0u8, 0, 0, 0]);

    // a parse of our own output yields the same message back
    let m2 = parse_ipfix_message(out.as_slice(), &mut templates, &formatter).unwrap();
    assert_eq!(m2, message);
}

#[test]
fn length_overflow_on_write() {
    let mut templates = TemplateStore::new();
    templates.insert_template(
        300,
        Template::Template(vec![ExpandedFieldSpecifier {
            name: DataRecordKey::Str("payload".to_string()),
            ty: DataRecordType::Bytes,
            enterprise_number: None,
            information_element_identifier: 1000,
            field_length: 8,
        }]),
    );
    let mut rec = DataRecord::new();
    rec.insert(
        DataRecordKey::Str("payload".to_string()),
        DataRecordValue::Bytes(vec![0; 70000]),
    );
    let message = Message {
        export_time: 0,
        sequence_number: 0,
        observation_domain_id: 0,
        sets: vec![RecordSet {
            records: Records::Data {
                set_id: 300,
                data: vec![rec],
            },
        }],
    };
    let r = write_ipfix_message(&message, &templates, 1);
    assert!(matches!(r, Err(IpfixError::LengthOverflow { .. })));
}

#[test]
fn templates_installed_before_a_failure_remain() {
    let mut templates = TemplateStore::new();
    let formatter = get_default_formatter();
    // a valid template set installing template 500, then a reserved set id
    let mut b = header(36);
    b.extend_from_slice(&[
        0x00, 0x02, 0x00, 0x0C, 0x01, 0xF4, 0x00, 0x01, 0x00, 0x04, 0x00, 0x01,
    ]);
    b.extend_from_slice(&[0x00, 0x05, 0x00, 0x08, 0, 0, 0, 0]);
    let r = parse_ipfix_message(&b, &mut templates, &formatter);
    assert!(matches!(
        r,
        Err(IpfixError::ReservedSetId { pos: 28, set_id: 5 })
    ));
    // the installation from the earlier set is not rolled back
    assert!(templates.contains_key(500));
}
