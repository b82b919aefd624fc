//! End-to-end samples from the PSK Reporter documentation: an options
//! template, a template, and data sets decoded with a vendor formatter,
//! then re-encoded byte-for-byte.

use ipfixrw::{
    get_default_formatter, parse_ipfix_message, write_ipfix_message, DataRecord, DataRecordKey,
    DataRecordType, DataRecordValue, FieldSpecifier, Formatter, Message, OptionsTemplateRecord,
    RecordSet, Records, TemplateRecord, TemplateStore,
};

fn hex(parts: &[&str]) -> Vec<u8> {
    let joined: String = parts.concat();
    let chars: Vec<char> = joined.chars().filter(|c| !c.is_whitespace()).collect();
    assert!(chars.len() % 2 == 0);
    chars
        .chunks(2)
        .map(|pair| {
            let hi = pair[0].to_digit(16).unwrap() as u8;
            let lo = pair[1].to_digit(16).unwrap() as u8;
            hi * 16 + lo
        })
        .collect()
}

fn pskreporter_formatter() -> Formatter {
    let mut formatter = get_default_formatter();
    let entries: Vec<(u16, &str, DataRecordType)> = vec![
        (1, "senderCallsign", DataRecordType::String),
        (2, "receiverCallsign", DataRecordType::String),
        (3, "senderLocator", DataRecordType::String),
        (4, "receiverLocator", DataRecordType::String),
        (5, "frequency", DataRecordType::UnsignedInt),
        (6, "sNR", DataRecordType::UnsignedInt),
        (7, "iMD", DataRecordType::UnsignedInt),
        (8, "decoderSoftware", DataRecordType::String),
        (9, "antennaInformation", DataRecordType::String),
        (10, "mode", DataRecordType::String),
        (11, "informationSource", DataRecordType::UnsignedInt),
        (12, "persistentIdentifier", DataRecordType::String),
    ];
    for (id, name, ty) in entries {
        formatter.insert(30351, id, name.to_string(), ty);
    }
    formatter
}

fn record(pairs: Vec<(&str, DataRecordValue)>) -> DataRecord {
    let mut r = DataRecord::new();
    for (name, value) in pairs {
        r.insert(DataRecordKey::Str(name.to_string()), value);
    }
    r
}

fn full_packet_bytes() -> Vec<u8> {
    hex(&[
        "000A00AC479532720000000100000000",
        "00030024",
        "999200030000",
        "8002FFFF0000768F",
        "8004FFFF0000768F",
        "8008FFFF0000768F",
        "0000",
        "0002002C",
        "99930005",
        "8001FFFF0000768F",
        "800500040000768F",
        "800AFFFF0000768F",
        "800B00010000768F",
        "00960004",
        "99920020",
        "044E314451",
        "06464E3432686E",
        "0D486F6D65627265772076352E36",
        "0000",
        "9993002C",
        "044E314451",
        "00D6B327",
        "0350534B",
        "01",
        "47953254",
        "064B42314D4258",
        "00D6B4CB",
        "0350534B",
        "01",
        "47953268",
        "0000",
    ])
}

fn expected_full_message() -> Message {
    Message {
        export_time: 1200960114,
        sequence_number: 1,
        observation_domain_id: 0,
        sets: vec![
            RecordSet {
                records: Records::OptionsTemplate(vec![OptionsTemplateRecord {
                    template_id: 0x9992,
                    scope_field_count: 0,
                    field_specifiers: vec![
                        FieldSpecifier::new(Some(30351), 2, u16::MAX),
                        FieldSpecifier::new(Some(30351), 4, u16::MAX),
                        FieldSpecifier::new(Some(30351), 8, u16::MAX),
                    ],
                }]),
            },
            RecordSet {
                records: Records::Template(vec![TemplateRecord {
                    template_id: 0x9993,
                    field_specifiers: vec![
                        FieldSpecifier::new(Some(30351), 1, u16::MAX),
                        FieldSpecifier::new(Some(30351), 5, 4),
                        FieldSpecifier::new(Some(30351), 10, u16::MAX),
                        FieldSpecifier::new(Some(30351), 11, 1),
                        FieldSpecifier::new(None, 150, 4),
                    ],
                }]),
            },
            RecordSet {
                records: Records::Data {
                    set_id: 0x9992,
                    data: vec![record(vec![
                        (
                            "receiverCallsign",
                            DataRecordValue::String("N1DQ".to_string()),
                        ),
                        (
                            "receiverLocator",
                            DataRecordValue::String("FN42hn".to_string()),
                        ),
                        (
                            "decoderSoftware",
                            DataRecordValue::String("Homebrew v5.6".to_string()),
                        ),
                    ])],
                },
            },
            RecordSet {
                records: Records::Data {
                    set_id: 0x9993,
                    data: vec![
                        record(vec![
                            (
                                "senderCallsign",
                                DataRecordValue::String("N1DQ".to_string()),
                            ),
                            ("frequency", DataRecordValue::U32(14070567)),
                            ("mode", DataRecordValue::String("PSK".to_string())),
                            ("informationSource", DataRecordValue::U8(1)),
                            (
                                "flowStartSeconds",
                                DataRecordValue::DateTimeSeconds(1200960084),
                            ),
                        ]),
                        record(vec![
                            (
                                "senderCallsign",
                                DataRecordValue::String("KB1MBX".to_string()),
                            ),
                            ("frequency", DataRecordValue::U32(14070987)),
                            ("mode", DataRecordValue::String("PSK".to_string())),
                            ("informationSource", DataRecordValue::U8(1)),
                            (
                                "flowStartSeconds",
                                DataRecordValue::DateTimeSeconds(1200960104),
                            ),
                        ]),
                    ],
                },
            },
        ],
    }
}

#[test]
fn test_full_examples() {
    let full_packet_bytes = full_packet_bytes();

    let data_only_packet_bytes = hex(&[
        "000A005C479532720000000400000000",
        "99920020",
        "044E314451",
        "06464E3432686E",
        "0D486F6D65627265772076352E36",
        "0000",
        "9993002C",
        "044E314451",
        "00D6B327",
        "0350534B",
        "01",
        "47953254",
        "064B42314D4258",
        "00D6B4CB",
        "0350534B",
        "01",
        "47953268",
        "0000",
    ]);

    let expected_full_message = expected_full_message();
    let expected_data_only_message = Message {
        export_time: 1200960114,
        sequence_number: 4,
        observation_domain_id: 0,
        // same as the full packet, but without the template sets
        sets: expected_full_message
            .sets
            .iter()
            .skip(2)
            .map(|s| RecordSet {
                records: match &s.records {
                    Records::Data { set_id, data } => Records::Data {
                        set_id: *set_id,
                        data: data
                            .iter()
                            .map(|d| DataRecord {
                                values: d.values.clone(),
                            })
                            .collect(),
                    },
                    _ => unreachable!(),
                },
            })
            .collect(),
    };

    let mut templates = TemplateStore::new();
    let formatter = pskreporter_formatter();

    let full_message =
        parse_ipfix_message(full_packet_bytes.as_slice(), &mut templates, &formatter).unwrap();
    assert_eq!(expected_full_message, full_message);

    let data_only_message = parse_ipfix_message(
        data_only_packet_bytes.as_slice(),
        &mut templates,
        &formatter,
    )
    .unwrap();
    assert_eq!(expected_data_only_message, data_only_message);
}

#[test]
fn test_full_packet_round_trip() {
    let bytes = full_packet_bytes();
    let mut templates = TemplateStore::new();
    let formatter = pskreporter_formatter();

    let message = parse_ipfix_message(bytes.as_slice(), &mut templates, &formatter).unwrap();
    assert_eq!(message.export_time, 1200960114);
    assert_eq!(message.sequence_number, 1);
    assert_eq!(message.observation_domain_id, 0);

    let rewritten = write_ipfix_message(&message, &templates, 4).unwrap();
    assert_eq!(bytes, rewritten);
}

#[test]
fn test_iterators_over_full_packet() {
    let bytes = full_packet_bytes();
    let mut templates = TemplateStore::new();
    let formatter = pskreporter_formatter();
    let message = parse_ipfix_message(bytes.as_slice(), &mut templates, &formatter).unwrap();

    let trs = message.iter_template_records();
    assert_eq!(trs.len(), 1);
    assert_eq!(trs[0].template_id, 0x9993);

    let otrs = message.iter_options_template_records();
    assert_eq!(otrs.len(), 1);
    assert_eq!(otrs[0].template_id, 0x9992);
    assert_eq!(otrs[0].scope_field_count, 0);

    let drs = message.iter_data_records();
    assert_eq!(drs.len(), 3);
    assert_eq!(drs[0].len(), 3);
    assert_eq!(
        drs[0].get(&DataRecordKey::Str("receiverCallsign".to_string())),
        Some(&DataRecordValue::String("N1DQ".to_string()))
    );
    assert_eq!(
        drs[1].get(&DataRecordKey::Str("flowStartSeconds".to_string())),
        Some(&DataRecordValue::DateTimeSeconds(1200960084))
    );
    assert_eq!(
        drs[2].get(&DataRecordKey::Str("senderCallsign".to_string())),
        Some(&DataRecordValue::String("KB1MBX".to_string()))
    );
}

#[test]
fn test_store_contents_after_parse() {
    let bytes = full_packet_bytes();
    let mut templates = TemplateStore::new();
    let formatter = pskreporter_formatter();
    parse_ipfix_message(bytes.as_slice(), &mut templates, &formatter).unwrap();

    assert_eq!(templates.len(), 2);
    assert!(templates.contains_key(0x9992));
    assert!(templates.contains_key(0x9993));
    assert!(!templates.contains_key(500));

    let t = templates.get_template(0x9993).unwrap();
    let fields = t.field_specifiers();
    assert_eq!(fields.len(), 5);
    assert_eq!(
        fields[0].name,
        DataRecordKey::Str("senderCallsign".to_string())
    );
    assert_eq!(fields[0].ty, DataRecordType::String);
    assert_eq!(fields[1].field_length, 4);
    assert_eq!(fields[4].name, DataRecordKey::Str("flowStartSeconds".to_string()));
    assert_eq!(fields[4].ty, DataRecordType::DateTimeSeconds);
}
