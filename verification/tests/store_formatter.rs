//! The information-element formatter and the template store: default
//! entries, vendor extensions, the unknown-element fallback, and
//! last-writer-wins installation.

use ipfixrw::template_store::{ExpandedFieldSpecifier, Template, TemplateStore};
use ipfixrw::{
    get_default_formatter, DataRecordKey, DataRecordType, FieldSpecifier, FormatterEntry,
};

#[test]
fn default_formatter_entries() {
    let f = get_default_formatter();
    assert_eq!(
        f.get(0, 8),
        Some(("sourceIPv4Address".to_string(), DataRecordType::Ipv4Addr))
    );
    assert_eq!(
        f.get(0, 4),
        Some(("protocolIdentifier".to_string(), DataRecordType::UnsignedInt))
    );
    assert_eq!(
        f.get(0, 150),
        Some(("flowStartSeconds".to_string(), DataRecordType::DateTimeSeconds))
    );
    assert_eq!(
        f.get(0, 153),
        Some((
            "flowEndMilliseconds".to_string(),
            DataRecordType::DateTimeMilliseconds
        ))
    );
    assert_eq!(
        f.get(0, 147),
        Some(("wlanSSID".to_string(), DataRecordType::String))
    );
    assert_eq!(f.get(0, 9999), None);
    assert_eq!(f.get(35632, 80), None);
}

#[test]
fn formatter_extension_and_override() {
    let mut f = get_default_formatter();
    f.insert(
        35632,
        205,
        "DNS_QUERY".to_string(),
        DataRecordType::String,
    );
    assert_eq!(
        f.get(35632, 205),
        Some(("DNS_QUERY".to_string(), DataRecordType::String))
    );
    // a later entry overrides the IANA default for the same pair
    f.insert(0, 8, "srcAddr".to_string(), DataRecordType::Bytes);
    assert_eq!(
        f.get(0, 8),
        Some(("srcAddr".to_string(), DataRecordType::Bytes))
    );
    // and the newest extension wins among extensions
    f.insert(0, 8, "srcAddr2".to_string(), DataRecordType::String);
    assert_eq!(
        f.get(0, 8),
        Some(("srcAddr2".to_string(), DataRecordType::String))
    );
}

#[test]
fn formatter_extend_batch() {
    let mut f = get_default_formatter();
    f.extend(vec![
        FormatterEntry {
            enterprise_number: 30351,
            information_element_identifier: 1,
            name: "senderCallsign".to_string(),
            ty: DataRecordType::String,
        },
        FormatterEntry {
            enterprise_number: 30351,
            information_element_identifier: 5,
            name: "frequency".to_string(),
            ty: DataRecordType::UnsignedInt,
        },
    ]);
    assert_eq!(
        f.get(30351, 1),
        Some(("senderCallsign".to_string(), DataRecordType::String))
    );
    assert_eq!(
        f.get(30351, 5),
        Some(("frequency".to_string(), DataRecordType::UnsignedInt))
    );
}

#[test]
fn expansion_uses_formatter() {
    let f = get_default_formatter();
    let fs = FieldSpecifier::new(None, 8, 4);
    let e = ExpandedFieldSpecifier::from_field_spec(&fs, &f);
    assert_eq!(e.name, DataRecordKey::Str("sourceIPv4Address".to_string()));
    assert_eq!(e.ty, DataRecordType::Ipv4Addr);
    assert_eq!(e.field_length, 4);
    assert_eq!(e.enterprise_number, None);
    assert_eq!(e.information_element_identifier, 8);
}

#[test]
fn expansion_unknown_element_fallback() {
    let f = get_default_formatter();
    // no entry for (99, 1): key falls back to the specifier, type to bytes
    let fs = FieldSpecifier::new(Some(99), 1, 2);
    let e = ExpandedFieldSpecifier::from_field_spec(&fs, &f);
    assert_eq!(e.name, DataRecordKey::Unrecognized(fs));
    assert_eq!(e.ty, DataRecordType::Bytes);
    assert_eq!(e.field_length, 2);
    assert_eq!(e.enterprise_number, Some(99));
}

#[test]
fn expansion_treats_missing_enterprise_as_zero() {
    let mut f = get_default_formatter();
    f.insert(0, 5000, "customField".to_string(), DataRecordType::UnsignedInt);
    // a specifier without an enterprise number resolves under enterprise 0
    let fs = FieldSpecifier::new(None, 5000, 8);
    let e = ExpandedFieldSpecifier::from_field_spec(&fs, &f);
    assert_eq!(e.name, DataRecordKey::Str("customField".to_string()));
    assert_eq!(e.ty, DataRecordType::UnsignedInt);
}

#[test]
fn store_insert_get_and_overwrite() {
    let mut store = TemplateStore::new();
    assert_eq!(store.len(), 0);
    assert!(store.get_template(500).is_none());

    store.insert_template(500, Template::Template(vec![]));
    assert_eq!(store.len(), 1);
    assert!(store.contains_key(500));
    match store.get_template(500).unwrap() {
        Template::Template(fields) => assert!(fields.is_empty()),
        _ => panic!("wrong template kind"),
    }

    // last writer wins under the same id
    store.insert_template(
        500,
        Template::OptionsTemplate(vec![ExpandedFieldSpecifier {
            name: DataRecordKey::Str("protocolIdentifier".to_string()),
            ty: DataRecordType::UnsignedInt,
            enterprise_number: None,
            information_element_identifier: 4,
            field_length: 1,
        }]),
    );
    assert_eq!(store.len(), 1);
    match store.get_template(500).unwrap() {
        Template::OptionsTemplate(fields) => {
            assert_eq!(fields.len(), 1);
            assert_eq!(fields[0].information_element_identifier, 4);
        }
        _ => panic!("wrong template kind"),
    }

    // an installation under another id leaves 500 as it was
    store.insert_template(501, Template::Template(vec![]));
    assert_eq!(store.len(), 2);
    assert!(matches!(
        store.get_template(500),
        Some(Template::OptionsTemplate(_))
    ));
}

#[test]
fn install_template_records_expands() {
    let f = get_default_formatter();
    let mut store = TemplateStore::new();
    let records = vec![ipfixrw::TemplateRecord {
        template_id: 999,
        field_specifiers: vec![
            FieldSpecifier::new(None, 8, 4),
            FieldSpecifier::new(None, 4, 1),
        ],
    }];
    store.insert_template_records(&records, &f);
    assert_eq!(store.len(), 1);
    let t = store.get_template(999).unwrap();
    let fields = t.field_specifiers();
    assert_eq!(fields.len(), 2);
    assert_eq!(fields[0].name, DataRecordKey::Str("sourceIPv4Address".to_string()));
    assert_eq!(fields[0].ty, DataRecordType::Ipv4Addr);
    assert_eq!(fields[1].name, DataRecordKey::Str("protocolIdentifier".to_string()));
    assert_eq!(fields[1].ty, DataRecordType::UnsignedInt);
}

