//! The laws of the codec, stated over the specification twins and proved
//! once and for all: length invariants of the writer, the domain of
//! parsed template ids, the enterprise-bit parity of field specifiers,
//! the variable-length encoding law, template-store monotonicity, the
//! unknown-element fallback, and serialise-then-parse identities for the
//! leaf layers of the wire format.

use vstd::prelude::*;

use crate::information_elements::{spec_formatter_get, FormatterEntryV};
use crate::template_store::{
    spec_expand_field_spec, spec_install_options_templates, spec_install_templates, TemplateV,
};
use crate::types::{
    spec_record_find, spec_record_get, DataRecordType, FieldSpecifier, KeyV, MessageV,
    OptionsTemplateRecordV, RecordSetV, RecordsV, TemplateRecordV, ValueV,
};
use crate::values::{spec_read_chunk, spec_read_value, spec_read_varlen, spec_value_bytes,
    spec_value_write_ok, varlen_prefix};
use crate::framer::{
    spec_parse_field_spec, spec_parse_field_specs_n, spec_parse_options_template_record,
    spec_parse_template_record, spec_parse_template_records,
    spec_parse_options_template_records,
};
use crate::writer::{
    spec_field_spec_bytes, spec_field_specs_bytes, spec_pad_len, spec_records_bytes,
    spec_set_bytes, spec_template_record_bytes, spec_template_records_bytes,
    spec_write_message,
};
use crate::wire::{
    be_bytes, from_be, lemma_be_bytes_len, lemma_from_be_of_be_bytes, lemma_pow256_values,
    zero_bytes,
};
use crate::types::IpfixError;

verus! {

// ---------------------------------------------------------------------------
// Header and set length invariants
// ---------------------------------------------------------------------------

/// After writing, the message's 16-bit length field holds exactly the
/// number of bytes written.
pub proof fn lemma_header_length_invariant(
    m: MessageV,
    store: Map<u16, TemplateV>,
    a: int,
    out: Seq<u8>,
)
    requires
        spec_write_message(m, store, a) == Some(out),
    ensures
        16 <= out.len() <= 0xFFFF,
        from_be(out.subrange(2, 4)) == out.len(),
{
    let body = crate::writer::spec_sets_bytes(m.sets, store, a, 16, 0).unwrap();
    let total = 16 + body.len();
    lemma_be_bytes_len(10, 2);
    lemma_be_bytes_len(total, 2);
    lemma_be_bytes_len(m.export_time as nat, 4);
    lemma_be_bytes_len(m.sequence_number as nat, 4);
    lemma_be_bytes_len(m.observation_domain_id as nat, 4);
    assert(out.len() == total);
    assert(out.subrange(2, 4) =~= be_bytes(total, 2));
    lemma_pow256_values();
    lemma_from_be_of_be_bytes(total, 2);
}

/// After writing, each set's length field holds 4 bytes of header plus
/// the payload plus the alignment padding, and the on-wire 16-bit value
/// at the set's length slot equals that length.
pub proof fn lemma_set_length_invariant(
    s: RecordSetV,
    store: Map<u16, TemplateV>,
    a: int,
    pos: int,
    sb: Seq<u8>,
    payload: Seq<u8>,
)
    requires
        a >= 1,
        pos >= 0,
        spec_records_bytes(s.records, store) == Some(payload),
        spec_set_bytes(s, store, a, pos) == Some(sb),
    ensures
        sb.len() == 4 + payload.len() + spec_pad_len(pos + 4 + payload.len(), a),
        from_be(sb.subrange(2, 4)) == sb.len(),
{
    let pad = spec_pad_len(pos + 4 + payload.len(), a);
    let set_len = 4 + payload.len() + pad;
    lemma_be_bytes_len(crate::types::spec_set_id(s.records) as nat, 2);
    lemma_be_bytes_len(set_len as nat, 2);
    assert(pad >= 0);
    assert(sb.len() == set_len);
    assert(sb.subrange(2, 4) =~= be_bytes(set_len as nat, 2));
    lemma_pow256_values();
    lemma_from_be_of_be_bytes(set_len as nat, 2);
}

// ---------------------------------------------------------------------------
// Template id domain
// ---------------------------------------------------------------------------

/// Every template record a set parse yields has a template id above 255.
pub proof fn lemma_template_id_domain(b: Seq<u8>, pos: int, end: int, ts: Seq<TemplateRecordV>)
    requires
        spec_parse_template_records(b, pos, end) == Ok::<_, IpfixError>(ts),
    ensures
        forall|i: int| 0 <= i < ts.len() ==> #[trigger] ts[i].template_id > 255,
    decreases end - pos,
{
    if pos >= end {
    } else {
        match spec_parse_template_record(b, pos, end) {
            Err(_) => {},
            Ok((t, p)) => {
                assert(t.template_id > 255);
                if pos < p <= end {
                    let rest = spec_parse_template_records(b, p, end).unwrap();
                    lemma_template_id_domain(b, p, end, rest);
                    assert(forall|i: int|
                        0 <= i < ts.len() ==> ts[i] == if i == 0 {
                            t
                        } else {
                            rest[i - 1]
                        });
                }
            },
        }
    }
}

/// Every options template record a set parse yields has a template id
/// above 255.
pub proof fn lemma_options_template_id_domain(
    b: Seq<u8>,
    pos: int,
    end: int,
    ts: Seq<OptionsTemplateRecordV>,
)
    requires
        spec_parse_options_template_records(b, pos, end) == Ok::<_, IpfixError>(ts),
    ensures
        forall|i: int| 0 <= i < ts.len() ==> #[trigger] ts[i].template_id > 255,
    decreases end - pos,
{
    if pos >= end {
    } else {
        match spec_parse_options_template_record(b, pos, end) {
            Err(_) => {},
            Ok((t, p)) => {
                assert(t.template_id > 255);
                if pos < p <= end {
                    let rest = spec_parse_options_template_records(b, p, end).unwrap();
                    lemma_options_template_id_domain(b, p, end, rest);
                    assert(forall|i: int|
                        0 <= i < ts.len() ==> ts[i] == if i == 0 {
                            t
                        } else {
                            rest[i - 1]
                        });
                }
            },
        }
    }
}

// ---------------------------------------------------------------------------
// Enterprise-bit parity
// ---------------------------------------------------------------------------

/// A parsed field specifier carries an enterprise number exactly when the
/// high bit of its on-wire identifier was set.
pub proof fn lemma_enterprise_bit_parity_parse(
    b: Seq<u8>,
    pos: int,
    end: int,
    fs: FieldSpecifier,
    p: int,
)
    requires
        0 <= pos,
        end <= b.len(),
        spec_parse_field_spec(b, pos, end) == Ok::<_, IpfixError>((fs, p)),
    ensures
        fs.enterprise_number is Some <==> b[pos] >= 0x80,
        fs.wf(),
{
    let raw = from_be(b.subrange(pos, pos + 2));
    assert(b.subrange(pos, pos + 2).drop_last() =~= b.subrange(pos, pos + 1));
    assert(b.subrange(pos, pos + 1).drop_last() =~= Seq::<u8>::empty());
    reveal_with_fuel(from_be, 4);
    assert(raw == (b[pos] as nat) * 256 + b[pos + 1]);
    lemma_pow256_values();
    crate::wire::lemma_from_be_bound(b.subrange(pos, pos + 2));
    assert((raw as u16) >= 0x8000 <==> b[pos] >= 0x80);
}

/// A written field specifier has the high bit of its on-wire identifier
/// set exactly when it carries an enterprise number.
pub proof fn lemma_enterprise_bit_parity_write(fs: FieldSpecifier)
    requires
        fs.wf(),
    ensures
        fs.enterprise_number is Some <==> spec_field_spec_bytes(fs)[0] >= 0x80,
{
    let raw: u16 = if fs.enterprise_number is Some {
        (fs.information_element_identifier + 0x8000) as u16
    } else {
        fs.information_element_identifier
    };
    reveal_with_fuel(be_bytes, 4);
    lemma_be_bytes_len(raw as nat, 2);
    assert(be_bytes(raw as nat, 2)[0] == ((raw as nat) / 256) % 256);
    assert(spec_field_spec_bytes(fs)[0] == be_bytes(raw as nat, 2)[0]);
}

// ---------------------------------------------------------------------------
// The variable-length encoding law
// ---------------------------------------------------------------------------

/// The number of bytes the variable-length encoding of an `L`-byte
/// payload occupies: `L + 1` below 255, else `L + 3`.
pub open spec fn spec_varlen_encoded_len(len: nat) -> nat {
    if len < 255 {
        len + 1
    } else {
        len + 3
    }
}

/// Decoding what the variable-length encoder writes yields the payload
/// back, and the encoding occupies exactly `L + 1` or `L + 3` bytes.
pub proof fn lemma_variable_length_round_trip(b: Seq<u8>, pos: int, end: int, v: Seq<u8>)
    requires
        v.len() <= 0xFFFF - 3,
        0 <= pos,
        pos + spec_varlen_encoded_len(v.len()) <= end <= b.len(),
        b.subrange(pos, pos + spec_varlen_encoded_len(v.len())) == varlen_prefix(v.len()) + v,
    ensures
        (varlen_prefix(v.len()) + v).len() == spec_varlen_encoded_len(v.len()),
        spec_read_varlen(b, pos, end, 0xFFFF) == Ok::<_, IpfixError>(
            (v, pos + spec_varlen_encoded_len(v.len())),
        ),
{
    let enc = spec_varlen_encoded_len(v.len());
    let pre = varlen_prefix(v.len());
    lemma_pow256_values();
    if v.len() < 255 {
        assert(pre.len() == 1);
        assert(b[pos] == (pre + v)[0]);
        assert(b[pos] == v.len() as u8);
        assert(b.subrange(pos, pos + 1).drop_last() =~= Seq::<u8>::empty());
        reveal_with_fuel(from_be, 3);
        assert(from_be(b.subrange(pos, pos + 1)) == b[pos]);
        assert(spec_read_varlen(b, pos, end, 0xFFFF) == spec_read_chunk(
            b,
            pos + 1,
            end,
            v.len() as int,
        ));
        assert(b.subrange(pos + 1, pos + 1 + v.len()) =~= v) by {
            assert(forall|k: int|
                0 <= k < v.len() ==> b.subrange(pos, pos + enc)[k + 1] == #[trigger] v[k]);
        }
    } else {
        lemma_be_bytes_len(v.len(), 2);
        assert(pre.len() == 3);
        assert(b[pos] == (pre + v)[0]);
        assert(b[pos] == 255u8);
        assert(b.subrange(pos, pos + 1).drop_last() =~= Seq::<u8>::empty());
        reveal_with_fuel(from_be, 3);
        assert(from_be(b.subrange(pos, pos + 1)) == 255);
        assert(b.subrange(pos + 1, pos + 3) =~= be_bytes(v.len(), 2)) by {
            assert(forall|k: int|
                0 <= k < 2 ==> b.subrange(pos, pos + enc)[k + 1] == #[trigger] be_bytes(
                    v.len(),
                    2,
                )[k]);
        }
        lemma_from_be_of_be_bytes(v.len(), 2);
        assert(spec_read_varlen(b, pos, end, 0xFFFF) == spec_read_chunk(
            b,
            pos + 3,
            end,
            v.len() as int,
        ));
        assert(b.subrange(pos + 3, pos + 3 + v.len()) =~= v) by {
            assert(forall|k: int|
                0 <= k < v.len() ==> b.subrange(pos, pos + enc)[k + 3] == #[trigger] v[k]);
        }
    }
}

/// The variable-length law lifted to the value codec: a byte value
/// written into a variable-length slot reads back unchanged.
pub proof fn lemma_variable_length_value_round_trip(b: Seq<u8>, pos: int, end: int, v: Seq<u8>)
    requires
        v.len() <= 0xFFFF - 3,
        0 <= pos,
        pos + spec_varlen_encoded_len(v.len()) <= end <= b.len(),
        b.subrange(pos, pos + spec_varlen_encoded_len(v.len())) == spec_value_bytes(
            ValueV::Bytes(v),
            0xFFFF,
        ),
    ensures
        spec_value_write_ok(ValueV::Bytes(v), 0xFFFF),
        spec_value_bytes(ValueV::Bytes(v), 0xFFFF).len() == spec_varlen_encoded_len(v.len()),
        spec_read_value(DataRecordType::Bytes, 0xFFFF, b, pos, end) == Ok::<_, IpfixError>(
            (ValueV::Bytes(v), pos + spec_varlen_encoded_len(v.len())),
        ),
{
    lemma_variable_length_round_trip(b, pos, end, v);
}

// ---------------------------------------------------------------------------
// Template-store monotonicity
// ---------------------------------------------------------------------------

/// After a template is installed under id `i`, the store returns it for
/// `i`, and keeps returning it across any further installations that do
/// not use id `i`.
pub proof fn lemma_template_store_monotonic(
    store: Map<u16, TemplateV>,
    i: u16,
    t: TemplateV,
    recs: Seq<TemplateRecordV>,
    fmt: Seq<FormatterEntryV>,
)
    requires
        store.contains_key(i),
        store[i] == t,
        forall|k: int| 0 <= k < recs.len() ==> #[trigger] recs[k].template_id != i,
    ensures
        spec_install_templates(store, recs, fmt).contains_key(i),
        spec_install_templates(store, recs, fmt)[i] == t,
    decreases recs.len(),
{
    if recs.len() == 0 {
    } else {
        let store2 = store.insert(
            recs[0].template_id,
            TemplateV::Template(crate::template_store::spec_expand_fields(
                recs[0].field_specifiers,
                fmt,
            )),
        );
        assert(recs[0].template_id != i);
        assert(forall|k: int|
            0 <= k < recs.drop_first().len() ==> #[trigger] recs.drop_first()[k].template_id
                != i);
        lemma_template_store_monotonic(store2, i, t, recs.drop_first(), fmt);
    }
}

/// The same persistence for options template installations.
pub proof fn lemma_template_store_monotonic_options(
    store: Map<u16, TemplateV>,
    i: u16,
    t: TemplateV,
    recs: Seq<OptionsTemplateRecordV>,
    fmt: Seq<FormatterEntryV>,
)
    requires
        store.contains_key(i),
        store[i] == t,
        forall|k: int| 0 <= k < recs.len() ==> #[trigger] recs[k].template_id != i,
    ensures
        spec_install_options_templates(store, recs, fmt).contains_key(i),
        spec_install_options_templates(store, recs, fmt)[i] == t,
    decreases recs.len(),
{
    if recs.len() == 0 {
    } else {
        let store2 = store.insert(
            recs[0].template_id,
            TemplateV::OptionsTemplate(crate::template_store::spec_expand_fields(
                recs[0].field_specifiers,
                fmt,
            )),
        );
        assert(recs[0].template_id != i);
        assert(forall|k: int|
            0 <= k < recs.drop_first().len() ==> #[trigger] recs.drop_first()[k].template_id
                != i);
        lemma_template_store_monotonic_options(store2, i, t, recs.drop_first(), fmt);
    }
}

// ---------------------------------------------------------------------------
// Unknown-element fallback
// ---------------------------------------------------------------------------

/// When the formatter lacks the pair of a field specifier, expansion
/// files the value under the specifier itself and treats it as bytes.
pub proof fn lemma_unknown_element_fallback(fs: FieldSpecifier, fmt: Seq<FormatterEntryV>)
    requires
        spec_formatter_get(
            fmt,
            match fs.enterprise_number {
                Some(e) => e,
                None => 0u32,
            },
            fs.information_element_identifier,
        ) is None,
    ensures
        spec_expand_field_spec(fs, fmt).name == KeyV::Unrecognized(fs),
        spec_expand_field_spec(fs, fmt).ty == DataRecordType::Bytes,
{
}

// ---------------------------------------------------------------------------
// Serialise-then-parse identity of the leaf layers
// ---------------------------------------------------------------------------

/// Parsing the written form of a well-formed field specifier yields the
/// specifier back and consumes exactly its wire size.
pub proof fn lemma_field_spec_round_trip(b: Seq<u8>, pos: int, end: int, fs: FieldSpecifier)
    requires
        fs.wf(),
        0 <= pos,
        pos + spec_field_spec_bytes(fs).len() <= end <= b.len(),
        b.subrange(pos, pos + spec_field_spec_bytes(fs).len()) == spec_field_spec_bytes(fs),
    ensures
        spec_field_spec_bytes(fs).len() == if fs.enterprise_number is Some {
            8int
        } else {
            4int
        },
        spec_parse_field_spec(b, pos, end) == Ok::<_, IpfixError>(
            (fs, pos + spec_field_spec_bytes(fs).len()),
        ),
{
    let raw: u16 = if fs.enterprise_number is Some {
        (fs.information_element_identifier + 0x8000) as u16
    } else {
        fs.information_element_identifier
    };
    let fsb = spec_field_spec_bytes(fs);
    lemma_pow256_values();
    lemma_be_bytes_len(raw as nat, 2);
    lemma_be_bytes_len(fs.field_length as nat, 2);
    assert(b.subrange(pos, pos + 2) =~= be_bytes(raw as nat, 2)) by {
        assert(forall|k: int| 0 <= k < 2 ==> fsb[k] == #[trigger] be_bytes(raw as nat, 2)[k]);
    }
    lemma_from_be_of_be_bytes(raw as nat, 2);
    assert(b.subrange(pos + 2, pos + 4) =~= be_bytes(fs.field_length as nat, 2)) by {
        assert(forall|k: int|
            0 <= k < 2 ==> fsb[k + 2] == #[trigger] be_bytes(fs.field_length as nat, 2)[k]);
    }
    lemma_from_be_of_be_bytes(fs.field_length as nat, 2);
    match fs.enterprise_number {
        Some(e) => {
            lemma_be_bytes_len(e as nat, 4);
            assert(b.subrange(pos + 4, pos + 8) =~= be_bytes(e as nat, 4)) by {
                assert(forall|k: int|
                    0 <= k < 4 ==> fsb[k + 4] == #[trigger] be_bytes(e as nat, 4)[k]);
            }
            lemma_from_be_of_be_bytes(e as nat, 4);
            assert(raw >= 0x8000);
            assert(raw - 0x8000 == fs.information_element_identifier);
        },
        None => {
            assert(raw < 0x8000);
        },
    }
}

/// Parsing the written run of well-formed field specifiers, counted,
/// yields the run back.
pub proof fn lemma_field_specs_round_trip(
    b: Seq<u8>,
    pos: int,
    end: int,
    fss: Seq<FieldSpecifier>,
    i: int,
)
    requires
        0 <= i <= fss.len(),
        forall|k: int| 0 <= k < fss.len() ==> #[trigger] fss[k].wf(),
        0 <= pos,
        pos + spec_field_specs_bytes(fss, i).len() <= end <= b.len(),
        b.subrange(pos, pos + spec_field_specs_bytes(fss, i).len()) == spec_field_specs_bytes(
            fss,
            i,
        ),
    ensures
        spec_parse_field_specs_n(b, pos, end, fss.len() - i) == Ok::<_, IpfixError>(
            (fss.skip(i), pos + spec_field_specs_bytes(fss, i).len()),
        ),
    decreases fss.len() - i,
{
    if i >= fss.len() {
        assert(fss.skip(i) =~= Seq::<FieldSpecifier>::empty());
        assert(spec_field_specs_bytes(fss, i).len() == 0);
    } else {
        let head = spec_field_spec_bytes(fss[i]);
        let tail = spec_field_specs_bytes(fss, i + 1);
        assert(spec_field_specs_bytes(fss, i) == head + tail);
        assert(b.subrange(pos, pos + head.len()) =~= head) by {
            assert(forall|k: int|
                0 <= k < head.len() ==> (head + tail)[k] == #[trigger] head[k]);
        }
        lemma_field_spec_round_trip(b, pos, end, fss[i]);
        assert(b.subrange(pos + head.len(), pos + head.len() + tail.len()) =~= tail) by {
            assert(forall|k: int|
                0 <= k < tail.len() ==> (head + tail)[k + head.len()] == #[trigger] tail[k]);
        }
        lemma_field_specs_round_trip(b, pos + head.len(), end, fss, i + 1);
        assert(fss.skip(i) =~= seq![fss[i]] + fss.skip(i + 1));
    }
}

/// Parsing the written form of a well-formed template record yields the
/// record back: one direction of the round-trip identity, at the record
/// layer.
pub proof fn lemma_template_record_round_trip(b: Seq<u8>, pos: int, end: int, t: TemplateRecordV)
    requires
        t.template_id > 255,
        t.field_specifiers.len() <= 0xFFFF,
        forall|k: int|
            0 <= k < t.field_specifiers.len() ==> #[trigger] t.field_specifiers[k].wf(),
        0 <= pos,
        spec_template_record_bytes(t) == Some(
            b.subrange(pos, pos + spec_template_record_bytes(t).unwrap().len()),
        ),
        pos + spec_template_record_bytes(t).unwrap().len() <= end <= b.len(),
    ensures
        spec_parse_template_record(b, pos, end) == Ok::<_, IpfixError>(
            (t, pos + spec_template_record_bytes(t).unwrap().len()),
        ),
{
    let tb = spec_template_record_bytes(t).unwrap();
    let n = t.field_specifiers.len();
    let body = spec_field_specs_bytes(t.field_specifiers, 0);
    lemma_pow256_values();
    lemma_be_bytes_len(t.template_id as nat, 2);
    lemma_be_bytes_len(n, 2);
    assert(tb == be_bytes(t.template_id as nat, 2) + be_bytes(n, 2) + body);
    assert(b.subrange(pos, pos + 2) =~= be_bytes(t.template_id as nat, 2)) by {
        assert(forall|k: int|
            0 <= k < 2 ==> tb[k] == #[trigger] be_bytes(t.template_id as nat, 2)[k]);
    }
    lemma_from_be_of_be_bytes(t.template_id as nat, 2);
    assert(b.subrange(pos + 2, pos + 4) =~= be_bytes(n, 2)) by {
        assert(forall|k: int| 0 <= k < 2 ==> tb[k + 2] == #[trigger] be_bytes(n, 2)[k]);
    }
    lemma_from_be_of_be_bytes(n, 2);
    assert(b.subrange(pos + 4, pos + 4 + body.len()) =~= body) by {
        assert(forall|k: int| 0 <= k < body.len() ==> tb[k + 4] == #[trigger] body[k]);
    }
    lemma_field_specs_round_trip(b, pos + 4, end, t.field_specifiers, 0);
    assert(t.field_specifiers.skip(0) =~= t.field_specifiers);
    assert(spec_parse_field_specs_n(b, pos + 4, end, n as int) == Ok::<_, IpfixError>(
        (t.field_specifiers, pos + 4 + body.len()),
    ));
}

/// The type/length slots under which the value codec reproduces a value:
/// the variant matches the abstract type, and fixed-width slots carry the
/// value's own width.
pub open spec fn spec_value_slot_matches(ty: DataRecordType, v: ValueV, len: u16) -> bool {
    match (ty, v) {
        (DataRecordType::UnsignedInt, ValueV::U8(_)) => len == 1,
        (DataRecordType::UnsignedInt, ValueV::U16(_)) => len == 2,
        (DataRecordType::UnsignedInt, ValueV::U32(_)) => len == 4,
        (DataRecordType::UnsignedInt, ValueV::U64(_)) => len == 8,
        (DataRecordType::SignedInt, ValueV::I8(_)) => len == 1,
        (DataRecordType::SignedInt, ValueV::I16(_)) => len == 2,
        (DataRecordType::SignedInt, ValueV::I32(_)) => len == 4,
        (DataRecordType::SignedInt, ValueV::I64(_)) => len == 8,
        (DataRecordType::Float, ValueV::F32(_)) => len == 4,
        (DataRecordType::Float, ValueV::F64(_)) => len == 8,
        (DataRecordType::Bool, ValueV::Bool(_)) => len == 1,
        (DataRecordType::MacAddress, ValueV::MacAddress(s)) => len == 6 && s.len() == 6,
        (DataRecordType::Bytes, ValueV::Bytes(s)) => len == 0xFFFF || s.len() == len,
        (DataRecordType::String, ValueV::String(cs)) => len == 0xFFFF
            || vstd::utf8::encode_utf8(cs).len() == len,
        (DataRecordType::DateTimeSeconds, ValueV::DateTimeSeconds(_)) => len == 4,
        (DataRecordType::DateTimeMilliseconds, ValueV::DateTimeMilliseconds(_)) => len == 8,
        (DataRecordType::DateTimeMicroseconds, ValueV::DateTimeMicroseconds(_)) => len == 8,
        (DataRecordType::DateTimeNanoseconds, ValueV::DateTimeNanoseconds(_)) => len == 8,
        (DataRecordType::Ipv4Addr, ValueV::Ipv4Addr(s)) => len == 4 && s.len() == 4,
        (DataRecordType::Ipv6Addr, ValueV::Ipv6Addr(s)) => len == 16 && s.len() == 16,
        _ => false,
    }
}

/// The value-layer round-trip identity: a value written into a matching
/// slot reads back unchanged, for every abstract type of the codec.
pub proof fn lemma_value_round_trip(
    ty: DataRecordType,
    v: ValueV,
    len: u16,
    b: Seq<u8>,
    pos: int,
    end: int,
)
    requires
        spec_value_slot_matches(ty, v, len),
        spec_value_write_ok(v, len),
        0 <= pos,
        pos + spec_value_bytes(v, len).len() <= end <= b.len(),
        b.subrange(pos, pos + spec_value_bytes(v, len).len()) == spec_value_bytes(v, len),
    ensures
        spec_read_value(ty, len, b, pos, end) == Ok::<_, IpfixError>(
            (v, pos + spec_value_bytes(v, len).len()),
        ),
{
    let vb = spec_value_bytes(v, len);
    lemma_pow256_values();
    match v {
        ValueV::U8(x) => {
            lemma_be_bytes_len(x as nat, 1);
            assert(b.subrange(pos, pos + 1) =~= be_bytes(x as nat, 1));
            lemma_from_be_of_be_bytes(x as nat, 1);
        },
        ValueV::U16(x) => {
            lemma_be_bytes_len(x as nat, 2);
            assert(b.subrange(pos, pos + 2) =~= be_bytes(x as nat, 2));
            lemma_from_be_of_be_bytes(x as nat, 2);
        },
        ValueV::U32(x) => {
            lemma_be_bytes_len(x as nat, 4);
            assert(b.subrange(pos, pos + 4) =~= be_bytes(x as nat, 4));
            lemma_from_be_of_be_bytes(x as nat, 4);
        },
        ValueV::U64(x) => {
            lemma_be_bytes_len(x as nat, 8);
            assert(b.subrange(pos, pos + 8) =~= be_bytes(x as nat, 8));
            lemma_from_be_of_be_bytes(x as nat, 8);
        },
        ValueV::I8(x) => {
            lemma_be_bytes_len((x as u8) as nat, 1);
            assert(b.subrange(pos, pos + 1) =~= be_bytes((x as u8) as nat, 1));
            lemma_from_be_of_be_bytes((x as u8) as nat, 1);
            assert((x as u8) as i8 == x) by (bit_vector);
        },
        ValueV::I16(x) => {
            lemma_be_bytes_len((x as u16) as nat, 2);
            assert(b.subrange(pos, pos + 2) =~= be_bytes((x as u16) as nat, 2));
            lemma_from_be_of_be_bytes((x as u16) as nat, 2);
            assert((x as u16) as i16 == x) by (bit_vector);
        },
        ValueV::I32(x) => {
            lemma_be_bytes_len((x as u32) as nat, 4);
            assert(b.subrange(pos, pos + 4) =~= be_bytes((x as u32) as nat, 4));
            lemma_from_be_of_be_bytes((x as u32) as nat, 4);
            assert((x as u32) as i32 == x) by (bit_vector);
        },
        ValueV::I64(x) => {
            lemma_be_bytes_len((x as u64) as nat, 8);
            assert(b.subrange(pos, pos + 8) =~= be_bytes((x as u64) as nat, 8));
            lemma_from_be_of_be_bytes((x as u64) as nat, 8);
            assert((x as u64) as i64 == x) by (bit_vector);
        },
        ValueV::F32(x) => {
            lemma_be_bytes_len(x as nat, 4);
            assert(b.subrange(pos, pos + 4) =~= be_bytes(x as nat, 4));
            lemma_from_be_of_be_bytes(x as nat, 4);
        },
        ValueV::F64(x) => {
            lemma_be_bytes_len(x as nat, 8);
            assert(b.subrange(pos, pos + 8) =~= be_bytes(x as nat, 8));
            lemma_from_be_of_be_bytes(x as nat, 8);
        },
        ValueV::Bool(x) => {
            let byte: u8 = if x { 1u8 } else { 2u8 };
            assert(b[pos] == vb[0]);
            assert(b.subrange(pos, pos + 1).drop_last() =~= Seq::<u8>::empty());
            reveal_with_fuel(from_be, 3);
            assert(from_be(b.subrange(pos, pos + 1)) == byte);
        },
        ValueV::MacAddress(s) => {
            assert(b.subrange(pos, pos + 6) =~= s);
        },
        ValueV::Bytes(s) => {
            if len == 0xFFFF {
                lemma_be_bytes_len(s.len(), 2);
                assert(vb.len() == spec_varlen_encoded_len(s.len()));
                lemma_variable_length_round_trip(b, pos, end, s);
            } else {
                assert(b.subrange(pos, pos + s.len()) =~= s);
            }
        },
        ValueV::String(cs) => {
            let sb = vstd::utf8::encode_utf8(cs);
            vstd::utf8::encode_utf8_valid_utf8(cs);
            vstd::utf8::encode_utf8_decode_utf8(cs);
            if len == 0xFFFF {
                lemma_be_bytes_len(sb.len(), 2);
                assert(vb.len() == spec_varlen_encoded_len(sb.len()));
                lemma_variable_length_round_trip(b, pos, end, sb);
                assert(spec_read_varlen(b, pos, end, len) == Ok::<_, IpfixError>(
                    (sb, pos + vb.len()),
                ));
            } else {
                assert(b.subrange(pos, pos + sb.len()) =~= sb);
            }
        },
        ValueV::DateTimeSeconds(x) => {
            lemma_be_bytes_len(x as nat, 4);
            assert(b.subrange(pos, pos + 4) =~= be_bytes(x as nat, 4));
            lemma_from_be_of_be_bytes(x as nat, 4);
        },
        ValueV::DateTimeMilliseconds(x) => {
            lemma_be_bytes_len(x as nat, 8);
            assert(b.subrange(pos, pos + 8) =~= be_bytes(x as nat, 8));
            lemma_from_be_of_be_bytes(x as nat, 8);
        },
        ValueV::DateTimeMicroseconds(x) => {
            lemma_be_bytes_len(x as nat, 8);
            assert(b.subrange(pos, pos + 8) =~= be_bytes(x as nat, 8));
            lemma_from_be_of_be_bytes(x as nat, 8);
        },
        ValueV::DateTimeNanoseconds(x) => {
            lemma_be_bytes_len(x as nat, 8);
            assert(b.subrange(pos, pos + 8) =~= be_bytes(x as nat, 8));
            lemma_from_be_of_be_bytes(x as nat, 8);
        },
        ValueV::Ipv4Addr(s) => {
            assert(b.subrange(pos, pos + 4) =~= s);
        },
        ValueV::Ipv6Addr(s) => {
            assert(b.subrange(pos, pos + 16) =~= s);
        },
    }
}

/// Parsing the written form of a well-formed options template record
/// yields the record back.
pub proof fn lemma_options_template_record_round_trip(
    b: Seq<u8>,
    pos: int,
    end: int,
    t: OptionsTemplateRecordV,
)
    requires
        t.template_id > 255,
        t.field_specifiers.len() <= 0xFFFF,
        forall|k: int|
            0 <= k < t.field_specifiers.len() ==> #[trigger] t.field_specifiers[k].wf(),
        0 <= pos,
        crate::writer::spec_options_template_record_bytes(t) == Some(
            b.subrange(
                pos,
                pos + crate::writer::spec_options_template_record_bytes(t).unwrap().len(),
            ),
        ),
        pos + crate::writer::spec_options_template_record_bytes(t).unwrap().len() <= end
            <= b.len(),
    ensures
        spec_parse_options_template_record(b, pos, end) == Ok::<_, IpfixError>(
            (t, pos + crate::writer::spec_options_template_record_bytes(t).unwrap().len()),
        ),
{
    let tb = crate::writer::spec_options_template_record_bytes(t).unwrap();
    let n = t.field_specifiers.len();
    let body = spec_field_specs_bytes(t.field_specifiers, 0);
    lemma_pow256_values();
    lemma_be_bytes_len(t.template_id as nat, 2);
    lemma_be_bytes_len(n, 2);
    lemma_be_bytes_len(t.scope_field_count as nat, 2);
    assert(tb == be_bytes(t.template_id as nat, 2) + be_bytes(n, 2) + be_bytes(
        t.scope_field_count as nat,
        2,
    ) + body);
    assert(b.subrange(pos, pos + 2) =~= be_bytes(t.template_id as nat, 2)) by {
        assert(forall|k: int|
            0 <= k < 2 ==> tb[k] == #[trigger] be_bytes(t.template_id as nat, 2)[k]);
    }
    lemma_from_be_of_be_bytes(t.template_id as nat, 2);
    assert(b.subrange(pos + 2, pos + 4) =~= be_bytes(n, 2)) by {
        assert(forall|k: int| 0 <= k < 2 ==> tb[k + 2] == #[trigger] be_bytes(n, 2)[k]);
    }
    lemma_from_be_of_be_bytes(n, 2);
    assert(b.subrange(pos + 4, pos + 6) =~= be_bytes(t.scope_field_count as nat, 2)) by {
        assert(forall|k: int|
            0 <= k < 2 ==> tb[k + 4] == #[trigger] be_bytes(t.scope_field_count as nat, 2)[k]);
    }
    lemma_from_be_of_be_bytes(t.scope_field_count as nat, 2);
    assert(b.subrange(pos + 6, pos + 6 + body.len()) =~= body) by {
        assert(forall|k: int| 0 <= k < body.len() ==> tb[k + 6] == #[trigger] body[k]);
    }
    lemma_field_specs_round_trip(b, pos + 6, end, t.field_specifiers, 0);
    assert(t.field_specifiers.skip(0) =~= t.field_specifiers);
}

/// A written template record occupies its 4-byte header plus its
/// specifiers' bytes.
pub proof fn lemma_template_record_bytes_len(t: TemplateRecordV)
    requires
        spec_template_record_bytes(t) is Some,
    ensures
        spec_template_record_bytes(t).unwrap().len() == 4 + spec_field_specs_bytes(
            t.field_specifiers,
            0,
        ).len(),
{
    lemma_be_bytes_len(t.template_id as nat, 2);
    lemma_be_bytes_len(t.field_specifiers.len(), 2);
}

/// Parsing a whole written run of well-formed template records, inside a
/// set whose padding is shorter than a record header, yields the run
/// back: the round-trip identity at the record-run layer.
pub proof fn lemma_template_records_round_trip(
    b: Seq<u8>,
    pos: int,
    end: int,
    ts: Seq<TemplateRecordV>,
    i: int,
    pad: int,
)
    requires
        0 <= i <= ts.len(),
        forall|k: int| 0 <= k < ts.len() ==> #[trigger] ts[k].template_id > 255,
        forall|k: int| 0 <= k < ts.len() ==> #[trigger] ts[k].field_specifiers.len() <= 0xFFFF,
        forall|k: int, j: int|
            0 <= k < ts.len() && 0 <= j < ts[k].field_specifiers.len()
                ==> (#[trigger] ts[k].field_specifiers[j]).wf(),
        spec_template_records_bytes(ts, i) is Some,
        0 <= pos,
        0 <= pad < 4,
        end == pos + spec_template_records_bytes(ts, i).unwrap().len() + pad,
        end <= b.len(),
        b.subrange(pos, pos + spec_template_records_bytes(ts, i).unwrap().len())
            == spec_template_records_bytes(ts, i).unwrap(),
    ensures
        spec_parse_template_records(b, pos, end) == Ok::<_, IpfixError>(ts.skip(i)),
    decreases ts.len() - i,
{
    let body = spec_template_records_bytes(ts, i).unwrap();
    if i >= ts.len() {
        assert(body.len() == 0);
        assert(ts.skip(i) =~= Seq::<TemplateRecordV>::empty());
        if pad == 0 {
        } else {
            // a record attempt in the padding runs out of bytes
            assert(spec_parse_template_record(b, pos, end) matches Err(
                IpfixError::UnexpectedEof { .. },
            ));
        }
    } else {
        let tb = spec_template_record_bytes(ts[i]).unwrap();
        let rest = spec_template_records_bytes(ts, i + 1).unwrap();
        assert(body == tb + rest);
        lemma_template_record_bytes_len(ts[i]);
        assert(b.subrange(pos, pos + tb.len()) =~= tb) by {
            assert(forall|k: int| 0 <= k < tb.len() ==> body[k] == #[trigger] tb[k]);
        }
        lemma_template_record_round_trip(b, pos, end, ts[i]);
        let p = pos + tb.len();
        assert(b.subrange(p, p + rest.len()) =~= rest) by {
            assert(forall|k: int| 0 <= k < rest.len() ==> body[k + tb.len()] == #[trigger] rest[
                k
            ]);
        }
        lemma_template_records_round_trip(b, p, end, ts, i + 1, pad);
        assert(ts.skip(i) =~= seq![ts[i]] + ts.skip(i + 1));
    }
}

/// A written options template record occupies its 6-byte header plus its
/// specifiers' bytes.
pub proof fn lemma_options_template_record_bytes_len(t: OptionsTemplateRecordV)
    requires
        crate::writer::spec_options_template_record_bytes(t) is Some,
    ensures
        crate::writer::spec_options_template_record_bytes(t).unwrap().len() == 6
            + spec_field_specs_bytes(t.field_specifiers, 0).len(),
{
    lemma_be_bytes_len(t.template_id as nat, 2);
    lemma_be_bytes_len(t.field_specifiers.len(), 2);
    lemma_be_bytes_len(t.scope_field_count as nat, 2);
}

/// The round-trip identity at the record-run layer for options template
/// sets, whose padding must stay shorter than a record header.
pub proof fn lemma_options_template_records_round_trip(
    b: Seq<u8>,
    pos: int,
    end: int,
    ts: Seq<OptionsTemplateRecordV>,
    i: int,
    pad: int,
)
    requires
        0 <= i <= ts.len(),
        forall|k: int| 0 <= k < ts.len() ==> #[trigger] ts[k].template_id > 255,
        forall|k: int| 0 <= k < ts.len() ==> #[trigger] ts[k].field_specifiers.len() <= 0xFFFF,
        forall|k: int, j: int|
            0 <= k < ts.len() && 0 <= j < ts[k].field_specifiers.len()
                ==> (#[trigger] ts[k].field_specifiers[j]).wf(),
        crate::writer::spec_options_template_records_bytes(ts, i) is Some,
        0 <= pos,
        0 <= pad < 6,
        end == pos + crate::writer::spec_options_template_records_bytes(ts, i).unwrap().len()
            + pad,
        end <= b.len(),
        b.subrange(
            pos,
            pos + crate::writer::spec_options_template_records_bytes(ts, i).unwrap().len(),
        ) == crate::writer::spec_options_template_records_bytes(ts, i).unwrap(),
    ensures
        spec_parse_options_template_records(b, pos, end) == Ok::<_, IpfixError>(ts.skip(i)),
    decreases ts.len() - i,
{
    let body = crate::writer::spec_options_template_records_bytes(ts, i).unwrap();
    if i >= ts.len() {
        assert(body.len() == 0);
        assert(ts.skip(i) =~= Seq::<OptionsTemplateRecordV>::empty());
        if pad == 0 {
        } else {
            assert(spec_parse_options_template_record(b, pos, end) matches Err(
                IpfixError::UnexpectedEof { .. },
            ));
        }
    } else {
        let tb = crate::writer::spec_options_template_record_bytes(ts[i]).unwrap();
        let rest = crate::writer::spec_options_template_records_bytes(ts, i + 1).unwrap();
        assert(body == tb + rest);
        lemma_options_template_record_bytes_len(ts[i]);
        assert(b.subrange(pos, pos + tb.len()) =~= tb) by {
            assert(forall|k: int| 0 <= k < tb.len() ==> body[k] == #[trigger] tb[k]);
        }
        lemma_options_template_record_round_trip(b, pos, end, ts[i]);
        let p = pos + tb.len();
        assert(b.subrange(p, p + rest.len()) =~= rest) by {
            assert(forall|k: int| 0 <= k < rest.len() ==> body[k + tb.len()] == #[trigger] rest[
                k
            ]);
        }
        lemma_options_template_records_round_trip(b, p, end, ts, i + 1, pad);
        assert(ts.skip(i) =~= seq![ts[i]] + ts.skip(i + 1));
    }
}

/// The round-trip identity at the data-record layer: a record whose
/// values sit in template order under distinct keys, each in a matching
/// slot, parses back from its written bytes unchanged.
pub proof fn lemma_data_record_round_trip(
    b: Seq<u8>,
    pos: int,
    end: int,
    values: Seq<(KeyV, ValueV)>,
    fields: Seq<crate::template_store::ExpandedFieldSpecifierV>,
    i: int,
)
    requires
        0 <= i <= fields.len(),
        values.len() == fields.len(),
        forall|k: int| 0 <= k < fields.len() ==> (#[trigger] values[k].0) == fields[k].name,
        forall|k1: int, k2: int|
            0 <= k1 < k2 < fields.len() ==> (#[trigger] fields[k1].name) != (
            #[trigger] fields[k2].name),
        forall|k: int|
            0 <= k < fields.len() ==> spec_value_slot_matches(
                fields[k].ty,
                (#[trigger] values[k]).1,
                fields[k].field_length,
            ),
        forall|k: int|
            0 <= k < fields.len() ==> spec_value_write_ok(
                (#[trigger] values[k]).1,
                fields[k].field_length,
            ),
        crate::writer::spec_data_record_bytes(values, fields, i) is Some,
        0 <= pos,
        pos + crate::writer::spec_data_record_bytes(values, fields, i).unwrap().len() <= end
            <= b.len(),
        b.subrange(
            pos,
            pos + crate::writer::spec_data_record_bytes(values, fields, i).unwrap().len(),
        ) == crate::writer::spec_data_record_bytes(values, fields, i).unwrap(),
    ensures
        crate::framer::spec_parse_data_values(b, pos, end, fields, i, values.take(i)) == Ok::<
            _,
            IpfixError,
        >((
            values,
            pos + crate::writer::spec_data_record_bytes(values, fields, i).unwrap().len(),
        )),
    decreases fields.len() - i,
{
    let body = crate::writer::spec_data_record_bytes(values, fields, i).unwrap();
    if i >= fields.len() {
        assert(values.take(i) =~= values);
        assert(body.len() == 0);
    } else {
        crate::types::lemma_record_find_characterizes(values, fields[i].name);
        let f = spec_record_find(values, fields[i].name);
        assert(values[i].0 == fields[i].name);
        assert(f == i) by {
            assert(f != -1);
            if f < i {
                assert(values[f].0 == fields[f].name);
            }
            if f > i {
                assert(values[i].0 != fields[i].name);
            }
        }
        let v = values[i].1;
        assert(spec_record_get(values, fields[i].name) == Some(v));
        let vb = spec_value_bytes(v, fields[i].field_length);
        let rest = crate::writer::spec_data_record_bytes(values, fields, i + 1).unwrap();
        assert(body == vb + rest);
        assert(b.subrange(pos, pos + vb.len()) =~= vb) by {
            assert(forall|k: int| 0 <= k < vb.len() ==> body[k] == #[trigger] vb[k]);
        }
        lemma_value_round_trip(fields[i].ty, v, fields[i].field_length, b, pos, end);
        let p = pos + vb.len();
        assert(b.subrange(p, p + rest.len()) =~= rest) by {
            assert(forall|k: int| 0 <= k < rest.len() ==> body[k + vb.len()] == #[trigger] rest[
                k
            ]);
        }
        // reading appends the pair: the key is fresh among those read so far
        crate::types::lemma_record_find_characterizes(values.take(i), fields[i].name);
        let g = spec_record_find(values.take(i), fields[i].name);
        assert(g == -1) by {
            if g != -1 {
                assert(values.take(i)[g].0 == fields[i].name);
                assert(values[g].0 == fields[g].name);
            }
        }
        assert(crate::types::spec_record_insert(values.take(i), fields[i].name, v)
            =~= values.take(i + 1));
        lemma_data_record_round_trip(b, p, end, values, fields, i + 1);
    }
}

/// How many bytes a value occupies in its slot: its fixed width, or at
/// least its length prefix when the slot is variable-length.
pub proof fn lemma_value_bytes_len(ty: DataRecordType, v: ValueV, len: u16)
    requires
        spec_value_slot_matches(ty, v, len),
        spec_value_write_ok(v, len),
    ensures
        len == 0xFFFF ==> spec_value_bytes(v, len).len() >= 1,
        len != 0xFFFF ==> spec_value_bytes(v, len).len() == len,
{
    match v {
        ValueV::U8(x) => lemma_be_bytes_len(x as nat, 1),
        ValueV::U16(x) => lemma_be_bytes_len(x as nat, 2),
        ValueV::U32(x) => lemma_be_bytes_len(x as nat, 4),
        ValueV::U64(x) => lemma_be_bytes_len(x as nat, 8),
        ValueV::I8(x) => lemma_be_bytes_len((x as u8) as nat, 1),
        ValueV::I16(x) => lemma_be_bytes_len((x as u16) as nat, 2),
        ValueV::I32(x) => lemma_be_bytes_len((x as u32) as nat, 4),
        ValueV::I64(x) => lemma_be_bytes_len((x as u64) as nat, 8),
        ValueV::F32(x) => lemma_be_bytes_len(x as nat, 4),
        ValueV::F64(x) => lemma_be_bytes_len(x as nat, 8),
        ValueV::Bool(_) => {},
        ValueV::MacAddress(_) => {},
        ValueV::Bytes(bs) => {
            if len == 0xFFFF {
                lemma_be_bytes_len(bs.len(), 2);
            }
        },
        ValueV::String(cs) => {
            if len == 0xFFFF {
                lemma_be_bytes_len(vstd::utf8::encode_utf8(cs).len(), 2);
            }
        },
        ValueV::DateTimeSeconds(x) => lemma_be_bytes_len(x as nat, 4),
        ValueV::DateTimeMilliseconds(x) => lemma_be_bytes_len(x as nat, 8),
        ValueV::DateTimeMicroseconds(x) => lemma_be_bytes_len(x as nat, 8),
        ValueV::DateTimeNanoseconds(x) => lemma_be_bytes_len(x as nat, 8),
        ValueV::Ipv4Addr(_) => {},
        ValueV::Ipv6Addr(_) => {},
    }
}

/// The shape under which one data record round-trips: values in template
/// order under distinct keys, each in a matching slot, with a first field
/// that occupies at least one byte.
pub open spec fn spec_record_round_trip_ready(
    values: Seq<(KeyV, ValueV)>,
    fields: Seq<crate::template_store::ExpandedFieldSpecifierV>,
) -> bool {
    &&& values.len() == fields.len()
    &&& fields.len() > 0
    &&& fields[0].field_length != 0
    &&& (forall|k: int| 0 <= k < fields.len() ==> (#[trigger] values[k].0) == fields[k].name)
    &&& (forall|k1: int, k2: int|
        0 <= k1 < k2 < fields.len() ==> (#[trigger] fields[k1].name) != (
        #[trigger] fields[k2].name))
    &&& (forall|k: int|
        0 <= k < fields.len() ==> spec_value_slot_matches(
            fields[k].ty,
            (#[trigger] values[k]).1,
            fields[k].field_length,
        ))
    &&& (forall|k: int|
        0 <= k < fields.len() ==> spec_value_write_ok(
            (#[trigger] values[k]).1,
            fields[k].field_length,
        ))
}

/// A round-trip-ready record occupies at least one byte on the wire.
pub proof fn lemma_data_record_bytes_positive(
    values: Seq<(KeyV, ValueV)>,
    fields: Seq<crate::template_store::ExpandedFieldSpecifierV>,
)
    requires
        spec_record_round_trip_ready(values, fields),
        crate::writer::spec_data_record_bytes(values, fields, 0) is Some,
    ensures
        crate::writer::spec_data_record_bytes(values, fields, 0).unwrap().len() >= 1,
{
    crate::types::lemma_record_find_characterizes(values, fields[0].name);
    let f = spec_record_find(values, fields[0].name);
    assert(f == 0) by {
        assert(values[0].0 == fields[0].name);
        if f > 0 {
            assert(values[0].0 != fields[0].name);
        }
    }
    let v = values[0].1;
    lemma_value_bytes_len(fields[0].ty, v, fields[0].field_length);
}

/// The round-trip identity at the data-record-run layer, for sets whose
/// payload fills them exactly (no alignment padding).
pub proof fn lemma_data_records_round_trip(
    b: Seq<u8>,
    pos: int,
    end: int,
    recs: Seq<crate::types::DataRecordV>,
    fields: Seq<crate::template_store::ExpandedFieldSpecifierV>,
    i: int,
)
    requires
        0 <= i <= recs.len(),
        forall|k: int|
            0 <= k < recs.len() ==> spec_record_round_trip_ready(
                (#[trigger] recs[k]).values,
                fields,
            ),
        crate::writer::spec_data_records_bytes(recs, fields, i) is Some,
        0 <= pos,
        end == pos + crate::writer::spec_data_records_bytes(recs, fields, i).unwrap().len(),
        end <= b.len(),
        b.subrange(pos, end) == crate::writer::spec_data_records_bytes(
            recs,
            fields,
            i,
        ).unwrap(),
    ensures
        crate::framer::spec_parse_data_records(b, pos, end, fields) == Ok::<_, IpfixError>(
            recs.skip(i),
        ),
    decreases recs.len() - i,
{
    let body = crate::writer::spec_data_records_bytes(recs, fields, i).unwrap();
    if i >= recs.len() {
        assert(body.len() == 0);
        assert(recs.skip(i) =~= Seq::<crate::types::DataRecordV>::empty());
    } else {
        let values = recs[i].values;
        let rb = crate::writer::spec_data_record_bytes(values, fields, 0).unwrap();
        let rest = crate::writer::spec_data_records_bytes(recs, fields, i + 1).unwrap();
        assert(body == rb + rest);
        lemma_data_record_bytes_positive(values, fields);
        assert(b.subrange(pos, pos + rb.len()) =~= rb) by {
            assert(forall|k: int| 0 <= k < rb.len() ==> body[k] == #[trigger] rb[k]);
        }
        assert(values.take(0) =~= Seq::<(KeyV, ValueV)>::empty());
        lemma_data_record_round_trip(b, pos, end, values, fields, 0);
        let p = pos + rb.len();
        assert(crate::framer::spec_parse_data_values(
            b,
            pos,
            end,
            fields,
            0,
            Seq::empty(),
        ) == Ok::<_, IpfixError>((values, p)));
        assert(b.subrange(p, p + rest.len()) =~= rest) by {
            assert(forall|k: int| 0 <= k < rest.len() ==> body[k + rb.len()] == #[trigger] rest[
                k
            ]);
        }
        lemma_data_records_round_trip(b, p, end, recs, fields, i + 1);
        assert(recs.skip(i) =~= seq![recs[i]] + recs.skip(i + 1));
        assert(crate::types::DataRecordV { values } == recs[i]);
    }
}

/// Installing template records whose expansions the store already holds
/// leaves the store unchanged.
pub proof fn lemma_install_templates_fixpoint(
    store: Map<u16, TemplateV>,
    ts: Seq<TemplateRecordV>,
    fmt: Seq<FormatterEntryV>,
)
    requires
        forall|k: int|
            0 <= k < ts.len() ==> store.contains_key((#[trigger] ts[k]).template_id)
                && store[ts[k].template_id] == TemplateV::Template(
                crate::template_store::spec_expand_fields(ts[k].field_specifiers, fmt),
            ),
    ensures
        spec_install_templates(store, ts, fmt) == store,
    decreases ts.len(),
{
    if ts.len() > 0 {
        assert(store.insert(
            ts[0].template_id,
            TemplateV::Template(
                crate::template_store::spec_expand_fields(ts[0].field_specifiers, fmt),
            ),
        ) =~= store);
        assert(forall|k: int|
            0 <= k < ts.drop_first().len() ==> #[trigger] ts.drop_first()[k] == ts[k + 1]);
        lemma_install_templates_fixpoint(store, ts.drop_first(), fmt);
    }
}

/// Installing options template records whose expansions the store already
/// holds leaves the store unchanged.
pub proof fn lemma_install_options_templates_fixpoint(
    store: Map<u16, TemplateV>,
    ts: Seq<OptionsTemplateRecordV>,
    fmt: Seq<FormatterEntryV>,
)
    requires
        forall|k: int|
            0 <= k < ts.len() ==> store.contains_key((#[trigger] ts[k]).template_id)
                && store[ts[k].template_id] == TemplateV::OptionsTemplate(
                crate::template_store::spec_expand_fields(ts[k].field_specifiers, fmt),
            ),
    ensures
        spec_install_options_templates(store, ts, fmt) == store,
    decreases ts.len(),
{
    if ts.len() > 0 {
        assert(store.insert(
            ts[0].template_id,
            TemplateV::OptionsTemplate(
                crate::template_store::spec_expand_fields(ts[0].field_specifiers, fmt),
            ),
        ) =~= store);
        assert(forall|k: int|
            0 <= k < ts.drop_first().len() ==> #[trigger] ts.drop_first()[k] == ts[k + 1]);
        lemma_install_options_templates_fixpoint(store, ts.drop_first(), fmt);
    }
}

/// The shape under which a whole set round-trips: well-formed, non-empty
/// records whose templates the store already holds (so that re-parsing
/// re-installs what is already there), and data sets that refer to the
/// store under an id of their own.
pub open spec fn spec_records_round_trip_ready(
    r: RecordsV,
    store: Map<u16, TemplateV>,
    fmt: Seq<FormatterEntryV>,
) -> bool {
    match r {
        RecordsV::Template(ts) => {
            &&& ts.len() > 0
            &&& (forall|k: int| 0 <= k < ts.len() ==> (#[trigger] ts[k]).template_id > 255)
            &&& (forall|k: int|
                0 <= k < ts.len() ==> (#[trigger] ts[k]).field_specifiers.len() <= 0xFFFF)
            &&& (forall|k: int, j: int|
                0 <= k < ts.len() && 0 <= j < ts[k].field_specifiers.len()
                    ==> (#[trigger] ts[k].field_specifiers[j]).wf())
            &&& (forall|k: int|
                0 <= k < ts.len() ==> store.contains_key((#[trigger] ts[k]).template_id)
                    && store[ts[k].template_id] == TemplateV::Template(
                    crate::template_store::spec_expand_fields(ts[k].field_specifiers, fmt),
                ))
        },
        RecordsV::OptionsTemplate(ts) => {
            &&& ts.len() > 0
            &&& (forall|k: int| 0 <= k < ts.len() ==> (#[trigger] ts[k]).template_id > 255)
            &&& (forall|k: int|
                0 <= k < ts.len() ==> (#[trigger] ts[k]).field_specifiers.len() <= 0xFFFF)
            &&& (forall|k: int, j: int|
                0 <= k < ts.len() && 0 <= j < ts[k].field_specifiers.len()
                    ==> (#[trigger] ts[k].field_specifiers[j]).wf())
            &&& (forall|k: int|
                0 <= k < ts.len() ==> store.contains_key((#[trigger] ts[k]).template_id)
                    && store[ts[k].template_id] == TemplateV::OptionsTemplate(
                    crate::template_store::spec_expand_fields(ts[k].field_specifiers, fmt),
                ))
        },
        RecordsV::Data { set_id, data } => {
            &&& set_id > 255
            &&& store.contains_key(set_id)
            &&& data.len() > 0
            &&& (forall|k: int|
                0 <= k < data.len() ==> spec_record_round_trip_ready(
                    (#[trigger] data[k]).values,
                    crate::template_store::spec_template_fields(store[set_id]),
                ))
        },
    }
}

/// The round-trip identity at the set-run layer.  The alignment stays at
/// 4 or below, so that template-set padding cannot amount to a whole
/// record header; data sets must fill their length exactly, so the
/// alignment is 1 when any are present.
#[verifier::rlimit(100)]
pub proof fn lemma_sets_round_trip(
    b: Seq<u8>,
    pos: int,
    sets: Seq<RecordSetV>,
    store: Map<u16, TemplateV>,
    fmt: Seq<FormatterEntryV>,
    a: int,
    i: int,
)
    requires
        0 <= i <= sets.len(),
        1 <= a <= 4,
        forall|k: int|
            0 <= k < sets.len() ==> spec_records_round_trip_ready(
                (#[trigger] sets[k]).records,
                store,
                fmt,
            ),
        forall|k: int|
            0 <= k < sets.len() ==> (a == 1 || !((#[trigger] sets[k]).records is Data)),
        crate::writer::spec_sets_bytes(sets, store, a, pos, i) is Some,
        16 <= pos,
        b.len() == pos + crate::writer::spec_sets_bytes(sets, store, a, pos, i).unwrap().len(),
        b.len() <= 0xFFFF,
        b.subrange(pos, b.len() as int) == crate::writer::spec_sets_bytes(
            sets,
            store,
            a,
            pos,
            i,
        ).unwrap(),
    ensures
        crate::framer::spec_parse_sets(b, pos, b.len() as u16, store, fmt) == (
            Ok::<Seq<RecordSetV>, IpfixError>(sets.skip(i)),
            store,
        ),
    decreases sets.len() - i,
{
    let body = crate::writer::spec_sets_bytes(sets, store, a, pos, i).unwrap();
    let msg_len = b.len() as u16;
    if i >= sets.len() {
        assert(body.len() == 0);
        assert(sets.skip(i) =~= Seq::<RecordSetV>::empty());
    } else {
        let r = sets[i].records;
        let payload = spec_records_bytes(r, store).unwrap();
        let pad = spec_pad_len(pos + 4 + payload.len(), a);
        assert(0 <= pad < a);
        let set_len = 4 + payload.len() + pad;
        let sid = crate::types::spec_set_id(r);
        let sb = crate::writer::spec_set_bytes(sets[i], store, a, pos).unwrap();
        lemma_be_bytes_len(sid as nat, 2);
        lemma_be_bytes_len(set_len as nat, 2);
        assert(zero_bytes(pad as nat).len() == pad);
        assert(sb == be_bytes(sid as nat, 2) + be_bytes(set_len as nat, 2) + payload
            + zero_bytes(pad as nat));
        let rest = crate::writer::spec_sets_bytes(
            sets,
            store,
            a,
            pos + sb.len(),
            i + 1,
        ).unwrap();
        assert(body == sb + rest);
        assert(forall|k: int| 0 <= k < sb.len() ==> b.subrange(pos, b.len() as int)[k]
            == #[trigger] sb[k]);
        assert(b.subrange(pos, pos + 2) =~= be_bytes(sid as nat, 2));
        lemma_pow256_values();
        lemma_from_be_of_be_bytes(sid as nat, 2);
        assert(b.subrange(pos + 2, pos + 4) =~= be_bytes(set_len as nat, 2)) by {
            assert forall|j: int|
                #![trigger b.subrange(pos + 2, pos + 4)[j]]
                0 <= j < 2 implies b.subrange(pos + 2, pos + 4)[j] == be_bytes(
                set_len as nat,
                2,
            )[j] by {
                assert(b.subrange(pos, b.len() as int)[j + 2] == sb[j + 2]);
            }
        }
        lemma_from_be_of_be_bytes(set_len as nat, 2);
        assert(b.subrange(pos + 4, pos + 4 + payload.len()) =~= payload) by {
            assert forall|j: int|
                #![trigger b.subrange(pos + 4, pos + 4 + payload.len())[j]]
                0 <= j < payload.len() implies b.subrange(pos + 4, pos + 4 + payload.len())[j]
                == payload[j] by {
                assert(b.subrange(pos, b.len() as int)[j + 4] == sb[j + 4]);
            }
        }
        let set_end = pos + set_len;
        // the payload is non-empty in every ready set
        match r {
            RecordsV::Template(ts) => {
                lemma_template_record_bytes_len(ts[0]);
                assert(payload == spec_template_record_bytes(ts[0]).unwrap()
                    + spec_template_records_bytes(ts, 1).unwrap());
                assert(payload.len() >= 4);
                lemma_template_records_round_trip(b, pos + 4, set_end, ts, 0, pad);
                assert(ts.skip(0) =~= ts);
                lemma_install_templates_fixpoint(store, ts, fmt);
            },
            RecordsV::OptionsTemplate(ts) => {
                lemma_options_template_record_bytes_len(ts[0]);
                assert(payload == crate::writer::spec_options_template_record_bytes(
                    ts[0],
                ).unwrap() + crate::writer::spec_options_template_records_bytes(ts, 1).unwrap());
                assert(payload.len() >= 6);
                lemma_options_template_records_round_trip(b, pos + 4, set_end, ts, 0, pad);
                assert(ts.skip(0) =~= ts);
                lemma_install_options_templates_fixpoint(store, ts, fmt);
            },
            RecordsV::Data { set_id, data } => {
                assert(a == 1);
                assert((pos + 4 + payload.len() as int) % 1 == 0);
                assert(pad == 0);
                let fields = crate::template_store::spec_template_fields(store[set_id]);
                lemma_data_record_bytes_positive(data[0].values, fields);
                assert(payload == crate::writer::spec_data_record_bytes(
                    data[0].values,
                    fields,
                    0,
                ).unwrap() + crate::writer::spec_data_records_bytes(data, fields, 1).unwrap());
                assert(payload.len() >= 1);
                lemma_data_records_round_trip(b, pos + 4, set_end - pad, data, fields, 0);
                assert(set_end - pad == set_end);
                assert(data.skip(0) =~= data);
            },
        }
        assert(set_len > 4);
        // the rest of the sets start where this one ends
        assert(b.subrange(set_end, b.len() as int) =~= rest) by {
            assert(forall|k: int|
                0 <= k < rest.len() ==> body[k + sb.len()] == #[trigger] rest[k]);
        }
        lemma_sets_round_trip(b, set_end, sets, store, fmt, a, i + 1);
        assert(sets.skip(i) =~= seq![sets[i]] + sets.skip(i + 1));
    }
}

/// The round-trip identity: a message written against a store that
/// already holds its own templates' expansions parses back to the same
/// message, leaving the store unchanged.  The alignment stays at 4 or
/// below; data sets, whose padding could itself parse as a record, ask
/// for alignment 1.
pub proof fn lemma_message_round_trip(
    m: MessageV,
    store: Map<u16, TemplateV>,
    fmt: Seq<FormatterEntryV>,
    a: int,
    bytes: Seq<u8>,
)
    requires
        1 <= a <= 4,
        spec_write_message(m, store, a) == Some(bytes),
        forall|k: int|
            0 <= k < m.sets.len() ==> spec_records_round_trip_ready(
                (#[trigger] m.sets[k]).records,
                store,
                fmt,
            ),
        forall|k: int|
            0 <= k < m.sets.len() ==> (a == 1 || !((#[trigger] m.sets[k]).records is Data)),
    ensures
        crate::framer::spec_parse_message(bytes, store, fmt) == (
            Ok::<MessageV, IpfixError>(m),
            store,
        ),
{
    let body = crate::writer::spec_sets_bytes(m.sets, store, a, 16, 0).unwrap();
    let total = 16 + body.len();
    lemma_pow256_values();
    lemma_be_bytes_len(10, 2);
    lemma_be_bytes_len(total, 2);
    lemma_be_bytes_len(m.export_time as nat, 4);
    lemma_be_bytes_len(m.sequence_number as nat, 4);
    lemma_be_bytes_len(m.observation_domain_id as nat, 4);
    assert(bytes.len() == total);
    assert(bytes.subrange(0, 2) =~= be_bytes(10, 2));
    lemma_from_be_of_be_bytes(10, 2);
    assert(bytes.subrange(2, 4) =~= be_bytes(total, 2));
    lemma_from_be_of_be_bytes(total, 2);
    assert(bytes.subrange(4, 8) =~= be_bytes(m.export_time as nat, 4));
    lemma_from_be_of_be_bytes(m.export_time as nat, 4);
    assert(bytes.subrange(8, 12) =~= be_bytes(m.sequence_number as nat, 4));
    lemma_from_be_of_be_bytes(m.sequence_number as nat, 4);
    assert(bytes.subrange(12, 16) =~= be_bytes(m.observation_domain_id as nat, 4));
    lemma_from_be_of_be_bytes(m.observation_domain_id as nat, 4);
    assert(bytes.subrange(16, bytes.len() as int) =~= body);
    lemma_sets_round_trip(bytes, 16, m.sets, store, fmt, a, 0);
    assert(m.sets.skip(0) =~= m.sets);
    assert(crate::framer::spec_parse_sets(bytes, 16, bytes.len() as u16, store, fmt) == (
        Ok::<Seq<RecordSetV>, IpfixError>(m.sets),
        store,
    ));
}

/// The round-trip identity in decode-first form: for a message decoded
/// from bytes the writer can produce (canonical encodings, against a
/// store that already holds the message's own templates), re-encoding the
/// decoded message with the same store, formatter and alignment
/// reproduces exactly the input bytes.
pub proof fn lemma_round_trip_identity(
    m: MessageV,
    store: Map<u16, TemplateV>,
    fmt: Seq<FormatterEntryV>,
    a: int,
    b: Seq<u8>,
)
    requires
        1 <= a <= 4,
        spec_write_message(m, store, a) == Some(b),
        forall|k: int|
            0 <= k < m.sets.len() ==> spec_records_round_trip_ready(
                (#[trigger] m.sets[k]).records,
                store,
                fmt,
            ),
        forall|k: int|
            0 <= k < m.sets.len() ==> (a == 1 || !((#[trigger] m.sets[k]).records is Data)),
    ensures
        ({
            let (res, st) = crate::framer::spec_parse_message(b, store, fmt);
            &&& res == Ok::<MessageV, IpfixError>(m)
            &&& st == store
            &&& spec_write_message(res.unwrap(), st, a) == Some(b)
        }),
{
    lemma_message_round_trip(m, store, fmt, a, b);
}

} // verus!
