//! The message framer, write side: messages serialised back to bytes.
//!
//! `spec_write_message` and its helpers fix the exact bytes of every
//! structure, including each set's length field and the alignment padding
//! behind its payload, so no back-patching is needed: payloads are built
//! first and framed once their sizes are known.  The executable writers
//! are proved to produce exactly the specified bytes, and to fail exactly
//! when the specification has no encoding.

use vstd::prelude::*;

use crate::template_store::{
    spec_template_fields, ExpandedFieldSpecifier, ExpandedFieldSpecifierV, TemplateStore,
    TemplateV,
};
use crate::types::{
    seq_views, spec_record_get, spec_set_id, DataRecord, DataRecordV, FieldSpecifier,
    IpfixError, KeyV, Message, MessageV, OptionsTemplateRecord, OptionsTemplateRecordV,
    RecordSet, RecordSetV, Records, RecordsV, TemplateRecord, TemplateRecordV, ValueV,
};
use crate::values::{spec_value_bytes, spec_value_write_ok, write_value};
use crate::wire::{be_bytes, push_u16, push_u32, zero_bytes};

verus! {

// ---------------------------------------------------------------------------
// Field specifiers and template records
// ---------------------------------------------------------------------------

/// The wire form of a field specifier: the identifier with the enterprise
/// bit folded in, the field length, and the enterprise number when present.
pub open spec fn spec_field_spec_bytes(fs: FieldSpecifier) -> Seq<u8> {
    let raw: u16 = if fs.enterprise_number is Some
        && fs.information_element_identifier < 0x8000 {
        (fs.information_element_identifier + 0x8000) as u16
    } else {
        fs.information_element_identifier
    };
    be_bytes(raw as nat, 2) + be_bytes(fs.field_length as nat, 2) + (match fs.enterprise_number {
        Some(e) => be_bytes(e as nat, 4),
        None => Seq::<u8>::empty(),
    })
}

/// The concatenated wire forms of the specifiers from index `i` on.
pub open spec fn spec_field_specs_bytes(fss: Seq<FieldSpecifier>, i: int) -> Seq<u8>
    decreases fss.len() - i,
{
    if i < 0 || i >= fss.len() {
        Seq::empty()
    } else {
        spec_field_spec_bytes(fss[i]) + spec_field_specs_bytes(fss, i + 1)
    }
}

/// The wire form of a template record, when its field count fits the
/// 16-bit count field.
pub open spec fn spec_template_record_bytes(t: TemplateRecordV) -> Option<Seq<u8>> {
    if t.field_specifiers.len() > 0xFFFF {
        None
    } else {
        Some(
            be_bytes(t.template_id as nat, 2) + be_bytes(t.field_specifiers.len(), 2)
                + spec_field_specs_bytes(t.field_specifiers, 0),
        )
    }
}

/// The wire form of an options template record.
pub open spec fn spec_options_template_record_bytes(t: OptionsTemplateRecordV) -> Option<
    Seq<u8>,
> {
    if t.field_specifiers.len() > 0xFFFF {
        None
    } else {
        Some(
            be_bytes(t.template_id as nat, 2) + be_bytes(t.field_specifiers.len(), 2)
                + be_bytes(t.scope_field_count as nat, 2)
                + spec_field_specs_bytes(t.field_specifiers, 0),
        )
    }
}

/// The concatenated wire forms of the template records from index `i` on.
pub open spec fn spec_template_records_bytes(ts: Seq<TemplateRecordV>, i: int) -> Option<Seq<u8>>
    decreases ts.len() - i,
{
    if i < 0 || i >= ts.len() {
        Some(Seq::empty())
    } else {
        match spec_template_record_bytes(ts[i]) {
            None => None,
            Some(tb) => match spec_template_records_bytes(ts, i + 1) {
                None => None,
                Some(rest) => Some(tb + rest),
            },
        }
    }
}

/// The concatenated wire forms of the options template records from `i` on.
pub open spec fn spec_options_template_records_bytes(
    ts: Seq<OptionsTemplateRecordV>,
    i: int,
) -> Option<Seq<u8>>
    decreases ts.len() - i,
{
    if i < 0 || i >= ts.len() {
        Some(Seq::empty())
    } else {
        match spec_options_template_record_bytes(ts[i]) {
            None => None,
            Some(tb) => match spec_options_template_records_bytes(ts, i + 1) {
                None => None,
                Some(rest) => Some(tb + rest),
            },
        }
    }
}

/// Append the wire form of one field specifier.
fn write_field_spec(fs: &FieldSpecifier, out: &mut Vec<u8>)
    ensures
        final(out)@ == old(out)@ + spec_field_spec_bytes(*fs),
{
    let raw: u16 = if fs.enterprise_number.is_some()
        && fs.information_element_identifier < 0x8000 {
        fs.information_element_identifier + 0x8000
    } else {
        fs.information_element_identifier
    };
    push_u16(out, raw);
    push_u16(out, fs.field_length);
    match fs.enterprise_number {
        Some(e) => {
            push_u32(out, e);
            proof {
                assert(out@ =~= old(out)@ + spec_field_spec_bytes(*fs));
            }
        },
        None => {
            proof {
                assert(out@ =~= old(out)@ + spec_field_spec_bytes(*fs));
            }
        },
    }
}

/// Append the wire forms of all specifiers of a template record.
fn write_field_specs(fss: &Vec<FieldSpecifier>, out: &mut Vec<u8>)
    ensures
        final(out)@ == old(out)@ + spec_field_specs_bytes(fss@, 0),
{
    let ghost start = old(out)@;
    let ghost mut acc: Seq<u8> = Seq::empty();
    proof {
        assert(start + acc =~= start);
    }
    let mut i: usize = 0;
    while i < fss.len()
        invariant
            i <= fss@.len(),
            out@ == start + acc,
            spec_field_specs_bytes(fss@, 0) == acc + spec_field_specs_bytes(fss@, i as int),
        decreases fss@.len() - i,
    {
        let ghost acc0 = acc;
        write_field_spec(&fss[i], out);
        proof {
            acc = acc + spec_field_spec_bytes(fss@[i as int]);
            assert(out@ =~= start + acc);
            assert(acc0 + (spec_field_spec_bytes(fss@[i as int]) + spec_field_specs_bytes(
                fss@,
                i + 1,
            )) =~= acc + spec_field_specs_bytes(fss@, i + 1));
        }
        i = i + 1;
    }
    proof {
        assert(acc + Seq::<u8>::empty() =~= acc);
    }
}

/// Append the wire form of one template record; fails, leaving the output
/// unchanged, when the field count does not fit 16 bits.
fn write_template_record(t: &TemplateRecord, out: &mut Vec<u8>) -> (r: Result<(), IpfixError>)
    ensures
        r is Ok <==> spec_template_record_bytes(t@) is Some,
        r is Ok ==> final(out)@ == old(out)@ + spec_template_record_bytes(t@).unwrap(),
        r is Err ==> final(out)@ == old(out)@,
{
    let n = t.field_specifiers.len();
    if n > 0xFFFF {
        return Err(IpfixError::LengthOverflow { len: n });
    }
    push_u16(out, t.template_id);
    push_u16(out, n as u16);
    write_field_specs(&t.field_specifiers, out);
    proof {
        assert(out@ =~= old(out)@ + spec_template_record_bytes(t@).unwrap());
    }
    Ok(())
}

/// Append the wire form of one options template record.
fn write_options_template_record(t: &OptionsTemplateRecord, out: &mut Vec<u8>) -> (r: Result<
    (),
    IpfixError,
>)
    ensures
        r is Ok <==> spec_options_template_record_bytes(t@) is Some,
        r is Ok ==> final(out)@ == old(out)@ + spec_options_template_record_bytes(
            t@,
        ).unwrap(),
        r is Err ==> final(out)@ == old(out)@,
{
    let n = t.field_specifiers.len();
    if n > 0xFFFF {
        return Err(IpfixError::LengthOverflow { len: n });
    }
    push_u16(out, t.template_id);
    push_u16(out, n as u16);
    push_u16(out, t.scope_field_count);
    write_field_specs(&t.field_specifiers, out);
    proof {
        assert(out@ =~= old(out)@ + spec_options_template_record_bytes(t@).unwrap());
    }
    Ok(())
}

// ---------------------------------------------------------------------------
// Data records
// ---------------------------------------------------------------------------

/// The wire form of one data record from field `i` on: each templated
/// field's value, fetched from the record by its expanded key, written at
/// the template's field length.  There is no encoding when a key is
/// missing or a value cannot go into its slot.
pub open spec fn spec_data_record_bytes(
    values: Seq<(KeyV, ValueV)>,
    fields: Seq<ExpandedFieldSpecifierV>,
    i: int,
) -> Option<Seq<u8>>
    decreases fields.len() - i,
{
    if i < 0 || i >= fields.len() {
        Some(Seq::empty())
    } else {
        match spec_record_get(values, fields[i].name) {
            None => None,
            Some(v) => if !spec_value_write_ok(v, fields[i].field_length) {
                None
            } else {
                match spec_data_record_bytes(values, fields, i + 1) {
                    None => None,
                    Some(rest) => Some(spec_value_bytes(v, fields[i].field_length) + rest),
                }
            },
        }
    }
}

/// The concatenated wire forms of the data records from index `i` on.
pub open spec fn spec_data_records_bytes(
    recs: Seq<DataRecordV>,
    fields: Seq<ExpandedFieldSpecifierV>,
    i: int,
) -> Option<Seq<u8>>
    decreases recs.len() - i,
{
    if i < 0 || i >= recs.len() {
        Some(Seq::empty())
    } else {
        match spec_data_record_bytes(recs[i].values, fields, 0) {
            None => None,
            Some(rb) => match spec_data_records_bytes(recs, fields, i + 1) {
                None => None,
                Some(rest) => Some(rb + rest),
            },
        }
    }
}

/// Append the wire form of one data record under the given template fields.
fn write_data_record(
    rec: &DataRecord,
    fields: &Vec<ExpandedFieldSpecifier>,
    out: &mut Vec<u8>,
) -> (r: Result<(), IpfixError>)
    ensures
        r is Ok <==> spec_data_record_bytes(rec@.values, seq_views(fields@), 0) is Some,
        r is Ok ==> final(out)@ == old(out)@ + spec_data_record_bytes(
            rec@.values,
            seq_views(fields@),
            0,
        ).unwrap(),
{
    let ghost start = old(out)@;
    let ghost fields_v = seq_views(fields@);
    let ghost full = spec_data_record_bytes(rec@.values, fields_v, 0);
    let ghost mut acc: Seq<u8> = Seq::empty();
    proof {
        assert(start + acc =~= start);
    }
    let mut i: usize = 0;
    while i < fields.len()
        invariant
            i <= fields@.len(),
            fields_v == seq_views(fields@),
            full == spec_data_record_bytes(rec@.values, fields_v, 0),
            out@ == start + acc,
            full == match spec_data_record_bytes(rec@.values, fields_v, i as int) {
                None => None::<Seq<u8>>,
                Some(rest) => Some(acc + rest),
            },
        decreases fields@.len() - i,
    {
        let ghost acc0 = acc;
        let field = &fields[i];
        proof {
            assert(fields_v[i as int] == fields@[i as int]@);
        }
        let v = match rec.get(&field.name) {
            Some(v) => v,
            None => {
                return Err(IpfixError::MissingField { key: field.name.clone() });
            },
        };
        match write_value(v, field.field_length, out) {
            Ok(()) => {},
            Err(e) => {
                return Err(e);
            },
        }
        proof {
            acc = acc + spec_value_bytes(v@, fields_v[i as int].field_length);
            assert(out@ =~= start + acc);
            let rest = spec_data_record_bytes(rec@.values, fields_v, i + 1);
            if rest is Some {
                assert(acc0 + (spec_value_bytes(v@, fields_v[i as int].field_length)
                    + rest.unwrap()) =~= acc + rest.unwrap());
            }
        }
        i = i + 1;
    }
    proof {
        assert(acc + Seq::<u8>::empty() =~= acc);
    }
    Ok(())
}

/// Append the wire forms of all data records of a set.
fn write_data_records(
    recs: &Vec<DataRecord>,
    fields: &Vec<ExpandedFieldSpecifier>,
    out: &mut Vec<u8>,
) -> (r: Result<(), IpfixError>)
    ensures
        r is Ok <==> spec_data_records_bytes(seq_views(recs@), seq_views(fields@), 0) is Some,
        r is Ok ==> final(out)@ == old(out)@ + spec_data_records_bytes(
            seq_views(recs@),
            seq_views(fields@),
            0,
        ).unwrap(),
{
    let ghost start = old(out)@;
    let ghost recs_v = seq_views(recs@);
    let ghost fields_v = seq_views(fields@);
    let ghost full = spec_data_records_bytes(recs_v, fields_v, 0);
    let ghost mut acc: Seq<u8> = Seq::empty();
    proof {
        assert(start + acc =~= start);
    }
    let mut i: usize = 0;
    while i < recs.len()
        invariant
            i <= recs@.len(),
            recs_v == seq_views(recs@),
            fields_v == seq_views(fields@),
            full == spec_data_records_bytes(recs_v, fields_v, 0),
            out@ == start + acc,
            full == match spec_data_records_bytes(recs_v, fields_v, i as int) {
                None => None::<Seq<u8>>,
                Some(rest) => Some(acc + rest),
            },
        decreases recs@.len() - i,
    {
        let ghost acc0 = acc;
        proof {
            assert(recs_v[i as int] == recs@[i as int]@);
        }
        match write_data_record(&recs[i], fields, out) {
            Ok(()) => {},
            Err(e) => {
                return Err(e);
            },
        }
        proof {
            let rb = spec_data_record_bytes(recs_v[i as int].values, fields_v, 0);
            acc = acc + rb.unwrap();
            assert(out@ =~= start + acc);
            let rest = spec_data_records_bytes(recs_v, fields_v, i + 1);
            if rest is Some {
                assert(acc0 + (rb.unwrap() + rest.unwrap()) =~= acc + rest.unwrap());
            }
        }
        i = i + 1;
    }
    proof {
        assert(acc + Seq::<u8>::empty() =~= acc);
    }
    Ok(())
}

// ---------------------------------------------------------------------------
// Records, sets, messages
// ---------------------------------------------------------------------------

/// The payload bytes of a set: the record run it carries, which for a
/// data set needs the template under the set id to be in the store.
pub open spec fn spec_records_bytes(r: RecordsV, store: Map<u16, TemplateV>) -> Option<Seq<u8>> {
    match r {
        RecordsV::Template(ts) => spec_template_records_bytes(ts, 0),
        RecordsV::OptionsTemplate(ts) => spec_options_template_records_bytes(ts, 0),
        RecordsV::Data { set_id, data } => if !store.contains_key(set_id) {
            None
        } else {
            spec_data_records_bytes(data, spec_template_fields(store[set_id]), 0)
        },
    }
}

/// How many padding bytes follow a payload ending at message offset `p`
/// so that the next set starts on a multiple of `a`.
pub open spec fn spec_pad_len(p: int, a: int) -> int
    recommends
        a >= 1,
{
    if p % a == 0 {
        0
    } else {
        a - p % a
    }
}

/// The wire form of one set starting at message offset `pos`: its id, its
/// length covering header, payload and alignment padding, the payload,
/// and the padding.  There is no encoding when the payload has none or
/// the length leaves the 16-bit domain.
pub open spec fn spec_set_bytes(
    s: RecordSetV,
    store: Map<u16, TemplateV>,
    a: int,
    pos: int,
) -> Option<Seq<u8>> {
    match spec_records_bytes(s.records, store) {
        None => None,
        Some(payload) => {
            let pad = spec_pad_len(pos + 4 + payload.len(), a);
            let set_len = 4 + payload.len() + pad;
            if set_len > 0xFFFF {
                None
            } else {
                Some(
                    be_bytes(spec_set_id(s.records) as nat, 2) + be_bytes(set_len as nat, 2)
                        + payload + zero_bytes(pad as nat),
                )
            }
        },
    }
}

/// The concatenated wire forms of the sets from index `i` on, the first
/// starting at message offset `pos`.
pub open spec fn spec_sets_bytes(
    sets: Seq<RecordSetV>,
    store: Map<u16, TemplateV>,
    a: int,
    pos: int,
    i: int,
) -> Option<Seq<u8>>
    decreases sets.len() - i,
{
    if i < 0 || i >= sets.len() {
        Some(Seq::empty())
    } else {
        match spec_set_bytes(sets[i], store, a, pos) {
            None => None,
            Some(sb) => match spec_sets_bytes(sets, store, a, pos + sb.len(), i + 1) {
                None => None,
                Some(rest) => Some(sb + rest),
            },
        }
    }
}

/// The wire form of a whole message under a template store and an
/// alignment: the version 10 magic, the total length, the header fields,
/// then the sets.  There is no encoding when a set has none or the total
/// length leaves the 16-bit domain.
pub open spec fn spec_write_message(m: MessageV, store: Map<u16, TemplateV>, a: int) -> Option<
    Seq<u8>,
> {
    match spec_sets_bytes(m.sets, store, a, 16, 0) {
        None => None,
        Some(body) => if 16 + body.len() > 0xFFFF {
            None
        } else {
            Some(
                be_bytes(10, 2) + be_bytes(16 + body.len(), 2) + be_bytes(m.export_time as nat, 4)
                    + be_bytes(m.sequence_number as nat, 4) + be_bytes(
                    m.observation_domain_id as nat,
                    4,
                ) + body,
            )
        },
    }
}

/// Append `n` zero bytes of padding.
fn push_zeros(out: &mut Vec<u8>, n: usize)
    ensures
        final(out)@ == old(out)@ + zero_bytes(n as nat),
{
    let mut i: usize = 0;
    while i < n
        invariant
            i <= n,
            out@ =~= old(out)@ + zero_bytes(i as nat),
        decreases n - i,
    {
        out.push(0u8);
        proof {
            assert(out@ =~= old(out)@ + zero_bytes((i + 1) as nat));
        }
        i = i + 1;
    }
}

/// Append every byte of `b`.
fn push_all(out: &mut Vec<u8>, b: &[u8])
    ensures
        final(out)@ == old(out)@ + b@,
{
    let mut i: usize = 0;
    while i < b.len()
        invariant
            i <= b@.len(),
            out@ =~= old(out)@ + b@.subrange(0, i as int),
        decreases b@.len() - i,
    {
        out.push(b[i]);
        proof {
            assert(out@ =~= old(out)@ + b@.subrange(0, i + 1));
        }
        i = i + 1;
    }
    proof {
        assert(out@ =~= old(out)@ + b@);
    }
}

/// The payload of one set, built in a fresh vector.  `pos` is the set's
/// message offset, reported when a data set's template is missing.
fn write_records(records: &Records, templates: &TemplateStore, pos: usize) -> (r: Result<
    Vec<u8>,
    IpfixError,
>)
    requires
        pos <= 0xFFFF,
    ensures
        r is Ok <==> spec_records_bytes(records@, templates@) is Some,
        r matches Ok(payload) ==> spec_records_bytes(records@, templates@) == Some(payload@),
{
    let mut payload: Vec<u8> = Vec::new();
    match records {
        Records::Template(ts) => {
            let ghost ts_v = seq_views(ts@);
            let ghost full = spec_template_records_bytes(ts_v, 0);
            let ghost mut acc: Seq<u8> = Seq::empty();
            proof {
                assert(Seq::<u8>::empty() + acc =~= payload@);
            }
            let mut i: usize = 0;
            while i < ts.len()
                invariant
                    i <= ts@.len(),
                    ts_v == seq_views(ts@),
                    full == spec_template_records_bytes(ts_v, 0),
                    full == spec_records_bytes(records@, templates@),
                    payload@ == acc,
                    full == match spec_template_records_bytes(ts_v, i as int) {
                        None => None::<Seq<u8>>,
                        Some(rest) => Some(acc + rest),
                    },
                decreases ts@.len() - i,
            {
                let ghost acc0 = acc;
                proof {
                    assert(ts_v[i as int] == ts@[i as int]@);
                }
                match write_template_record(&ts[i], &mut payload) {
                    Ok(()) => {},
                    Err(e) => {
                        return Err(e);
                    },
                }
                proof {
                    let tb = spec_template_record_bytes(ts_v[i as int]);
                    acc = acc + tb.unwrap();
                    assert(payload@ =~= acc);
                    let rest = spec_template_records_bytes(ts_v, i + 1);
                    if rest is Some {
                        assert(acc0 + (tb.unwrap() + rest.unwrap()) =~= acc + rest.unwrap());
                    }
                }
                i = i + 1;
            }
            proof {
                assert(acc + Seq::<u8>::empty() =~= acc);
            }
            Ok(payload)
        },
        Records::OptionsTemplate(ts) => {
            let ghost ts_v = seq_views(ts@);
            let ghost full = spec_options_template_records_bytes(ts_v, 0);
            let ghost mut acc: Seq<u8> = Seq::empty();
            proof {
                assert(Seq::<u8>::empty() + acc =~= payload@);
            }
            let mut i: usize = 0;
            while i < ts.len()
                invariant
                    i <= ts@.len(),
                    ts_v == seq_views(ts@),
                    full == spec_options_template_records_bytes(ts_v, 0),
                    full == spec_records_bytes(records@, templates@),
                    payload@ == acc,
                    full == match spec_options_template_records_bytes(ts_v, i as int) {
                        None => None::<Seq<u8>>,
                        Some(rest) => Some(acc + rest),
                    },
                decreases ts@.len() - i,
            {
                let ghost acc0 = acc;
                proof {
                    assert(ts_v[i as int] == ts@[i as int]@);
                }
                match write_options_template_record(&ts[i], &mut payload) {
                    Ok(()) => {},
                    Err(e) => {
                        return Err(e);
                    },
                }
                proof {
                    let tb = spec_options_template_record_bytes(ts_v[i as int]);
                    acc = acc + tb.unwrap();
                    assert(payload@ =~= acc);
                    let rest = spec_options_template_records_bytes(ts_v, i + 1);
                    if rest is Some {
                        assert(acc0 + (tb.unwrap() + rest.unwrap()) =~= acc + rest.unwrap());
                    }
                }
                i = i + 1;
            }
            proof {
                assert(acc + Seq::<u8>::empty() =~= acc);
            }
            Ok(payload)
        },
        Records::Data { set_id, data } => {
            let template = match templates.get_template(*set_id) {
                Some(t) => t,
                None => {
                    return Err(IpfixError::MissingTemplate { pos: pos + 4, set_id: *set_id });
                },
            };
            match write_data_records(data, template.field_specifiers(), &mut payload) {
                Ok(()) => Ok(payload),
                Err(e) => Err(e),
            }
        },
    }
}

/// Append the wire form of one set starting at message offset `pos`.
fn write_set(
    s: &RecordSet,
    templates: &TemplateStore,
    alignment: u8,
    pos: usize,
    out: &mut Vec<u8>,
) -> (r: Result<(), IpfixError>)
    requires
        alignment >= 1,
        pos <= 0xFFFF,
    ensures
        r is Ok <==> spec_set_bytes(s@, templates@, alignment as int, pos as int) is Some,
        r is Ok ==> final(out)@ == old(out)@ + spec_set_bytes(
            s@,
            templates@,
            alignment as int,
            pos as int,
        ).unwrap(),
        r is Err ==> final(out)@ == old(out)@,
{
    let payload = match write_records(&s.records, templates, pos) {
        Ok(p) => p,
        Err(e) => {
            return Err(e);
        },
    };
    if payload.len() > 0xFFFF {
        return Err(IpfixError::LengthOverflow { len: payload.len() });
    }
    let payload_end: usize = pos + 4 + payload.len();
    let rem: usize = payload_end % (alignment as usize);
    let pad: usize = if rem == 0 {
        0
    } else {
        alignment as usize - rem
    };
    let set_len: usize = 4 + payload.len() + pad;
    if set_len > 0xFFFF {
        return Err(IpfixError::LengthOverflow { len: set_len });
    }
    let set_id = s.records.set_id();
    push_u16(out, set_id);
    push_u16(out, set_len as u16);
    push_all(out, payload.as_slice());
    push_zeros(out, pad);
    proof {
        assert(out@ =~= old(out)@ + spec_set_bytes(
            s@,
            templates@,
            alignment as int,
            pos as int,
        ).unwrap());
    }
    Ok(())
}

/// The concatenated sets of a message, built in a fresh vector.  Fails
/// when a set has no encoding, or once the body outgrows what the 16-bit
/// message length can frame.
fn write_sets(sets: &Vec<RecordSet>, templates: &TemplateStore, alignment: u8) -> (r: Result<
    Vec<u8>,
    IpfixError,
>)
    requires
        alignment >= 1,
    ensures
        r matches Ok(body) ==> spec_sets_bytes(seq_views(sets@), templates@, alignment as int, 16, 0)
            == Some(body@) && body@.len() <= 0xFFFF - 16,
        r is Err ==> match spec_sets_bytes(seq_views(sets@), templates@, alignment as int, 16, 0) {
            None => true,
            Some(full_body) => full_body.len() > 0xFFFF - 16,
        },
{
    let ghost sets_v = seq_views(sets@);
    let ghost full = spec_sets_bytes(sets_v, templates@, alignment as int, 16, 0);
    let mut body: Vec<u8> = Vec::new();
    let mut i: usize = 0;
    while i < sets.len()
        invariant
            i <= sets@.len(),
            alignment >= 1,
            sets_v == seq_views(sets@),
            full == spec_sets_bytes(sets_v, templates@, alignment as int, 16, 0),
            body@.len() <= 0xFFFF - 16,
            full == match spec_sets_bytes(
                sets_v,
                templates@,
                alignment as int,
                16 + body@.len() as int,
                i as int,
            ) {
                None => None::<Seq<u8>>,
                Some(rest) => Some(body@ + rest),
            },
        decreases sets@.len() - i,
    {
        let ghost body0 = body@;
        proof {
            assert(sets_v[i as int] == sets@[i as int]@);
        }
        let pos: usize = 16 + body.len();
        match write_set(&sets[i], templates, alignment, pos, &mut body) {
            Ok(()) => {},
            Err(e) => {
                return Err(e);
            },
        }
        proof {
            let sb = spec_set_bytes(sets_v[i as int], templates@, alignment as int, pos as int);
            assert(body@ =~= body0 + sb.unwrap());
            let rest = spec_sets_bytes(
                sets_v,
                templates@,
                alignment as int,
                pos + sb.unwrap().len(),
                i + 1,
            );
            if rest is Some {
                assert(body0 + (sb.unwrap() + rest.unwrap()) =~= body@ + rest.unwrap());
            }
        }
        if body.len() > 0xFFFF - 16 {
            return Err(IpfixError::LengthOverflow { len: body.len() });
        }
        i = i + 1;
    }
    proof {
        assert(body@ + Seq::<u8>::empty() =~= body@);
    }
    Ok(body)
}

/// Serialise `message` with the given alignment, consulting `templates`
/// for the templates its data sets refer to.  The returned bytes are
/// exactly the wire form fixed by `spec_write_message`; the call fails
/// exactly when that specification has no encoding for the message.
pub fn write_ipfix_message(
    message: &Message,
    templates: &TemplateStore,
    alignment: u8,
) -> (r: Result<Vec<u8>, IpfixError>)
    requires
        alignment >= 1,
    ensures
        r matches Ok(out) ==> spec_write_message(message@, templates@, alignment as int) == Some(
            out@,
        ),
        r is Ok <==> spec_write_message(message@, templates@, alignment as int) is Some,
{
    let body = match write_sets(&message.sets, templates, alignment) {
        Ok(b) => b,
        Err(e) => {
            return Err(e);
        },
    };
    let total: usize = 16 + body.len();
    let mut out: Vec<u8> = Vec::new();
    push_u16(&mut out, 10);
    push_u16(&mut out, total as u16);
    push_u32(&mut out, message.export_time);
    push_u32(&mut out, message.sequence_number);
    push_u32(&mut out, message.observation_domain_id);
    push_all(&mut out, body.as_slice());
    proof {
        assert(out@ =~= spec_write_message(message@, templates@, alignment as int).unwrap());
    }
    Ok(out)
}

} // verus!
