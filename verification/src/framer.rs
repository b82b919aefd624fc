//! The message framer, read side: field specifiers, template and data
//! records, sets, and whole messages, parsed from a byte slice.
//!
//! Every parser has a specification twin (`spec_parse_*`) that fixes, for
//! every input, both the parsed structure and the error; the executable
//! parsers are proved to return exactly what their twin says.  Record runs
//! inside a set are bounded by the set length, so no inner length can run
//! past its container; bytes short of a full record at the end of a set
//! are treated as padding, as RFC 7011 directs.

use vstd::prelude::*;

use crate::information_elements::{Formatter, FormatterEntryV};
use crate::template_store::{
    spec_install_options_templates, spec_install_templates, spec_template_fields,
    ExpandedFieldSpecifier, ExpandedFieldSpecifierV, TemplateStore, TemplateV,
};
use crate::types::{
    seq_views, spec_record_insert, DataRecord, DataRecordV, FieldSpecifier, IpfixError, KeyV,
    Message, MessageV, OptionsTemplateRecord, OptionsTemplateRecordV, RecordSet, RecordSetV,
    Records, RecordsV, TemplateRecord, TemplateRecordV, ValueV,
};
use crate::values::{read_value, spec_read_value};
use crate::wire::{read_u16, read_u32, spec_read_u16, spec_read_u32};

verus! {

// ---------------------------------------------------------------------------
// Field specifiers
// ---------------------------------------------------------------------------

/// A field specifier on the wire: the identifier with its enterprise bit,
/// the field length, and the enterprise number when the bit was set.
pub open spec fn spec_parse_field_spec(b: Seq<u8>, pos: int, end: int) -> Result<
    (FieldSpecifier, int),
    IpfixError,
> {
    match spec_read_u16(b, pos, end) {
        Err(e) => Err(e),
        Ok((raw_id, p1)) => match spec_read_u16(b, p1, end) {
            Err(e) => Err(e),
            Ok((field_length, p2)) => if raw_id >= 0x8000 {
                match spec_read_u32(b, p2, end) {
                    Err(e) => Err(e),
                    Ok((ent, p3)) => Ok(
                        (
                            FieldSpecifier {
                                information_element_identifier: (raw_id - 0x8000) as u16,
                                field_length,
                                enterprise_number: Some(ent),
                            },
                            p3,
                        ),
                    ),
                }
            } else {
                Ok(
                    (
                        FieldSpecifier {
                            information_element_identifier: raw_id,
                            field_length,
                            enterprise_number: None,
                        },
                        p2,
                    ),
                )
            },
        },
    }
}

/// Read one field specifier.
pub fn parse_field_spec(b: &[u8], pos: usize, end: usize) -> (r: Result<
    (FieldSpecifier, usize),
    IpfixError,
>)
    requires
        pos <= end,
        end <= b@.len(),
    ensures
        match r {
            Ok((fs, p)) => spec_parse_field_spec(b@, pos as int, end as int) == Ok::<
                _,
                IpfixError,
            >((fs, p as int)) && pos <= p <= end,
            Err(e) => spec_parse_field_spec(b@, pos as int, end as int) == Err::<
                (FieldSpecifier, int),
                _,
            >(e),
        },
{
    let (raw_id, p1) = match read_u16(b, pos, end) {
        Ok(x) => x,
        Err(e) => {
            return Err(e);
        },
    };
    let (field_length, p2) = match read_u16(b, p1, end) {
        Ok(x) => x,
        Err(e) => {
            return Err(e);
        },
    };
    if raw_id >= 0x8000 {
        let (ent, p3) = match read_u32(b, p2, end) {
            Ok(x) => x,
            Err(e) => {
                return Err(e);
            },
        };
        Ok(
            (
                FieldSpecifier {
                    information_element_identifier: raw_id - 0x8000,
                    field_length,
                    enterprise_number: Some(ent),
                },
                p3,
            ),
        )
    } else {
        Ok(
            (
                FieldSpecifier {
                    information_element_identifier: raw_id,
                    field_length,
                    enterprise_number: None,
                },
                p2,
            ),
        )
    }
}

/// A run of exactly `n` field specifiers.
pub open spec fn spec_parse_field_specs_n(b: Seq<u8>, pos: int, end: int, n: int) -> Result<
    (Seq<FieldSpecifier>, int),
    IpfixError,
>
    decreases n,
{
    if n <= 0 {
        Ok((Seq::empty(), pos))
    } else {
        match spec_parse_field_spec(b, pos, end) {
            Err(e) => Err(e),
            Ok((fs, p)) => match spec_parse_field_specs_n(b, p, end, n - 1) {
                Err(e) => Err(e),
                Ok((rest, p2)) => Ok((seq![fs] + rest, p2)),
            },
        }
    }
}

/// Read exactly `n` field specifiers.
fn parse_field_specs_n(b: &[u8], pos: usize, end: usize, n: u16) -> (r: Result<
    (Vec<FieldSpecifier>, usize),
    IpfixError,
>)
    requires
        pos <= end,
        end <= b@.len(),
    ensures
        match r {
            Ok((fss, p)) => spec_parse_field_specs_n(b@, pos as int, end as int, n as int)
                == Ok::<_, IpfixError>((fss@, p as int)) && pos <= p <= end,
            Err(e) => spec_parse_field_specs_n(b@, pos as int, end as int, n as int) == Err::<
                (Seq<FieldSpecifier>, int),
                _,
            >(e),
        },
{
    let ghost full = spec_parse_field_specs_n(b@, pos as int, end as int, n as int);
    let mut out: Vec<FieldSpecifier> = Vec::new();
    let mut cur: usize = pos;
    let mut left: u16 = n;
    proof {
        assert(out@ + Seq::<FieldSpecifier>::empty() =~= out@);
    }
    while left > 0
        invariant
            pos <= cur <= end <= b@.len(),
            full == spec_parse_field_specs_n(b@, pos as int, end as int, n as int),
            full == match spec_parse_field_specs_n(b@, cur as int, end as int, left as int) {
                Ok((rest, p)) => Ok::<(Seq<FieldSpecifier>, int), IpfixError>((out@ + rest, p)),
                Err(e) => Err(e),
            },
        decreases left,
    {
        let ghost prev = out@;
        match parse_field_spec(b, cur, end) {
            Ok((fs, p)) => {
                out.push(fs);
                proof {
                    let sub = spec_parse_field_specs_n(b@, p as int, end as int, left - 1);
                    if sub is Ok {
                        assert(prev + (seq![fs] + sub.unwrap().0) =~= out@ + sub.unwrap().0);
                    }
                }
                cur = p;
                left = left - 1;
            },
            Err(e) => {
                return Err(e);
            },
        }
    }
    proof {
        assert(out@ + Seq::<FieldSpecifier>::empty() =~= out@);
    }
    Ok((out, cur))
}

// ---------------------------------------------------------------------------
// Template records
// ---------------------------------------------------------------------------

/// A template record: id, field count, then that many field specifiers.
/// A reserved id (255 or below) is rejected only after the whole record
/// has been read, so that genuine padding runs out of bytes first.
pub open spec fn spec_parse_template_record(b: Seq<u8>, pos: int, end: int) -> Result<
    (TemplateRecordV, int),
    IpfixError,
> {
    match spec_read_u16(b, pos, end) {
        Err(e) => Err(e),
        Ok((template_id, p1)) => match spec_read_u16(b, p1, end) {
            Err(e) => Err(e),
            Ok((count, p2)) => match spec_parse_field_specs_n(b, p2, end, count as int) {
                Err(e) => Err(e),
                Ok((fss, p3)) => if template_id <= 255 {
                    Err(IpfixError::ReservedTemplateId { pos: pos as usize, template_id })
                } else {
                    Ok((TemplateRecordV { template_id, field_specifiers: fss }, p3))
                },
            },
        },
    }
}

/// Read one template record.
fn parse_template_record(b: &[u8], pos: usize, end: usize) -> (r: Result<
    (TemplateRecord, usize),
    IpfixError,
>)
    requires
        pos <= end,
        end <= b@.len(),
    ensures
        match r {
            Ok((t, p)) => spec_parse_template_record(b@, pos as int, end as int) == Ok::<
                _,
                IpfixError,
            >((t@, p as int)) && pos <= p <= end,
            Err(e) => spec_parse_template_record(b@, pos as int, end as int) == Err::<
                (TemplateRecordV, int),
                _,
            >(e),
        },
{
    let (template_id, p1) = match read_u16(b, pos, end) {
        Ok(x) => x,
        Err(e) => {
            return Err(e);
        },
    };
    let (count, p2) = match read_u16(b, p1, end) {
        Ok(x) => x,
        Err(e) => {
            return Err(e);
        },
    };
    let (field_specifiers, p3) = match parse_field_specs_n(b, p2, end, count) {
        Ok(x) => x,
        Err(e) => {
            return Err(e);
        },
    };
    if template_id <= 255 {
        Err(IpfixError::ReservedTemplateId { pos, template_id })
    } else {
        Ok((TemplateRecord { template_id, field_specifiers }, p3))
    }
}

/// An options template record: id, field count, scope field count, then
/// the field specifiers.
pub open spec fn spec_parse_options_template_record(b: Seq<u8>, pos: int, end: int) -> Result<
    (OptionsTemplateRecordV, int),
    IpfixError,
> {
    match spec_read_u16(b, pos, end) {
        Err(e) => Err(e),
        Ok((template_id, p1)) => match spec_read_u16(b, p1, end) {
            Err(e) => Err(e),
            Ok((count, p2)) => match spec_read_u16(b, p2, end) {
                Err(e) => Err(e),
                Ok((scope_field_count, p3)) => match spec_parse_field_specs_n(
                    b,
                    p3,
                    end,
                    count as int,
                ) {
                    Err(e) => Err(e),
                    Ok((fss, p4)) => if template_id <= 255 {
                        Err(IpfixError::ReservedTemplateId { pos: pos as usize, template_id })
                    } else {
                        Ok(
                            (
                                OptionsTemplateRecordV {
                                    template_id,
                                    scope_field_count,
                                    field_specifiers: fss,
                                },
                                p4,
                            ),
                        )
                    },
                },
            },
        },
    }
}

/// Read one options template record.
fn parse_options_template_record(b: &[u8], pos: usize, end: usize) -> (r: Result<
    (OptionsTemplateRecord, usize),
    IpfixError,
>)
    requires
        pos <= end,
        end <= b@.len(),
    ensures
        match r {
            Ok((t, p)) => spec_parse_options_template_record(b@, pos as int, end as int) == Ok::<
                _,
                IpfixError,
            >((t@, p as int)) && pos <= p <= end,
            Err(e) => spec_parse_options_template_record(b@, pos as int, end as int) == Err::<
                (OptionsTemplateRecordV, int),
                _,
            >(e),
        },
{
    let (template_id, p1) = match read_u16(b, pos, end) {
        Ok(x) => x,
        Err(e) => {
            return Err(e);
        },
    };
    let (count, p2) = match read_u16(b, p1, end) {
        Ok(x) => x,
        Err(e) => {
            return Err(e);
        },
    };
    let (scope_field_count, p3) = match read_u16(b, p2, end) {
        Ok(x) => x,
        Err(e) => {
            return Err(e);
        },
    };
    let (field_specifiers, p4) = match parse_field_specs_n(b, p3, end, count) {
        Ok(x) => x,
        Err(e) => {
            return Err(e);
        },
    };
    if template_id <= 255 {
        Err(IpfixError::ReservedTemplateId { pos, template_id })
    } else {
        Ok((OptionsTemplateRecord { template_id, scope_field_count, field_specifiers }, p4))
    }
}

// ---------------------------------------------------------------------------
// Record runs (until the end of a set)
// ---------------------------------------------------------------------------

/// Template records until the set is exhausted.  A record attempt that
/// runs out of bytes ends the run: the leftover is padding.  Any other
/// failure is the set's failure.  A record that consumes nothing ends the
/// run, so the run always terminates.
pub open spec fn spec_parse_template_records(b: Seq<u8>, pos: int, end: int) -> Result<
    Seq<TemplateRecordV>,
    IpfixError,
>
    decreases end - pos,
{
    if pos >= end {
        Ok(Seq::empty())
    } else {
        match spec_parse_template_record(b, pos, end) {
            Err(IpfixError::UnexpectedEof { .. }) => Ok(Seq::empty()),
            Err(e) => Err(e),
            Ok((t, p)) => if !(pos < p <= end) {
                Ok(seq![t])
            } else {
                match spec_parse_template_records(b, p, end) {
                    Err(e) => Err(e),
                    Ok(rest) => Ok(seq![t] + rest),
                }
            },
        }
    }
}

/// Read template records until `end`.
fn parse_template_records(b: &[u8], pos: usize, end: usize) -> (r: Result<
    Vec<TemplateRecord>,
    IpfixError,
>)
    requires
        pos <= end,
        end <= b@.len(),
    ensures
        match r {
            Ok(ts) => spec_parse_template_records(b@, pos as int, end as int) == Ok::<
                _,
                IpfixError,
            >(seq_views(ts@)),
            Err(e) => spec_parse_template_records(b@, pos as int, end as int) == Err::<
                Seq<TemplateRecordV>,
                _,
            >(e),
        },
{
    let ghost full = spec_parse_template_records(b@, pos as int, end as int);
    let mut out: Vec<TemplateRecord> = Vec::new();
    let mut cur: usize = pos;
    while cur < end
        invariant
            pos <= cur <= end <= b@.len(),
            full == spec_parse_template_records(b@, pos as int, end as int),
            full == match spec_parse_template_records(b@, cur as int, end as int) {
                Ok(rest) => Ok::<Seq<TemplateRecordV>, IpfixError>(seq_views(out@) + rest),
                Err(e) => Err(e),
            },
        decreases end - cur,
    {
        let ghost prev = out@;
        match parse_template_record(b, cur, end) {
            Ok((t, p)) => {
                let ghost tv = t@;
                out.push(t);
                proof {
                    assert(seq_views(out@) =~= seq_views(prev).push(tv));
                    let sub = spec_parse_template_records(b@, p as int, end as int);
                    if p > cur {
                        if sub is Ok {
                            assert(seq_views(prev) + (seq![tv] + sub.unwrap()) =~= seq_views(out@)
                                + sub.unwrap());
                        }
                    } else {
                        assert(seq_views(prev) + seq![tv] =~= seq_views(out@)
                            + Seq::<TemplateRecordV>::empty());
                    }
                }
                if p <= cur {
                    proof {
                        assert(seq_views(out@) + Seq::<TemplateRecordV>::empty() =~= seq_views(
                            out@,
                        ));
                    }
                    return Ok(out);
                }
                cur = p;
            },
            Err(e) => {
                if matches!(e, IpfixError::UnexpectedEof { .. }) {
                    proof {
                        assert(seq_views(out@) + Seq::<TemplateRecordV>::empty() =~= seq_views(
                            out@,
                        ));
                    }
                    return Ok(out);
                }
                return Err(e);
            },
        }
    }
    proof {
        assert(seq_views(out@) + Seq::<TemplateRecordV>::empty() =~= seq_views(out@));
    }
    Ok(out)
}

/// Options template records until the set is exhausted, with the same
/// padding rule as template records.
pub open spec fn spec_parse_options_template_records(b: Seq<u8>, pos: int, end: int) -> Result<
    Seq<OptionsTemplateRecordV>,
    IpfixError,
>
    decreases end - pos,
{
    if pos >= end {
        Ok(Seq::empty())
    } else {
        match spec_parse_options_template_record(b, pos, end) {
            Err(IpfixError::UnexpectedEof { .. }) => Ok(Seq::empty()),
            Err(e) => Err(e),
            Ok((t, p)) => if !(pos < p <= end) {
                Ok(seq![t])
            } else {
                match spec_parse_options_template_records(b, p, end) {
                    Err(e) => Err(e),
                    Ok(rest) => Ok(seq![t] + rest),
                }
            },
        }
    }
}

/// Read options template records until `end`.
fn parse_options_template_records(b: &[u8], pos: usize, end: usize) -> (r: Result<
    Vec<OptionsTemplateRecord>,
    IpfixError,
>)
    requires
        pos <= end,
        end <= b@.len(),
    ensures
        match r {
            Ok(ts) => spec_parse_options_template_records(b@, pos as int, end as int) == Ok::<
                _,
                IpfixError,
            >(seq_views(ts@)),
            Err(e) => spec_parse_options_template_records(b@, pos as int, end as int) == Err::<
                Seq<OptionsTemplateRecordV>,
                _,
            >(e),
        },
{
    let ghost full = spec_parse_options_template_records(b@, pos as int, end as int);
    let mut out: Vec<OptionsTemplateRecord> = Vec::new();
    let mut cur: usize = pos;
    while cur < end
        invariant
            pos <= cur <= end <= b@.len(),
            full == spec_parse_options_template_records(b@, pos as int, end as int),
            full == match spec_parse_options_template_records(b@, cur as int, end as int) {
                Ok(rest) => Ok::<Seq<OptionsTemplateRecordV>, IpfixError>(
                    seq_views(out@) + rest,
                ),
                Err(e) => Err(e),
            },
        decreases end - cur,
    {
        let ghost prev = out@;
        match parse_options_template_record(b, cur, end) {
            Ok((t, p)) => {
                let ghost tv = t@;
                out.push(t);
                proof {
                    assert(seq_views(out@) =~= seq_views(prev).push(tv));
                    let sub = spec_parse_options_template_records(b@, p as int, end as int);
                    if p > cur {
                        if sub is Ok {
                            assert(seq_views(prev) + (seq![tv] + sub.unwrap()) =~= seq_views(out@)
                                + sub.unwrap());
                        }
                    } else {
                        assert(seq_views(prev) + seq![tv] =~= seq_views(out@)
                            + Seq::<OptionsTemplateRecordV>::empty());
                    }
                }
                if p <= cur {
                    proof {
                        assert(seq_views(out@) + Seq::<OptionsTemplateRecordV>::empty()
                            =~= seq_views(out@));
                    }
                    return Ok(out);
                }
                cur = p;
            },
            Err(e) => {
                if matches!(e, IpfixError::UnexpectedEof { .. }) {
                    proof {
                        assert(seq_views(out@) + Seq::<OptionsTemplateRecordV>::empty()
                            =~= seq_views(out@));
                    }
                    return Ok(out);
                }
                return Err(e);
            },
        }
    }
    proof {
        assert(seq_views(out@) + Seq::<OptionsTemplateRecordV>::empty() =~= seq_views(out@));
    }
    Ok(out)
}

// ---------------------------------------------------------------------------
// Data records
// ---------------------------------------------------------------------------

/// The values of one data record, read in template order from field `i`
/// on, each filed under its expanded key.
pub open spec fn spec_parse_data_values(
    b: Seq<u8>,
    pos: int,
    end: int,
    fields: Seq<ExpandedFieldSpecifierV>,
    i: int,
    acc: Seq<(KeyV, ValueV)>,
) -> Result<(Seq<(KeyV, ValueV)>, int), IpfixError>
    decreases fields.len() - i,
{
    if i >= fields.len() {
        Ok((acc, pos))
    } else {
        match spec_read_value(fields[i].ty, fields[i].field_length, b, pos, end) {
            Err(e) => Err(e),
            Ok((v, p)) => spec_parse_data_values(
                b,
                p,
                end,
                fields,
                i + 1,
                spec_record_insert(acc, fields[i].name, v),
            ),
        }
    }
}

/// Read one data record under the given expanded template fields.
fn parse_data_record(
    b: &[u8],
    pos: usize,
    end: usize,
    fields: &Vec<ExpandedFieldSpecifier>,
) -> (r: Result<(DataRecord, usize), IpfixError>)
    requires
        pos <= end,
        end <= b@.len(),
    ensures
        match r {
            Ok((rec, p)) => spec_parse_data_values(
                b@,
                pos as int,
                end as int,
                seq_views(fields@),
                0,
                Seq::empty(),
            ) == Ok::<_, IpfixError>((rec@.values, p as int)) && pos <= p <= end,
            Err(e) => spec_parse_data_values(
                b@,
                pos as int,
                end as int,
                seq_views(fields@),
                0,
                Seq::empty(),
            ) == Err::<(Seq<(KeyV, ValueV)>, int), _>(e),
        },
{
    let ghost fields_v = seq_views(fields@);
    let ghost full = spec_parse_data_values(
        b@,
        pos as int,
        end as int,
        fields_v,
        0,
        Seq::empty(),
    );
    let mut rec = DataRecord::new();
    let mut cur: usize = pos;
    let mut i: usize = 0;
    while i < fields.len()
        invariant
            pos <= cur <= end <= b@.len(),
            i <= fields@.len(),
            fields_v == seq_views(fields@),
            full == spec_parse_data_values(
                b@,
                pos as int,
                end as int,
                fields_v,
                0,
                Seq::empty(),
            ),
            full == spec_parse_data_values(
                b@,
                cur as int,
                end as int,
                fields_v,
                i as int,
                rec@.values,
            ),
        decreases fields@.len() - i,
    {
        let field = &fields[i];
        proof {
            assert(fields_v[i as int] == fields@[i as int]@);
        }
        match read_value(field.ty, field.field_length, b, cur, end) {
            Ok((v, p)) => {
                rec.insert(field.name.clone(), v);
                cur = p;
                i = i + 1;
            },
            Err(e) => {
                return Err(e);
            },
        }
    }
    Ok((rec, cur))
}

/// Data records until the set is exhausted: bytes short of a full record
/// are padding, and a record that consumes nothing ends the run.
pub open spec fn spec_parse_data_records(
    b: Seq<u8>,
    pos: int,
    end: int,
    fields: Seq<ExpandedFieldSpecifierV>,
) -> Result<Seq<DataRecordV>, IpfixError>
    decreases end - pos,
{
    if pos >= end {
        Ok(Seq::empty())
    } else {
        match spec_parse_data_values(b, pos, end, fields, 0, Seq::empty()) {
            Err(IpfixError::UnexpectedEof { .. }) => Ok(Seq::empty()),
            Err(e) => Err(e),
            Ok((vals, p)) => if !(pos < p <= end) {
                Ok(seq![DataRecordV { values: vals }])
            } else {
                match spec_parse_data_records(b, p, end, fields) {
                    Err(e) => Err(e),
                    Ok(rest) => Ok(seq![DataRecordV { values: vals }] + rest),
                }
            },
        }
    }
}

/// Read data records until `end`.
fn parse_data_records(
    b: &[u8],
    pos: usize,
    end: usize,
    fields: &Vec<ExpandedFieldSpecifier>,
) -> (r: Result<Vec<DataRecord>, IpfixError>)
    requires
        pos <= end,
        end <= b@.len(),
    ensures
        match r {
            Ok(ds) => spec_parse_data_records(b@, pos as int, end as int, seq_views(fields@))
                == Ok::<_, IpfixError>(seq_views(ds@)),
            Err(e) => spec_parse_data_records(b@, pos as int, end as int, seq_views(fields@))
                == Err::<Seq<DataRecordV>, _>(e),
        },
{
    let ghost fields_v = seq_views(fields@);
    let ghost full = spec_parse_data_records(b@, pos as int, end as int, fields_v);
    let mut out: Vec<DataRecord> = Vec::new();
    let mut cur: usize = pos;
    while cur < end
        invariant
            pos <= cur <= end <= b@.len(),
            fields_v == seq_views(fields@),
            full == spec_parse_data_records(b@, pos as int, end as int, fields_v),
            full == match spec_parse_data_records(b@, cur as int, end as int, fields_v) {
                Ok(rest) => Ok::<Seq<DataRecordV>, IpfixError>(seq_views(out@) + rest),
                Err(e) => Err(e),
            },
        decreases end - cur,
    {
        let ghost prev = out@;
        match parse_data_record(b, cur, end, fields) {
            Ok((rec, p)) => {
                let ghost rv = rec@;
                out.push(rec);
                proof {
                    assert(seq_views(out@) =~= seq_views(prev).push(rv));
                    let sub = spec_parse_data_records(b@, p as int, end as int, fields_v);
                    if p > cur {
                        if sub is Ok {
                            assert(seq_views(prev) + (seq![rv] + sub.unwrap()) =~= seq_views(out@)
                                + sub.unwrap());
                        }
                    } else {
                        assert(seq_views(prev) + seq![rv] =~= seq_views(out@)
                            + Seq::<DataRecordV>::empty());
                    }
                }
                if p <= cur {
                    proof {
                        assert(seq_views(out@) + Seq::<DataRecordV>::empty() =~= seq_views(out@));
                    }
                    return Ok(out);
                }
                cur = p;
            },
            Err(e) => {
                if matches!(e, IpfixError::UnexpectedEof { .. }) {
                    proof {
                        assert(seq_views(out@) + Seq::<DataRecordV>::empty() =~= seq_views(out@));
                    }
                    return Ok(out);
                }
                return Err(e);
            },
        }
    }
    proof {
        assert(seq_views(out@) + Seq::<DataRecordV>::empty() =~= seq_views(out@));
    }
    Ok(out)
}

// ---------------------------------------------------------------------------
// Sets
// ---------------------------------------------------------------------------

/// The sets of a message, from `pos` on, together with the template store
/// after them.  Parsing stops at the end of the input, or once the
/// message's declared length has been consumed (bytes beyond it are
/// tolerated and ignored).  Template sets install into the store as they
/// are parsed, so a later set may use a template from an earlier one.
pub open spec fn spec_parse_sets(
    b: Seq<u8>,
    pos: int,
    msg_len: u16,
    store: Map<u16, TemplateV>,
    fmt: Seq<FormatterEntryV>,
) -> (Result<Seq<RecordSetV>, IpfixError>, Map<u16, TemplateV>)
    decreases b.len() - pos,
{
    if pos >= b.len() || pos >= msg_len {
        (Ok(Seq::empty()), store)
    } else {
        match spec_read_u16(b, pos, b.len() as int) {
            Err(e) => (Err(e), store),
            Ok((set_id, p1)) => match spec_read_u16(b, p1, b.len() as int) {
                Err(e) => (Err(e), store),
                Ok((length, _p2)) => if length <= 4 {
                    (Err(IpfixError::ShortSet { pos: pos as usize, length }), store)
                } else if pos + length > b.len() {
                    (Err(IpfixError::UnexpectedEof { pos: pos as usize }), store)
                } else {
                    let set_end = pos + length;
                    if set_id == 2 {
                        match spec_parse_template_records(b, pos + 4, set_end) {
                            Err(e) => (Err(e), store),
                            Ok(recs) => {
                                let store2 = spec_install_templates(store, recs, fmt);
                                let (rest, st) = spec_parse_sets(b, set_end, msg_len, store2, fmt);
                                match rest {
                                    Err(e) => (Err(e), st),
                                    Ok(sets) => (
                                        Ok(
                                            seq![
                                                RecordSetV {
                                                    records: RecordsV::Template(recs),
                                                },
                                            ] + sets,
                                        ),
                                        st,
                                    ),
                                }
                            },
                        }
                    } else if set_id == 3 {
                        match spec_parse_options_template_records(b, pos + 4, set_end) {
                            Err(e) => (Err(e), store),
                            Ok(recs) => {
                                let store2 = spec_install_options_templates(store, recs, fmt);
                                let (rest, st) = spec_parse_sets(b, set_end, msg_len, store2, fmt);
                                match rest {
                                    Err(e) => (Err(e), st),
                                    Ok(sets) => (
                                        Ok(
                                            seq![
                                                RecordSetV {
                                                    records: RecordsV::OptionsTemplate(recs),
                                                },
                                            ] + sets,
                                        ),
                                        st,
                                    ),
                                }
                            },
                        }
                    } else if set_id > 255 {
                        if !store.contains_key(set_id) {
                            (
                                Err(
                                    IpfixError::MissingTemplate {
                                        pos: (pos + 4) as usize,
                                        set_id,
                                    },
                                ),
                                store,
                            )
                        } else {
                            let fields = spec_template_fields(store[set_id]);
                            match spec_parse_data_records(b, pos + 4, set_end, fields) {
                                Err(e) => (Err(e), store),
                                Ok(recs) => {
                                    let (rest, st) = spec_parse_sets(
                                        b,
                                        set_end,
                                        msg_len,
                                        store,
                                        fmt,
                                    );
                                    match rest {
                                        Err(e) => (Err(e), st),
                                        Ok(sets) => (
                                            Ok(
                                                seq![
                                                    RecordSetV {
                                                        records: RecordsV::Data {
                                                            set_id,
                                                            data: recs,
                                                        },
                                                    },
                                                ] + sets,
                                            ),
                                            st,
                                        ),
                                    }
                                },
                            }
                        }
                    } else {
                        (Err(IpfixError::ReservedSetId { pos: pos as usize, set_id }), store)
                    }
                },
            },
        }
    }
}

/// Read the sets of a message, installing templates as they appear.
fn parse_sets(
    b: &[u8],
    pos: usize,
    msg_len: u16,
    templates: &mut TemplateStore,
    formatter: &Formatter,
) -> (r: Result<Vec<RecordSet>, IpfixError>)
    requires
        pos <= b@.len(),
    ensures
        ({
            let (res, st) = spec_parse_sets(
                b@,
                pos as int,
                msg_len,
                old(templates)@,
                formatter@,
            );
            &&& final(templates)@ == st
            &&& match r {
                Ok(sets) => res == Ok::<Seq<RecordSetV>, IpfixError>(seq_views(sets@)),
                Err(e) => res == Err::<Seq<RecordSetV>, IpfixError>(e),
            }
        }),
{
    let ghost fmt_v = formatter@;
    let ghost full = spec_parse_sets(b@, pos as int, msg_len, old(templates)@, fmt_v);
    let mut out: Vec<RecordSet> = Vec::new();
    let mut cur: usize = pos;
    let end = b.len();
    while cur < end && cur < msg_len as usize
        invariant
            cur <= b@.len(),
            end == b@.len(),
            fmt_v == formatter@,
            full == spec_parse_sets(b@, pos as int, msg_len, old(templates)@, fmt_v),
            full == ({
                let (res, st) = spec_parse_sets(b@, cur as int, msg_len, templates@, fmt_v);
                (
                    match res {
                        Ok(rest) => Ok::<Seq<RecordSetV>, IpfixError>(seq_views(out@) + rest),
                        Err(e) => Err::<Seq<RecordSetV>, IpfixError>(e),
                    },
                    st,
                )
            }),
        decreases end - cur,
    {
        let ghost prev = out@;
        let (set_id, p1) = match read_u16(b, cur, end) {
            Ok(x) => x,
            Err(e) => {
                return Err(e);
            },
        };
        let (length, _p2) = match read_u16(b, p1, end) {
            Ok(x) => x,
            Err(e) => {
                return Err(e);
            },
        };
        if length <= 4 {
            return Err(IpfixError::ShortSet { pos: cur, length });
        }
        if (length as usize) > end - cur {
            return Err(IpfixError::UnexpectedEof { pos: cur });
        }
        let set_end = cur + length as usize;
        if set_id == 2 {
            let recs = match parse_template_records(b, cur + 4, set_end) {
                Ok(x) => x,
                Err(e) => {
                    return Err(e);
                },
            };
            templates.insert_template_records(recs.as_slice(), formatter);
            let ghost recs_v = seq_views(recs@);
            out.push(RecordSet { records: Records::Template(recs) });
            proof {
                assert(seq_views(out@) =~= seq_views(prev).push(
                    RecordSetV { records: RecordsV::Template(recs_v) },
                ));
            }
            cur = set_end;
        } else if set_id == 3 {
            let recs = match parse_options_template_records(b, cur + 4, set_end) {
                Ok(x) => x,
                Err(e) => {
                    return Err(e);
                },
            };
            templates.insert_options_template_records(recs.as_slice(), formatter);
            let ghost recs_v = seq_views(recs@);
            out.push(RecordSet { records: Records::OptionsTemplate(recs) });
            proof {
                assert(seq_views(out@) =~= seq_views(prev).push(
                    RecordSetV { records: RecordsV::OptionsTemplate(recs_v) },
                ));
            }
            cur = set_end;
        } else if set_id > 255 {
            let recs = match templates.get_template(set_id) {
                None => {
                    return Err(IpfixError::MissingTemplate { pos: cur + 4, set_id });
                },
                Some(template) => {
                    match parse_data_records(b, cur + 4, set_end, template.field_specifiers()) {
                        Ok(x) => x,
                        Err(e) => {
                            return Err(e);
                        },
                    }
                },
            };
            let ghost recs_v = seq_views(recs@);
            out.push(RecordSet { records: Records::Data { set_id, data: recs } });
            proof {
                assert(seq_views(out@) =~= seq_views(prev).push(
                    RecordSetV { records: RecordsV::Data { set_id, data: recs_v } },
                ));
            }
            cur = set_end;
        } else {
            return Err(IpfixError::ReservedSetId { pos: cur, set_id });
        }
        proof {
            let (res, st) = spec_parse_sets(b@, cur as int, msg_len, templates@, fmt_v);
            if res is Ok {
                assert(seq_views(prev) + (seq![seq_views(out@).last()] + res.unwrap())
                    =~= seq_views(out@) + res.unwrap());
            }
        }
    }
    proof {
        assert(seq_views(out@) + Seq::<RecordSetV>::empty() =~= seq_views(out@));
    }
    Ok(out)
}

// ---------------------------------------------------------------------------
// Messages
// ---------------------------------------------------------------------------

/// A whole message, together with the template store it leaves behind:
/// the version 10 magic, the header, then the sets.  Templates installed
/// before a failure stay installed.
pub open spec fn spec_parse_message(
    b: Seq<u8>,
    store: Map<u16, TemplateV>,
    fmt: Seq<FormatterEntryV>,
) -> (Result<MessageV, IpfixError>, Map<u16, TemplateV>) {
    let end = b.len() as int;
    match spec_read_u16(b, 0, end) {
        Err(e) => (Err(e), store),
        Ok((magic, _)) => if magic != 10 {
            (Err(IpfixError::BadMagic { pos: 0 }), store)
        } else {
            match spec_read_u16(b, 2, end) {
                Err(e) => (Err(e), store),
                Ok((msg_len, _)) => match spec_read_u32(b, 4, end) {
                    Err(e) => (Err(e), store),
                    Ok((export_time, _)) => match spec_read_u32(b, 8, end) {
                        Err(e) => (Err(e), store),
                        Ok((sequence_number, _)) => match spec_read_u32(b, 12, end) {
                            Err(e) => (Err(e), store),
                            Ok((observation_domain_id, _)) => {
                                let (res, st) = spec_parse_sets(b, 16, msg_len, store, fmt);
                                match res {
                                    Err(e) => (Err(e), st),
                                    Ok(sets) => (
                                        Ok(
                                            MessageV {
                                                export_time,
                                                sequence_number,
                                                observation_domain_id,
                                                sets,
                                            },
                                        ),
                                        st,
                                    ),
                                }
                            },
                        },
                    },
                },
            }
        },
    }
}

/// Parse one IPFIX message from `bytes`.  Template and options template
/// sets install into `templates` as they are parsed, and those installed
/// before a failure remain installed.
pub fn parse_ipfix_message(
    bytes: &[u8],
    templates: &mut TemplateStore,
    formatter: &Formatter,
) -> (r: Result<Message, IpfixError>)
    ensures
        ({
            let (res, st) = spec_parse_message(bytes@, old(templates)@, formatter@);
            &&& final(templates)@ == st
            &&& match r {
                Ok(m) => res == Ok::<MessageV, IpfixError>(m@),
                Err(e) => res == Err::<MessageV, IpfixError>(e),
            }
        }),
{
    let end = bytes.len();
    let (magic, _) = match read_u16(bytes, 0, end) {
        Ok(x) => x,
        Err(e) => {
            return Err(e);
        },
    };
    if magic != 10 {
        return Err(IpfixError::BadMagic { pos: 0 });
    }
    let (msg_len, _) = match read_u16(bytes, 2, end) {
        Ok(x) => x,
        Err(e) => {
            return Err(e);
        },
    };
    let (export_time, _) = match read_u32(bytes, 4, end) {
        Ok(x) => x,
        Err(e) => {
            return Err(e);
        },
    };
    let (sequence_number, _) = match read_u32(bytes, 8, end) {
        Ok(x) => x,
        Err(e) => {
            return Err(e);
        },
    };
    let (observation_domain_id, _) = match read_u32(bytes, 12, end) {
        Ok(x) => x,
        Err(e) => {
            return Err(e);
        },
    };
    let sets = match parse_sets(bytes, 16, msg_len, templates, formatter) {
        Ok(x) => x,
        Err(e) => {
            return Err(e);
        },
    };
    Ok(Message { export_time, sequence_number, observation_domain_id, sets })
}

} // verus!
