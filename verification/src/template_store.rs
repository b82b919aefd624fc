//! The template store: the mapping from template ids to expanded templates
//! that accumulates as messages are parsed and is consulted when data sets
//! are decoded or written.
//!
//! Expansion resolves each field specifier against the formatter once, at
//! install time, so that decoding a data record needs no further lookups.

use vstd::prelude::*;

use std::collections::HashMap;

use crate::information_elements::{spec_formatter_get, Formatter, FormatterEntryV};
use crate::types::{
    seq_views, DataRecordKey, DataRecordType, FieldSpecifier, KeyV, OptionsTemplateRecord,
    OptionsTemplateRecordV, TemplateRecord, TemplateRecordV,
};

verus! {

broadcast use vstd::std_specs::hash::group_hash_axioms;


// ---------------------------------------------------------------------------
// Expanded field specifiers
// ---------------------------------------------------------------------------

/// View of [`ExpandedFieldSpecifier`].
pub struct ExpandedFieldSpecifierV {
    pub name: KeyV,
    pub ty: DataRecordType,
    pub enterprise_number: Option<u32>,
    pub information_element_identifier: u16,
    pub field_length: u16,
}

/// A field specifier augmented with the key and abstract type resolved
/// from the formatter at install time.
#[derive(Debug)]
pub struct ExpandedFieldSpecifier {
    pub name: DataRecordKey,
    pub ty: DataRecordType,
    pub enterprise_number: Option<u32>,
    pub information_element_identifier: u16,
    pub field_length: u16,
}

impl View for ExpandedFieldSpecifier {
    type V = ExpandedFieldSpecifierV;

    open spec fn view(&self) -> ExpandedFieldSpecifierV {
        ExpandedFieldSpecifierV {
            name: self.name@,
            ty: self.ty,
            enterprise_number: self.enterprise_number,
            information_element_identifier: self.information_element_identifier,
            field_length: self.field_length,
        }
    }
}

/// What expansion yields for one field specifier: the formatter's name and
/// type when it knows the pair (an absent enterprise number counting as 0),
/// else the specifier itself under [`KeyV::Unrecognized`] with type
/// [`DataRecordType::Bytes`].
pub open spec fn spec_expand_field_spec(
    fs: FieldSpecifier,
    fmt: Seq<FormatterEntryV>,
) -> ExpandedFieldSpecifierV {
    let ent = match fs.enterprise_number {
        Some(e) => e,
        None => 0u32,
    };
    match spec_formatter_get(fmt, ent, fs.information_element_identifier) {
        Some((name, ty)) => ExpandedFieldSpecifierV {
            name: KeyV::Str(name),
            ty,
            enterprise_number: fs.enterprise_number,
            information_element_identifier: fs.information_element_identifier,
            field_length: fs.field_length,
        },
        None => ExpandedFieldSpecifierV {
            name: KeyV::Unrecognized(fs),
            ty: DataRecordType::Bytes,
            enterprise_number: fs.enterprise_number,
            information_element_identifier: fs.information_element_identifier,
            field_length: fs.field_length,
        },
    }
}

/// Expansion of a whole specifier sequence, in order.
pub open spec fn spec_expand_fields(
    fss: Seq<FieldSpecifier>,
    fmt: Seq<FormatterEntryV>,
) -> Seq<ExpandedFieldSpecifierV> {
    Seq::new(fss.len(), |i: int| spec_expand_field_spec(fss[i], fmt))
}

impl ExpandedFieldSpecifier {
    /// Resolve a key and abstract type for this information element from
    /// the formatter; an unknown pair is kept unrecognized with type bytes.
    pub fn from_field_spec(field_spec: &FieldSpecifier, formatter: &Formatter) -> (r: Self)
        ensures
            r@ == spec_expand_field_spec(*field_spec, formatter@),
    {
        let ent: u32 = match field_spec.enterprise_number {
            Some(e) => e,
            None => 0,
        };
        match formatter.get(ent, field_spec.information_element_identifier) {
            Some((name, ty)) => ExpandedFieldSpecifier {
                name: DataRecordKey::Str(name),
                ty,
                enterprise_number: field_spec.enterprise_number,
                information_element_identifier: field_spec.information_element_identifier,
                field_length: field_spec.field_length,
            },
            None => ExpandedFieldSpecifier {
                name: DataRecordKey::Unrecognized(*field_spec),
                ty: DataRecordType::Bytes,
                enterprise_number: field_spec.enterprise_number,
                information_element_identifier: field_spec.information_element_identifier,
                field_length: field_spec.field_length,
            },
        }
    }
}

/// Expand a specifier vector, in order.
fn expand_fields(fss: &Vec<FieldSpecifier>, formatter: &Formatter) -> (r: Vec<
    ExpandedFieldSpecifier,
>)
    ensures
        seq_views(r@) == spec_expand_fields(fss@, formatter@),
{
    let mut out: Vec<ExpandedFieldSpecifier> = Vec::new();
    let mut i: usize = 0;
    while i < fss.len()
        invariant
            i <= fss@.len(),
            out@.len() == i,
            seq_views(out@) =~= spec_expand_fields(fss@.subrange(0, i as int), formatter@),
        decreases fss@.len() - i,
    {
        let ghost prev = out@;
        out.push(ExpandedFieldSpecifier::from_field_spec(&fss[i], formatter));
        proof {
            let lhs = seq_views(out@);
            let rhs = spec_expand_fields(fss@.subrange(0, i + 1), formatter@);
            assert forall|k: int| 0 <= k < lhs.len() implies lhs[k] == rhs[k] by {
                assert(lhs[k] == out@[k]@);
                assert(rhs[k] == spec_expand_field_spec(fss@.subrange(0, i + 1)[k], formatter@));
                if k < i {
                    assert(out@[k] == prev[k]);
                    assert(seq_views(prev)[k] == prev[k]@);
                    assert(spec_expand_fields(fss@.subrange(0, i as int), formatter@)[k]
                        == spec_expand_field_spec(fss@.subrange(0, i as int)[k], formatter@));
                }
            }
            assert(lhs =~= rhs);
        }
        i = i + 1;
    }
    proof {
        assert(fss@.subrange(0, fss@.len() as int) =~= fss@);
    }
    out
}

// ---------------------------------------------------------------------------
// Templates
// ---------------------------------------------------------------------------

/// View of [`Template`].
pub enum TemplateV {
    Template(Seq<ExpandedFieldSpecifierV>),
    OptionsTemplate(Seq<ExpandedFieldSpecifierV>),
}

/// The ordered expanded field specifiers of `t`, whichever kind it is.
pub open spec fn spec_template_fields(t: TemplateV) -> Seq<ExpandedFieldSpecifierV> {
    match t {
        TemplateV::Template(fields) => fields,
        TemplateV::OptionsTemplate(fields) => fields,
    }
}

/// An installed template: the expanded field specifiers, marked with the
/// kind of record that defined them.
#[derive(Debug)]
pub enum Template {
    Template(Vec<ExpandedFieldSpecifier>),
    OptionsTemplate(Vec<ExpandedFieldSpecifier>),
}

impl View for Template {
    type V = TemplateV;

    open spec fn view(&self) -> TemplateV {
        match self {
            Template::Template(fields) => TemplateV::Template(seq_views(fields@)),
            Template::OptionsTemplate(fields) => TemplateV::OptionsTemplate(seq_views(fields@)),
        }
    }
}

impl Template {
    /// The ordered expanded field specifiers, whichever kind this is.
    pub fn field_specifiers(&self) -> (r: &Vec<ExpandedFieldSpecifier>)
        ensures
            seq_views(r@) == spec_template_fields(self@),
    {
        match self {
            Template::Template(fields) => fields,
            Template::OptionsTemplate(fields) => fields,
        }
    }
}

// ---------------------------------------------------------------------------
// The store
// ---------------------------------------------------------------------------

/// Installation of a run of template records: each one expanded under the
/// formatter and inserted in order, the last writer winning on id
/// collisions.
pub open spec fn spec_install_templates(
    m: Map<u16, TemplateV>,
    recs: Seq<TemplateRecordV>,
    fmt: Seq<FormatterEntryV>,
) -> Map<u16, TemplateV>
    decreases recs.len(),
{
    if recs.len() == 0 {
        m
    } else {
        spec_install_templates(
            m.insert(
                recs[0].template_id,
                TemplateV::Template(spec_expand_fields(recs[0].field_specifiers, fmt)),
            ),
            recs.drop_first(),
            fmt,
        )
    }
}

/// Installation of a run of options template records.
pub open spec fn spec_install_options_templates(
    m: Map<u16, TemplateV>,
    recs: Seq<OptionsTemplateRecordV>,
    fmt: Seq<FormatterEntryV>,
) -> Map<u16, TemplateV>
    decreases recs.len(),
{
    if recs.len() == 0 {
        m
    } else {
        spec_install_options_templates(
            m.insert(
                recs[0].template_id,
                TemplateV::OptionsTemplate(spec_expand_fields(recs[0].field_specifiers, fmt)),
            ),
            recs.drop_first(),
            fmt,
        )
    }
}

/// The shared mapping from template ids to expanded templates.  Decoders
/// read it; parsing a template set installs into it.
#[derive(Debug)]
pub struct TemplateStore {
    pub templates: HashMap<u16, Template>,
}

impl View for TemplateStore {
    type V = Map<u16, TemplateV>;

    open spec fn view(&self) -> Map<u16, TemplateV> {
        Map::new(
            |k: u16| self.templates@.dom().contains(k),
            |k: u16| self.templates@[k]@,
        )
    }
}

impl TemplateStore {
    /// An empty store.
    pub fn new() -> (r: TemplateStore)
        ensures
            r@ == Map::<u16, TemplateV>::empty(),
    {
        let r = TemplateStore { templates: HashMap::new() };
        proof {
            assert(r@ =~= Map::<u16, TemplateV>::empty());
        }
        r
    }

    /// The template installed under `template_id`, if any.
    pub fn get_template(&self, template_id: u16) -> (r: Option<&Template>)
        ensures
            match r {
                Some(t) => self@.contains_key(template_id) && t@ == self@[template_id],
                None => !self@.contains_key(template_id),
            },
    {
        self.templates.get(&template_id)
    }

    /// How many templates are installed.
    pub fn len(&self) -> (r: usize)
        ensures
            r == self@.dom().len(),
    {
        proof {
            assert(self@.dom() =~= self.templates@.dom());
        }
        self.templates.len()
    }

    /// Whether a template is installed under `template_id`.
    pub fn contains_key(&self, template_id: u16) -> (r: bool)
        ensures
            r == self@.contains_key(template_id),
    {
        self.templates.contains_key(&template_id)
    }

    /// Install one template, replacing any earlier one under the same id.
    pub fn insert_template(&mut self, template_id: u16, template: Template)
        ensures
            final(self)@ == old(self)@.insert(template_id, template@),
    {
        let ghost before = self@;
        let ghost tv = template@;
        self.templates.insert(template_id, template);
        proof {
            assert(self@ =~= before.insert(template_id, tv));
        }
    }

    /// Expand and install every template record, in order.
    pub fn insert_template_records(&mut self, records: &[TemplateRecord], formatter: &Formatter)
        ensures
            final(self)@ == spec_install_templates(
                old(self)@,
                seq_views(records@),
                formatter@,
            ),
    {
        let ghost recs_v = seq_views(records@);
        let ghost fmt_v = formatter@;
        let ghost target = spec_install_templates(old(self)@, recs_v, fmt_v);
        proof {
            assert(recs_v.skip(0) =~= recs_v);
        }
        let mut i: usize = 0;
        while i < records.len()
            invariant
                i <= records@.len(),
                recs_v == seq_views(records@),
                fmt_v == formatter@,
                target == spec_install_templates(old(self)@, recs_v, fmt_v),
                spec_install_templates(self@, recs_v.skip(i as int), fmt_v) == target,
            decreases records@.len() - i,
        {
            let rec = &records[i];
            let fields_vec = expand_fields(&rec.field_specifiers, formatter);
            let ghost fv = fields_vec@;
            let expanded = Template::Template(fields_vec);
            proof {
                assert(seq_views(fv) == spec_expand_fields(rec.field_specifiers@, formatter@));
                assert(expanded@ == TemplateV::Template(seq_views(fv)));
                assert(records@[i as int]@ == recs_v[i as int]);
                assert(recs_v[i as int].field_specifiers == records@[i as int].field_specifiers@);
                assert(rec.field_specifiers@ == records@[i as int].field_specifiers@);
                assert(recs_v.skip(i as int)[0] == recs_v[i as int]);
                assert(recs_v.skip(i as int).drop_first() =~= recs_v.skip(i + 1));
                assert(expanded@ == TemplateV::Template(
                    spec_expand_fields(recs_v[i as int].field_specifiers, fmt_v),
                ));
            }
            self.insert_template(rec.template_id, expanded);
            i = i + 1;
        }
        proof {
            assert(recs_v.skip(records@.len() as int) =~= Seq::<TemplateRecordV>::empty());
        }
    }

    /// Expand and install every options template record, in order.
    pub fn insert_options_template_records(
        &mut self,
        records: &[OptionsTemplateRecord],
        formatter: &Formatter,
    )
        ensures
            final(self)@ == spec_install_options_templates(
                old(self)@,
                seq_views(records@),
                formatter@,
            ),
    {
        let ghost recs_v = seq_views(records@);
        let ghost fmt_v = formatter@;
        let ghost target = spec_install_options_templates(old(self)@, recs_v, fmt_v);
        proof {
            assert(recs_v.skip(0) =~= recs_v);
        }
        let mut i: usize = 0;
        while i < records.len()
            invariant
                i <= records@.len(),
                recs_v == seq_views(records@),
                fmt_v == formatter@,
                target == spec_install_options_templates(old(self)@, recs_v, fmt_v),
                spec_install_options_templates(self@, recs_v.skip(i as int), fmt_v) == target,
            decreases records@.len() - i,
        {
            let rec = &records[i];
            let fields_vec = expand_fields(&rec.field_specifiers, formatter);
            let ghost fv = fields_vec@;
            let expanded = Template::OptionsTemplate(fields_vec);
            proof {
                assert(seq_views(fv) == spec_expand_fields(rec.field_specifiers@, formatter@));
                assert(expanded@ == TemplateV::OptionsTemplate(seq_views(fv)));
                assert(records@[i as int]@ == recs_v[i as int]);
                assert(recs_v[i as int].field_specifiers == records@[i as int].field_specifiers@);
                assert(rec.field_specifiers@ == records@[i as int].field_specifiers@);
                assert(recs_v.skip(i as int)[0] == recs_v[i as int]);
                assert(recs_v.skip(i as int).drop_first() =~= recs_v.skip(i + 1));
                assert(expanded@ == TemplateV::OptionsTemplate(
                    spec_expand_fields(recs_v[i as int].field_specifiers, fmt_v),
                ));
            }
            self.insert_template(rec.template_id, expanded);
            i = i + 1;
        }
        proof {
            assert(recs_v.skip(records@.len() as int) =~= Seq::<OptionsTemplateRecordV>::empty());
        }
    }
}

} // verus!
