//! The data model of an IPFIX message: messages, sets, template records,
//! field specifiers, data records and their values, and the error type.
//!
//! Each executable type has a mathematical view (the `*V` types) over which
//! all contracts are stated: `Vec` becomes `Seq`, `String` becomes
//! `Seq<char>`, and so on.

use vstd::prelude::*;

verus! {

/// The element-wise view of a sequence: each element replaced by its view.
pub open spec fn seq_views<T: View>(s: Seq<T>) -> Seq<T::V> {
    Seq::new(s.len(), |i: int| s[i]@)
}

/// The element-wise view of a key/value sequence.
pub open spec fn pair_views(s: Seq<(DataRecordKey, DataRecordValue)>) -> Seq<(KeyV, ValueV)> {
    Seq::new(s.len(), |i: int| (s[i].0@, s[i].1@))
}

// ---------------------------------------------------------------------------
// Errors
// ---------------------------------------------------------------------------

/// Everything that can go wrong while reading or writing a message.
/// Read-side errors carry the byte offset at which they were detected;
/// write-side errors describe the value that could not be written.
#[derive(Debug, Clone, PartialEq, Eq)]
pub enum IpfixError {
    /// The first two bytes of the message were not the IPFIX version 10 magic.
    BadMagic { pos: usize },
    /// A set declared a length of at most 4 bytes, too short for its header.
    ShortSet { pos: usize, length: u16 },
    /// A set used one of the reserved ids 0, 1 or 4..=255.
    ReservedSetId { pos: usize, set_id: u16 },
    /// A template record used one of the reserved template ids 0..=255.
    ReservedTemplateId { pos: usize, template_id: u16 },
    /// A data set referred to a template id that the store does not hold.
    MissingTemplate { pos: usize, set_id: u16 },
    /// A field demanded by the template is missing from a data record.
    MissingField { key: DataRecordKey },
    /// The value codec was given an unsupported type/length pair.
    TypeLength { pos: usize, ty: DataRecordType, length: u16 },
    /// The bytes of a string value were not valid UTF-8.
    InvalidUtf8 { pos: usize },
    /// A variable-length payload exceeds the largest encodable size.
    VariableLengthOverflow { len: usize },
    /// A value that is neither bytes nor a string was written to a
    /// variable-length slot.
    NonVariableValue,
    /// A set or message grew past the 16-bit length domain of its header.
    LengthOverflow { len: usize },
    /// The input ended before the structure that starts at `pos` was complete.
    UnexpectedEof { pos: usize },
}

// ---------------------------------------------------------------------------
// Field specifiers
// ---------------------------------------------------------------------------

/// A field specifier of a template (RFC 7011 section 3.2): which information
/// element a field carries, its on-wire length, and the enterprise number
/// when the element is vendor-specific.
///
/// `information_element_identifier` holds only the low 15 bits of the on-wire
/// identifier; the high bit of the wire form encodes the presence of
/// `enterprise_number`.
#[derive(Debug, Clone, Copy, PartialEq, Eq)]
pub struct FieldSpecifier {
    pub information_element_identifier: u16,
    pub field_length: u16,
    pub enterprise_number: Option<u32>,
}

impl FieldSpecifier {
    /// The identifier must fit in 15 bits so that it survives the wire.
    pub open spec fn wf(self) -> bool {
        self.information_element_identifier < 0x8000
    }

    pub fn new(
        enterprise_number: Option<u32>,
        information_element_identifier: u16,
        field_length: u16,
    ) -> (r: Self)
        requires
            information_element_identifier < 0x8000,
        ensures
            r == (FieldSpecifier {
                information_element_identifier,
                field_length,
                enterprise_number,
            }),
            r.wf(),
    {
        Self { information_element_identifier, field_length, enterprise_number }
    }
}

// ---------------------------------------------------------------------------
// Template records
// ---------------------------------------------------------------------------

/// View of [`TemplateRecord`].
pub struct TemplateRecordV {
    pub template_id: u16,
    pub field_specifiers: Seq<FieldSpecifier>,
}

/// A template record (RFC 7011 section 3.4.1): a template id above 255 and
/// the ordered field specifiers of the records it describes.
#[derive(Debug, Clone, PartialEq, Eq)]
pub struct TemplateRecord {
    pub template_id: u16,
    pub field_specifiers: Vec<FieldSpecifier>,
}

impl View for TemplateRecord {
    type V = TemplateRecordV;

    open spec fn view(&self) -> TemplateRecordV {
        TemplateRecordV {
            template_id: self.template_id,
            field_specifiers: self.field_specifiers@,
        }
    }
}

/// View of [`OptionsTemplateRecord`].
pub struct OptionsTemplateRecordV {
    pub template_id: u16,
    pub scope_field_count: u16,
    pub field_specifiers: Seq<FieldSpecifier>,
}

/// An options template record (RFC 7011 section 3.4.2).  The scope field
/// count is preserved on the wire but not interpreted here.
#[derive(Debug, Clone, PartialEq, Eq)]
pub struct OptionsTemplateRecord {
    pub template_id: u16,
    pub scope_field_count: u16,
    pub field_specifiers: Vec<FieldSpecifier>,
}

impl View for OptionsTemplateRecord {
    type V = OptionsTemplateRecordV;

    open spec fn view(&self) -> OptionsTemplateRecordV {
        OptionsTemplateRecordV {
            template_id: self.template_id,
            scope_field_count: self.scope_field_count,
            field_specifiers: self.field_specifiers@,
        }
    }
}

// ---------------------------------------------------------------------------
// Data record values
// ---------------------------------------------------------------------------

/// The abstract data type of an information element: it selects how the
/// value codec interprets a field's bytes.
#[derive(Debug, Clone, Copy, PartialEq, Eq, Structural)]
pub enum DataRecordType {
    UnsignedInt,
    SignedInt,
    Float,
    Bool,
    MacAddress,
    Bytes,
    String,
    DateTimeSeconds,
    DateTimeMilliseconds,
    DateTimeMicroseconds,
    DateTimeNanoseconds,
    Ipv4Addr,
    Ipv6Addr,
}

/// View of [`DataRecordValue`].
pub enum ValueV {
    U8(u8),
    U16(u16),
    U32(u32),
    U64(u64),
    I8(i8),
    I16(i16),
    I32(i32),
    I64(i64),
    F32(u32),
    F64(u64),
    Bool(bool),
    MacAddress(Seq<u8>),
    Bytes(Seq<u8>),
    String(Seq<char>),
    DateTimeSeconds(u32),
    DateTimeMilliseconds(u64),
    DateTimeMicroseconds(u64),
    DateTimeNanoseconds(u64),
    Ipv4Addr(Seq<u8>),
    Ipv6Addr(Seq<u8>),
}

/// A single decoded field value.  The variant records both the abstract type
/// and, for integers, the reduced on-wire width.
///
/// `F32` and `F64` hold the raw IEEE 754 bit patterns read from the wire,
/// byte-exact under re-encoding; addresses are kept as their wire bytes.
#[derive(Debug, Clone, PartialEq)]
pub enum DataRecordValue {
    U8(u8),
    U16(u16),
    U32(u32),
    U64(u64),
    I8(i8),
    I16(i16),
    I32(i32),
    I64(i64),
    F32(u32),
    F64(u64),
    Bool(bool),
    MacAddress([u8; 6]),
    Bytes(Vec<u8>),
    String(String),
    DateTimeSeconds(u32),
    DateTimeMilliseconds(u64),
    DateTimeMicroseconds(u64),
    DateTimeNanoseconds(u64),
    Ipv4Addr([u8; 4]),
    Ipv6Addr([u8; 16]),
}

impl View for DataRecordValue {
    type V = ValueV;

    open spec fn view(&self) -> ValueV {
        match self {
            DataRecordValue::U8(x) => ValueV::U8(*x),
            DataRecordValue::U16(x) => ValueV::U16(*x),
            DataRecordValue::U32(x) => ValueV::U32(*x),
            DataRecordValue::U64(x) => ValueV::U64(*x),
            DataRecordValue::I8(x) => ValueV::I8(*x),
            DataRecordValue::I16(x) => ValueV::I16(*x),
            DataRecordValue::I32(x) => ValueV::I32(*x),
            DataRecordValue::I64(x) => ValueV::I64(*x),
            DataRecordValue::F32(x) => ValueV::F32(*x),
            DataRecordValue::F64(x) => ValueV::F64(*x),
            DataRecordValue::Bool(x) => ValueV::Bool(*x),
            DataRecordValue::MacAddress(m) => ValueV::MacAddress(m@),
            DataRecordValue::Bytes(b) => ValueV::Bytes(b@),
            DataRecordValue::String(s) => ValueV::String(s@),
            DataRecordValue::DateTimeSeconds(x) => ValueV::DateTimeSeconds(*x),
            DataRecordValue::DateTimeMilliseconds(x) => ValueV::DateTimeMilliseconds(*x),
            DataRecordValue::DateTimeMicroseconds(x) => ValueV::DateTimeMicroseconds(*x),
            DataRecordValue::DateTimeNanoseconds(x) => ValueV::DateTimeNanoseconds(*x),
            DataRecordValue::Ipv4Addr(a) => ValueV::Ipv4Addr(a@),
            DataRecordValue::Ipv6Addr(a) => ValueV::Ipv6Addr(a@),
        }
    }
}

// ---------------------------------------------------------------------------
// Data record keys
// ---------------------------------------------------------------------------

/// View of [`DataRecordKey`].
pub enum KeyV {
    Str(Seq<char>),
    Unrecognized(FieldSpecifier),
    Error(Seq<char>),
}

/// What a decoded value is filed under: the element name when the formatter
/// knows the element, the raw field specifier when it does not, and an error
/// text for surface errors (never produced by the decoder itself).
#[derive(Debug, PartialEq, Eq)]
pub enum DataRecordKey {
    Str(String),
    Unrecognized(FieldSpecifier),
    Error(String),
}

impl View for DataRecordKey {
    type V = KeyV;

    open spec fn view(&self) -> KeyV {
        match self {
            DataRecordKey::Str(s) => KeyV::Str(s@),
            DataRecordKey::Unrecognized(f) => KeyV::Unrecognized(*f),
            DataRecordKey::Error(s) => KeyV::Error(s@),
        }
    }
}

impl Clone for DataRecordKey {
    fn clone(&self) -> (r: Self)
        ensures
            r@ == self@,
    {
        match self {
            DataRecordKey::Str(s) => DataRecordKey::Str(s.clone()),
            DataRecordKey::Unrecognized(f) => DataRecordKey::Unrecognized(*f),
            DataRecordKey::Error(s) => DataRecordKey::Error(s.clone()),
        }
    }
}

impl DataRecordKey {
    /// Equality of keys, decided exactly as equality of their views.
    pub fn key_eq(&self, other: &DataRecordKey) -> (r: bool)
        ensures
            r == (self@ == other@),
    {
        match (self, other) {
            (DataRecordKey::Str(a), DataRecordKey::Str(b)) => *a == *b,
            (DataRecordKey::Unrecognized(a), DataRecordKey::Unrecognized(b)) => {
                let ent_eq: bool = match (a.enterprise_number, b.enterprise_number) {
                    (Some(x), Some(y)) => x == y,
                    (None, None) => true,
                    _ => false,
                };
                ent_eq && a.information_element_identifier == b.information_element_identifier
                    && a.field_length == b.field_length
            },
            (DataRecordKey::Error(a), DataRecordKey::Error(b)) => *a == *b,
            _ => false,
        }
    }
}

// ---------------------------------------------------------------------------
// Data records
// ---------------------------------------------------------------------------

/// View of [`DataRecord`]: the key/value pairs in template order.
pub struct DataRecordV {
    pub values: Seq<(KeyV, ValueV)>,
}

/// First index at which `values` carries `key`, or -1 when it does not.
pub open spec fn spec_record_find(values: Seq<(KeyV, ValueV)>, key: KeyV) -> int
    decreases values.len(),
{
    if values.len() == 0 {
        -1
    } else if values[0].0 == key {
        0
    } else {
        let r = spec_record_find(values.drop_first(), key);
        if r == -1 {
            -1
        } else {
            r + 1
        }
    }
}

/// The value filed under `key`, when there is one.
pub open spec fn spec_record_get(values: Seq<(KeyV, ValueV)>, key: KeyV) -> Option<ValueV> {
    let i = spec_record_find(values, key);
    if i == -1 {
        None
    } else {
        Some(values[i].1)
    }
}

/// Filing `value` under `key`: replace the first pair that carries `key`,
/// or append a new pair when none does.
pub open spec fn spec_record_insert(
    values: Seq<(KeyV, ValueV)>,
    key: KeyV,
    value: ValueV,
) -> Seq<(KeyV, ValueV)> {
    let i = spec_record_find(values, key);
    if i == -1 {
        values.push((key, value))
    } else {
        values.update(i, (values[i].0, value))
    }
}

/// A decoded data record: values filed under their keys, kept in the order
/// of the controlling template.
#[derive(Debug, PartialEq)]
pub struct DataRecord {
    pub values: Vec<(DataRecordKey, DataRecordValue)>,
}

impl View for DataRecord {
    type V = DataRecordV;

    open spec fn view(&self) -> DataRecordV {
        DataRecordV { values: pair_views(self.values@) }
    }
}

/// What `spec_record_find` returns: the first matching index, or -1.
pub proof fn lemma_record_find_characterizes(values: Seq<(KeyV, ValueV)>, key: KeyV)
    ensures
        ({
            let i = spec_record_find(values, key);
            &&& (i == -1 ==> forall|j: int| 0 <= j < values.len() ==> values[j].0 != key)
            &&& (i != -1 ==> 0 <= i < values.len() && values[i].0 == key && (forall|j: int|
                0 <= j < i ==> values[j].0 != key))
        }),
    decreases values.len(),
{
    if values.len() == 0 {
    } else if values[0].0 == key {
    } else {
        lemma_record_find_characterizes(values.drop_first(), key);
        let rest = values.drop_first();
        let r = spec_record_find(rest, key);
        if r == -1 {
            assert forall|j: int| 0 <= j < values.len() implies values[j].0 != key by {
                if j > 0 {
                    assert(rest[j - 1] == values[j]);
                    assert(rest[j - 1].0 != key);
                }
            }
        } else {
            assert(values[r + 1] == rest[r]);
            assert forall|j: int| 0 <= j < r + 1 implies values[j].0 != key by {
                if j > 0 {
                    assert(rest[j - 1] == values[j]);
                    assert(rest[j - 1].0 != key);
                }
            }
        }
    }
}

impl DataRecord {
    /// An empty record.
    pub fn new() -> (r: Self)
        ensures
            r@.values == Seq::<(KeyV, ValueV)>::empty(),
    {
        let r = DataRecord { values: Vec::new() };
        proof {
            assert(r@.values =~= Seq::<(KeyV, ValueV)>::empty());
        }
        r
    }

    /// How many keys carry a value.
    pub fn len(&self) -> (r: usize)
        ensures
            r == self@.values.len(),
    {
        self.values.len()
    }

    /// The value filed under `key`, if any.
    pub fn get(&self, key: &DataRecordKey) -> (r: Option<&DataRecordValue>)
        ensures
            match r {
                Some(v) => spec_record_get(self@.values, key@) == Some(v@),
                None => spec_record_get(self@.values, key@) is None,
            },
    {
        proof {
            lemma_record_find_characterizes(self@.values, key@);
        }
        let n = self.values.len();
        let mut i: usize = 0;
        while i < n
            invariant
                i <= n,
                n == self@.values.len(),
                forall|j: int| 0 <= j < i ==> #[trigger] self@.values[j].0 != key@,
            decreases n - i,
        {
            if self.values[i].0.key_eq(key) {
                proof {
                    lemma_record_find_characterizes(self@.values, key@);
                    assert(self@.values[i as int].0 == key@);
                }
                return Some(&self.values[i].1);
            }
            proof {
                assert(self@.values[i as int].0 != key@);
            }
            i = i + 1;
        }
        proof {
            lemma_record_find_characterizes(self@.values, key@);
        }
        None
    }

    /// File `value` under `key`: replace the value of the first pair that
    /// carries `key`, or append a new pair when none does.
    pub fn insert(&mut self, key: DataRecordKey, value: DataRecordValue)
        ensures
            final(self)@.values == spec_record_insert(old(self)@.values, key@, value@),
    {
        proof {
            lemma_record_find_characterizes(old(self)@.values, key@);
        }
        let ghost before = self@.values;
        let n = self.values.len();
        let mut i: usize = 0;
        while i < n
            invariant
                i <= n,
                n == self@.values.len(),
                self@.values == before,
                before == old(self)@.values,
                forall|j: int| 0 <= j < i ==> #[trigger] before[j].0 != key@,
            decreases n - i,
        {
            if self.values[i].0.key_eq(&key) {
                proof {
                    lemma_record_find_characterizes(before, key@);
                    assert(before[i as int].0 == key@);
                    assert(spec_record_find(before, key@) == i);
                }
                self.values.remove(i);
                self.values.insert(i, (key, value));
                proof {
                    assert(self@.values =~= spec_record_insert(before, key@, value@));
                }
                return;
            }
            proof {
                assert(before[i as int].0 != key@);
            }
            i = i + 1;
        }
        proof {
            lemma_record_find_characterizes(before, key@);
            assert(spec_record_find(before, key@) == -1);
        }
        self.values.push((key, value));
        proof {
            assert(self@.values =~= spec_record_insert(before, key@, value@));
        }
    }
}

// ---------------------------------------------------------------------------
// Sets and messages
// ---------------------------------------------------------------------------

/// View of [`Records`].
pub enum RecordsV {
    Template(Seq<TemplateRecordV>),
    OptionsTemplate(Seq<OptionsTemplateRecordV>),
    Data { set_id: u16, data: Seq<DataRecordV> },
}

/// The payload of a set, selected by the set id on the wire: template
/// records for set id 2, options template records for set id 3, and data
/// records for set ids above 255.
#[derive(Debug, PartialEq)]
pub enum Records {
    Template(Vec<TemplateRecord>),
    OptionsTemplate(Vec<OptionsTemplateRecord>),
    Data { set_id: u16, data: Vec<DataRecord> },
}

impl View for Records {
    type V = RecordsV;

    open spec fn view(&self) -> RecordsV {
        match self {
            Records::Template(ts) => RecordsV::Template(seq_views(ts@)),
            Records::OptionsTemplate(ts) => RecordsV::OptionsTemplate(seq_views(ts@)),
            Records::Data { set_id, data } => RecordsV::Data {
                set_id: *set_id,
                data: seq_views(data@),
            },
        }
    }
}

/// The set id under which a payload travels on the wire.
pub open spec fn spec_set_id(records: RecordsV) -> u16 {
    match records {
        RecordsV::Template(_) => 2,
        RecordsV::OptionsTemplate(_) => 3,
        RecordsV::Data { set_id, .. } => set_id,
    }
}

impl Records {
    /// The set id under which this payload travels on the wire.
    pub fn set_id(&self) -> (r: u16)
        ensures
            r == spec_set_id(self@),
    {
        match self {
            Records::Template(_) => 2,
            Records::OptionsTemplate(_) => 3,
            Records::Data { set_id, .. } => *set_id,
        }
    }
}

/// View of [`RecordSet`].
pub struct RecordSetV {
    pub records: RecordsV,
}

/// A set (RFC 7011 section 3.3): the length-delimited container of records.
/// The set id and length fields of the wire form are derived from the
/// payload, so only the payload is stored.
#[derive(Debug, PartialEq)]
pub struct RecordSet {
    pub records: Records,
}

impl View for RecordSet {
    type V = RecordSetV;

    open spec fn view(&self) -> RecordSetV {
        RecordSetV { records: self.records@ }
    }
}

/// View of [`Message`].
pub struct MessageV {
    pub export_time: u32,
    pub sequence_number: u32,
    pub observation_domain_id: u32,
    pub sets: Seq<RecordSetV>,
}

/// A whole IPFIX message (RFC 7011 section 3.1).  The version magic and the
/// total length of the wire form are derived while writing, so only the
/// remaining header fields and the sets are stored.
#[derive(Debug, PartialEq)]
pub struct Message {
    pub export_time: u32,
    pub sequence_number: u32,
    pub observation_domain_id: u32,
    pub sets: Vec<RecordSet>,
}

impl View for Message {
    type V = MessageV;

    open spec fn view(&self) -> MessageV {
        MessageV {
            export_time: self.export_time,
            sequence_number: self.sequence_number,
            observation_domain_id: self.observation_domain_id,
            sets: seq_views(self.sets@),
        }
    }
}

/// The template records of the sets from index `i` on, in order.
pub open spec fn spec_template_records_of(sets: Seq<RecordSetV>, i: int) -> Seq<TemplateRecordV>
    decreases sets.len() - i,
{
    if i < 0 || i >= sets.len() {
        Seq::empty()
    } else {
        (match sets[i].records {
            RecordsV::Template(ts) => ts,
            _ => Seq::empty(),
        }) + spec_template_records_of(sets, i + 1)
    }
}

/// The options template records of the sets from index `i` on, in order.
pub open spec fn spec_options_template_records_of(
    sets: Seq<RecordSetV>,
    i: int,
) -> Seq<OptionsTemplateRecordV>
    decreases sets.len() - i,
{
    if i < 0 || i >= sets.len() {
        Seq::empty()
    } else {
        (match sets[i].records {
            RecordsV::OptionsTemplate(ts) => ts,
            _ => Seq::empty(),
        }) + spec_options_template_records_of(sets, i + 1)
    }
}

/// The data records of the sets from index `i` on, in order.
pub open spec fn spec_data_records_of(sets: Seq<RecordSetV>, i: int) -> Seq<DataRecordV>
    decreases sets.len() - i,
{
    if i < 0 || i >= sets.len() {
        Seq::empty()
    } else {
        (match sets[i].records {
            RecordsV::Data { data, .. } => data,
            _ => Seq::empty(),
        }) + spec_data_records_of(sets, i + 1)
    }
}

impl Message {
    /// The template records of all template sets, in order.
    pub fn iter_template_records(&self) -> (r: Vec<&TemplateRecord>)
        ensures
            seq_views(r@) == spec_template_records_of(self@.sets, 0),
    {
        let ghost sets_v = self@.sets;
        let ghost full = spec_template_records_of(sets_v, 0);
        let mut out: Vec<&TemplateRecord> = Vec::new();
        let mut i: usize = 0;
        proof {
            assert(seq_views(out@) + full =~= full);
        }
        while i < self.sets.len()
            invariant
                i <= self.sets@.len(),
                sets_v == self@.sets,
                full == spec_template_records_of(sets_v, 0),
                full == seq_views(out@) + spec_template_records_of(sets_v, i as int),
            decreases self.sets@.len() - i,
        {
            proof {
                assert(sets_v[i as int] == self.sets@[i as int]@);
            }
            match &self.sets[i].records {
                Records::Template(ts) => {
                    let ghost part = seq_views(ts@);
                    let ghost rem = spec_template_records_of(sets_v, i + 1);
                    let mut j: usize = 0;
                    proof {
                        assert(part.skip(0) =~= part);
                        assert(seq_views(out@) + (part + rem) =~= seq_views(out@) + part.skip(0)
                            + rem);
                    }
                    while j < ts.len()
                        invariant
                            j <= ts@.len(),
                            part == seq_views(ts@),
                            full == seq_views(out@) + part.skip(j as int) + rem,
                        decreases ts@.len() - j,
                    {
                        let ghost prev = out@;
                        out.push(&ts[j]);
                        proof {
                            assert(seq_views(out@) =~= seq_views(prev).push(part[j as int]));
                            assert(seq_views(prev) + part.skip(j as int) + rem =~= seq_views(out@)
                                + part.skip(j + 1) + rem);
                        }
                        j = j + 1;
                    }
                    proof {
                        assert(part.skip(part.len() as int) =~= Seq::<TemplateRecordV>::empty());
                        assert(seq_views(out@) + Seq::<TemplateRecordV>::empty() + rem
                            =~= seq_views(out@) + rem);
                    }
                },
                _ => {
                },
            }
            i = i + 1;
        }
        proof {
            assert(seq_views(out@) + Seq::<TemplateRecordV>::empty() =~= seq_views(out@));
        }
        out
    }

    /// The options template records of all options template sets, in order.
    pub fn iter_options_template_records(&self) -> (r: Vec<&OptionsTemplateRecord>)
        ensures
            seq_views(r@) == spec_options_template_records_of(self@.sets, 0),
    {
        let ghost sets_v = self@.sets;
        let ghost full = spec_options_template_records_of(sets_v, 0);
        let mut out: Vec<&OptionsTemplateRecord> = Vec::new();
        let mut i: usize = 0;
        proof {
            assert(seq_views(out@) + full =~= full);
        }
        while i < self.sets.len()
            invariant
                i <= self.sets@.len(),
                sets_v == self@.sets,
                full == spec_options_template_records_of(sets_v, 0),
                full == seq_views(out@) + spec_options_template_records_of(sets_v, i as int),
            decreases self.sets@.len() - i,
        {
            proof {
                assert(sets_v[i as int] == self.sets@[i as int]@);
            }
            match &self.sets[i].records {
                Records::OptionsTemplate(ts) => {
                    let ghost part = seq_views(ts@);
                    let ghost rem = spec_options_template_records_of(sets_v, i + 1);
                    let mut j: usize = 0;
                    proof {
                        assert(part.skip(0) =~= part);
                        assert(seq_views(out@) + (part + rem) =~= seq_views(out@) + part.skip(0)
                            + rem);
                    }
                    while j < ts.len()
                        invariant
                            j <= ts@.len(),
                            part == seq_views(ts@),
                            full == seq_views(out@) + part.skip(j as int) + rem,
                        decreases ts@.len() - j,
                    {
                        let ghost prev = out@;
                        out.push(&ts[j]);
                        proof {
                            assert(seq_views(out@) =~= seq_views(prev).push(part[j as int]));
                            assert(seq_views(prev) + part.skip(j as int) + rem =~= seq_views(out@)
                                + part.skip(j + 1) + rem);
                        }
                        j = j + 1;
                    }
                    proof {
                        assert(part.skip(part.len() as int)
                            =~= Seq::<OptionsTemplateRecordV>::empty());
                        assert(seq_views(out@) + Seq::<OptionsTemplateRecordV>::empty() + rem
                            =~= seq_views(out@) + rem);
                    }
                },
                _ => {
                },
            }
            i = i + 1;
        }
        proof {
            assert(seq_views(out@) + Seq::<OptionsTemplateRecordV>::empty() =~= seq_views(out@));
        }
        out
    }

    /// The data records of all data sets, in order.
    pub fn iter_data_records(&self) -> (r: Vec<&DataRecord>)
        ensures
            seq_views(r@) == spec_data_records_of(self@.sets, 0),
    {
        let ghost sets_v = self@.sets;
        let ghost full = spec_data_records_of(sets_v, 0);
        let mut out: Vec<&DataRecord> = Vec::new();
        let mut i: usize = 0;
        proof {
            assert(seq_views(out@) + full =~= full);
        }
        while i < self.sets.len()
            invariant
                i <= self.sets@.len(),
                sets_v == self@.sets,
                full == spec_data_records_of(sets_v, 0),
                full == seq_views(out@) + spec_data_records_of(sets_v, i as int),
            decreases self.sets@.len() - i,
        {
            proof {
                assert(sets_v[i as int] == self.sets@[i as int]@);
            }
            match &self.sets[i].records {
                Records::Data { data, .. } => {
                    let ghost part = seq_views(data@);
                    let ghost rem = spec_data_records_of(sets_v, i + 1);
                    let mut j: usize = 0;
                    proof {
                        assert(part.skip(0) =~= part);
                        assert(seq_views(out@) + (part + rem) =~= seq_views(out@) + part.skip(0)
                            + rem);
                    }
                    while j < data.len()
                        invariant
                            j <= data@.len(),
                            part == seq_views(data@),
                            full == seq_views(out@) + part.skip(j as int) + rem,
                        decreases data@.len() - j,
                    {
                        let ghost prev = out@;
                        out.push(&data[j]);
                        proof {
                            assert(seq_views(out@) =~= seq_views(prev).push(part[j as int]));
                            assert(seq_views(prev) + part.skip(j as int) + rem =~= seq_views(out@)
                                + part.skip(j + 1) + rem);
                        }
                        j = j + 1;
                    }
                    proof {
                        assert(part.skip(part.len() as int) =~= Seq::<DataRecordV>::empty());
                        assert(seq_views(out@) + Seq::<DataRecordV>::empty() + rem =~= seq_views(
                            out@,
                        ) + rem);
                    }
                },
                _ => {
                },
            }
            i = i + 1;
        }
        proof {
            assert(seq_views(out@) + Seq::<DataRecordV>::empty() =~= seq_views(out@));
        }
        out
    }
}

} // verus!
