//! A read/write codec for the IPFIX protocol (RFC 7011).
//!
//! IPFIX is a template-driven binary wire format: exporters emit
//! self-describing messages whose data records can only be decoded with
//! knowledge of previously received templates.  This crate parses byte
//! slices into structured [`Message`]s and serialises them back, keeping
//! the template context in a `TemplateStore` across messages.
//!
//! Every parser and writer is verified against a specification-level twin,
//! so the contracts pin down the exact bytes read and written.

pub mod types;
pub mod wire;
pub mod values;
pub mod information_elements;
pub mod template_store;
pub mod framer;
pub mod writer;
pub mod laws;

pub use types::{
    DataRecord, DataRecordKey, DataRecordType, DataRecordValue, FieldSpecifier, IpfixError,
    Message, OptionsTemplateRecord, RecordSet, Records, TemplateRecord,
};
pub use information_elements::{get_default_formatter, Formatter, FormatterEntry};
pub use template_store::{ExpandedFieldSpecifier, Template, TemplateStore};
pub use framer::parse_ipfix_message;
pub use writer::write_ipfix_message;
