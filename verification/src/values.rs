//! The data-record value codec: typed read and write of every IPFIX
//! abstract type at a given field length, including the IANA
//! variable-length encoding (RFC 7011 section 7).
//!
//! `spec_read_value` and `spec_value_bytes` are the specification twins;
//! the executable codec is proved to match them exactly.

use vstd::prelude::*;

use crate::types::{DataRecordType, DataRecordValue, IpfixError, ValueV};
use crate::wire::{be_bytes, read_u16, read_u8, spec_read_be, spec_read_u16, spec_read_u8};

verus! {

/// Copy `b[pos .. pos + n]` into a fresh vector.
pub open spec fn spec_read_chunk(b: Seq<u8>, pos: int, end: int, n: int) -> Result<
    (Seq<u8>, int),
    IpfixError,
> {
    if pos + n <= end {
        Ok((b.subrange(pos, pos + n), pos + n))
    } else {
        Err(IpfixError::UnexpectedEof { pos: pos as usize })
    }
}

/// The length prefix of a variable-length field: one byte for payloads
/// under 255 bytes, otherwise the escape byte 255 followed by a 16-bit
/// length.
pub open spec fn varlen_prefix(len: nat) -> Seq<u8> {
    if len < 255 {
        seq![len as u8]
    } else {
        seq![255u8] + be_bytes(len, 2)
    }
}

/// Read the payload of a field: `field_length` bytes when the template
/// gives a fixed length, else the 1-or-3-byte length prefix and as many
/// bytes as it announces.
pub open spec fn spec_read_varlen(b: Seq<u8>, pos: int, end: int, field_length: u16) -> Result<
    (Seq<u8>, int),
    IpfixError,
> {
    if field_length == 0xFFFF {
        match spec_read_u8(b, pos, end) {
            Err(e) => Err(e),
            Ok((l1, p1)) => if l1 == 255 {
                match spec_read_u16(b, p1, end) {
                    Err(e) => Err(e),
                    Ok((l2, p2)) => spec_read_chunk(b, p2, end, l2 as int),
                }
            } else {
                spec_read_chunk(b, p1, end, l1 as int)
            },
        }
    } else {
        spec_read_chunk(b, pos, end, field_length as int)
    }
}

/// What the value codec returns for a type/length pair at `pos`, exactly.
pub open spec fn spec_read_value(
    ty: DataRecordType,
    field_length: u16,
    b: Seq<u8>,
    pos: int,
    end: int,
) -> Result<(ValueV, int), IpfixError> {
    match ty {
        DataRecordType::UnsignedInt => match field_length {
            1u16 => match spec_read_be(b, pos, end, 1) {
                Ok((v, p)) => Ok((ValueV::U8(v as u8), p)),
                Err(e) => Err(e),
            },
            2u16 => match spec_read_be(b, pos, end, 2) {
                Ok((v, p)) => Ok((ValueV::U16(v as u16), p)),
                Err(e) => Err(e),
            },
            4u16 => match spec_read_be(b, pos, end, 4) {
                Ok((v, p)) => Ok((ValueV::U32(v as u32), p)),
                Err(e) => Err(e),
            },
            8u16 => match spec_read_be(b, pos, end, 8) {
                Ok((v, p)) => Ok((ValueV::U64(v as u64), p)),
                Err(e) => Err(e),
            },
            _ => Err(IpfixError::TypeLength { pos: pos as usize, ty, length: field_length }),
        },
        DataRecordType::SignedInt => match field_length {
            1u16 => match spec_read_be(b, pos, end, 1) {
                Ok((v, p)) => Ok((ValueV::I8(v as u8 as i8), p)),
                Err(e) => Err(e),
            },
            2u16 => match spec_read_be(b, pos, end, 2) {
                Ok((v, p)) => Ok((ValueV::I16(v as u16 as i16), p)),
                Err(e) => Err(e),
            },
            4u16 => match spec_read_be(b, pos, end, 4) {
                Ok((v, p)) => Ok((ValueV::I32(v as u32 as i32), p)),
                Err(e) => Err(e),
            },
            8u16 => match spec_read_be(b, pos, end, 8) {
                Ok((v, p)) => Ok((ValueV::I64(v as u64 as i64), p)),
                Err(e) => Err(e),
            },
            _ => Err(IpfixError::TypeLength { pos: pos as usize, ty, length: field_length }),
        },
        DataRecordType::Float => match field_length {
            4u16 => match spec_read_be(b, pos, end, 4) {
                Ok((v, p)) => Ok((ValueV::F32(v as u32), p)),
                Err(e) => Err(e),
            },
            8u16 => match spec_read_be(b, pos, end, 8) {
                Ok((v, p)) => Ok((ValueV::F64(v as u64), p)),
                Err(e) => Err(e),
            },
            _ => Err(IpfixError::TypeLength { pos: pos as usize, ty, length: field_length }),
        },
        DataRecordType::Bool => match field_length {
            1u16 => match spec_read_be(b, pos, end, 1) {
                Ok((v, p)) => Ok((ValueV::Bool(v == 1), p)),
                Err(e) => Err(e),
            },
            _ => Err(IpfixError::TypeLength { pos: pos as usize, ty, length: field_length }),
        },
        DataRecordType::MacAddress => match field_length {
            6u16 => match spec_read_chunk(b, pos, end, 6) {
                Ok((s, p)) => Ok((ValueV::MacAddress(s), p)),
                Err(e) => Err(e),
            },
            _ => Err(IpfixError::TypeLength { pos: pos as usize, ty, length: field_length }),
        },
        DataRecordType::Bytes => match spec_read_varlen(b, pos, end, field_length) {
            Ok((s, p)) => Ok((ValueV::Bytes(s), p)),
            Err(e) => Err(e),
        },
        DataRecordType::String => match spec_read_varlen(b, pos, end, field_length) {
            Ok((s, p)) => if vstd::utf8::valid_utf8(s) {
                Ok((ValueV::String(vstd::utf8::decode_utf8(s)), p))
            } else {
                Err(IpfixError::InvalidUtf8 { pos: p as usize })
            },
            Err(e) => Err(e),
        },
        DataRecordType::DateTimeSeconds => match field_length {
            4u16 => match spec_read_be(b, pos, end, 4) {
                Ok((v, p)) => Ok((ValueV::DateTimeSeconds(v as u32), p)),
                Err(e) => Err(e),
            },
            _ => Err(IpfixError::TypeLength { pos: pos as usize, ty, length: field_length }),
        },
        DataRecordType::DateTimeMilliseconds => match field_length {
            8u16 => match spec_read_be(b, pos, end, 8) {
                Ok((v, p)) => Ok((ValueV::DateTimeMilliseconds(v as u64), p)),
                Err(e) => Err(e),
            },
            _ => Err(IpfixError::TypeLength { pos: pos as usize, ty, length: field_length }),
        },
        DataRecordType::DateTimeMicroseconds => match field_length {
            8u16 => match spec_read_be(b, pos, end, 8) {
                Ok((v, p)) => Ok((ValueV::DateTimeMicroseconds(v as u64), p)),
                Err(e) => Err(e),
            },
            _ => Err(IpfixError::TypeLength { pos: pos as usize, ty, length: field_length }),
        },
        DataRecordType::DateTimeNanoseconds => match field_length {
            8u16 => match spec_read_be(b, pos, end, 8) {
                Ok((v, p)) => Ok((ValueV::DateTimeNanoseconds(v as u64), p)),
                Err(e) => Err(e),
            },
            _ => Err(IpfixError::TypeLength { pos: pos as usize, ty, length: field_length }),
        },
        DataRecordType::Ipv4Addr => match field_length {
            4u16 => match spec_read_chunk(b, pos, end, 4) {
                Ok((s, p)) => Ok((ValueV::Ipv4Addr(s), p)),
                Err(e) => Err(e),
            },
            _ => Err(IpfixError::TypeLength { pos: pos as usize, ty, length: field_length }),
        },
        DataRecordType::Ipv6Addr => match field_length {
            16u16 => match spec_read_chunk(b, pos, end, 16) {
                Ok((s, p)) => Ok((ValueV::Ipv6Addr(s), p)),
                Err(e) => Err(e),
            },
            _ => Err(IpfixError::TypeLength { pos: pos as usize, ty, length: field_length }),
        },
    }
}

/// True when a value can be written into a slot of `field_length`: a
/// variable-length slot takes only bytes or a string, and only up to the
/// largest encodable payload.
pub open spec fn spec_value_write_ok(v: ValueV, field_length: u16) -> bool {
    if field_length == 0xFFFF {
        match v {
            ValueV::Bytes(s) => s.len() <= 0xFFFF - 3,
            ValueV::String(cs) => vstd::utf8::encode_utf8(cs).len() <= 0xFFFF - 3,
            _ => false,
        }
    } else {
        true
    }
}

/// The bytes a value contributes to the wire in a slot of `field_length`.
/// Integers keep their own width (no reconciliation against the template's
/// length is performed); bytes and strings in a variable-length slot are
/// preceded by the length prefix.
pub open spec fn spec_value_bytes(v: ValueV, field_length: u16) -> Seq<u8> {
    match v {
        ValueV::U8(x) => be_bytes(x as nat, 1),
        ValueV::U16(x) => be_bytes(x as nat, 2),
        ValueV::U32(x) => be_bytes(x as nat, 4),
        ValueV::U64(x) => be_bytes(x as nat, 8),
        ValueV::I8(x) => be_bytes((x as u8) as nat, 1),
        ValueV::I16(x) => be_bytes((x as u16) as nat, 2),
        ValueV::I32(x) => be_bytes((x as u32) as nat, 4),
        ValueV::I64(x) => be_bytes((x as u64) as nat, 8),
        ValueV::F32(x) => be_bytes(x as nat, 4),
        ValueV::F64(x) => be_bytes(x as nat, 8),
        ValueV::Bool(x) => seq![if x { 1u8 } else { 2u8 }],
        ValueV::MacAddress(s) => s,
        ValueV::Bytes(s) => if field_length == 0xFFFF {
            varlen_prefix(s.len()) + s
        } else {
            s
        },
        ValueV::String(cs) => {
            let s = vstd::utf8::encode_utf8(cs);
            if field_length == 0xFFFF {
                varlen_prefix(s.len()) + s
            } else {
                s
            }
        },
        ValueV::DateTimeSeconds(x) => be_bytes(x as nat, 4),
        ValueV::DateTimeMilliseconds(x) => be_bytes(x as nat, 8),
        ValueV::DateTimeMicroseconds(x) => be_bytes(x as nat, 8),
        ValueV::DateTimeNanoseconds(x) => be_bytes(x as nat, 8),
        ValueV::Ipv4Addr(s) => s,
        ValueV::Ipv6Addr(s) => s,
    }
}

// ---------------------------------------------------------------------------
// Executable reads
// ---------------------------------------------------------------------------

/// Relies on String::from_utf8: it succeeds exactly on valid UTF-8 input
/// and returns the string of the decoded characters.
#[verifier::external_body]
fn string_from_utf8(bytes: Vec<u8>) -> (r: Option<String>)
    ensures
        r is Some <==> vstd::utf8::valid_utf8(bytes@),
        r matches Some(s) ==> s@ == vstd::utf8::decode_utf8(bytes@),
{
    String::from_utf8(bytes).ok()
}

/// Copy `n` bytes starting at `pos` into a fresh vector.
fn read_chunk(b: &[u8], pos: usize, end: usize, n: usize) -> (r: Result<
    (Vec<u8>, usize),
    IpfixError,
>)
    requires
        pos <= end,
        end <= b@.len(),
    ensures
        match r {
            Ok((v, p)) => spec_read_chunk(b@, pos as int, end as int, n as int)
                == Ok::<_, IpfixError>((v@, p as int)),
            Err(e) => spec_read_chunk(b@, pos as int, end as int, n as int)
                == Err::<(Seq<u8>, int), _>(e),
        },
{
    if n <= end - pos {
        let mut v: Vec<u8> = Vec::new();
        let mut i: usize = 0;
        while i < n
            invariant
                i <= n,
                pos + n <= end <= b@.len(),
                v@ =~= b@.subrange(pos as int, pos + i),
            decreases n - i,
        {
            v.push(b[pos + i]);
            proof {
                assert(v@ =~= b@.subrange(pos as int, pos + i + 1));
            }
            i = i + 1;
        }
        proof {
            assert(v@ =~= b@.subrange(pos as int, pos + n));
        }
        Ok((v, pos + n))
    } else {
        Err(IpfixError::UnexpectedEof { pos })
    }
}

/// Read a field payload, honouring the variable-length prefix when the
/// template declared the field variable-length.
pub fn read_variable_length(b: &[u8], pos: usize, end: usize, field_length: u16) -> (r: Result<
    (Vec<u8>, usize),
    IpfixError,
>)
    requires
        pos <= end,
        end <= b@.len(),
    ensures
        match r {
            Ok((v, p)) => spec_read_varlen(b@, pos as int, end as int, field_length)
                == Ok::<_, IpfixError>((v@, p as int)),
            Err(e) => spec_read_varlen(b@, pos as int, end as int, field_length)
                == Err::<(Seq<u8>, int), _>(e),
        },
{
    if field_length == 0xFFFF {
        let (l1, p1) = match read_u8(b, pos, end) {
            Ok(x) => x,
            Err(e) => {
                return Err(e);
            },
        };
        if l1 == 255 {
            let (l2, p2) = match read_u16(b, p1, end) {
                Ok(x) => x,
                Err(e) => {
                    return Err(e);
                },
            };
            read_chunk(b, p2, end, l2 as usize)
        } else {
            read_chunk(b, p1, end, l1 as usize)
        }
    } else {
        read_chunk(b, pos, end, field_length as usize)
    }
}

/// Read one value of abstract type `ty` from a slot of `field_length`.
pub fn read_value(
    ty: DataRecordType,
    field_length: u16,
    b: &[u8],
    pos: usize,
    end: usize,
) -> (r: Result<(DataRecordValue, usize), IpfixError>)
    requires
        pos <= end,
        end <= b@.len(),
    ensures
        match r {
            Ok((v, p)) => spec_read_value(ty, field_length, b@, pos as int, end as int)
                == Ok::<_, IpfixError>((v@, p as int)),
            Err(e) => spec_read_value(ty, field_length, b@, pos as int, end as int)
                == Err::<(ValueV, int), _>(e),
        },
{
    match ty {
        DataRecordType::UnsignedInt => match field_length {
            1u16 => match read_u8(b, pos, end) {
                Ok((v, p)) => Ok((DataRecordValue::U8(v), p)),
                Err(e) => Err(e),
            },
            2u16 => match read_u16(b, pos, end) {
                Ok((v, p)) => Ok((DataRecordValue::U16(v), p)),
                Err(e) => Err(e),
            },
            4u16 => match crate::wire::read_u32(b, pos, end) {
                Ok((v, p)) => Ok((DataRecordValue::U32(v), p)),
                Err(e) => Err(e),
            },
            8u16 => match crate::wire::read_u64(b, pos, end) {
                Ok((v, p)) => Ok((DataRecordValue::U64(v), p)),
                Err(e) => Err(e),
            },
            _ => Err(IpfixError::TypeLength { pos, ty, length: field_length }),
        },
        DataRecordType::SignedInt => match field_length {
            1u16 => match read_u8(b, pos, end) {
                Ok((v, p)) => Ok((DataRecordValue::I8(v as i8), p)),
                Err(e) => Err(e),
            },
            2u16 => match read_u16(b, pos, end) {
                Ok((v, p)) => Ok((DataRecordValue::I16(v as i16), p)),
                Err(e) => Err(e),
            },
            4u16 => match crate::wire::read_u32(b, pos, end) {
                Ok((v, p)) => Ok((DataRecordValue::I32(v as i32), p)),
                Err(e) => Err(e),
            },
            8u16 => match crate::wire::read_u64(b, pos, end) {
                Ok((v, p)) => Ok((DataRecordValue::I64(v as i64), p)),
                Err(e) => Err(e),
            },
            _ => Err(IpfixError::TypeLength { pos, ty, length: field_length }),
        },
        DataRecordType::Float => match field_length {
            4u16 => match crate::wire::read_u32(b, pos, end) {
                Ok((v, p)) => Ok((DataRecordValue::F32(v), p)),
                Err(e) => Err(e),
            },
            8u16 => match crate::wire::read_u64(b, pos, end) {
                Ok((v, p)) => Ok((DataRecordValue::F64(v), p)),
                Err(e) => Err(e),
            },
            _ => Err(IpfixError::TypeLength { pos, ty, length: field_length }),
        },
        DataRecordType::Bool => match field_length {
            1u16 => match read_u8(b, pos, end) {
                Ok((v, p)) => {
                    proof {
                        crate::wire::lemma_from_be_bound(b@.subrange(pos as int, pos + 1));
                        reveal_with_fuel(crate::wire::pow256, 3);
                    }
                    Ok((DataRecordValue::Bool(v == 1), p))
                },
                Err(e) => Err(e),
            },
            _ => Err(IpfixError::TypeLength { pos, ty, length: field_length }),
        },
        DataRecordType::MacAddress => match field_length {
            6u16 => match read_chunk(b, pos, end, 6) {
                Ok((v, p)) => {
                    let m: [u8; 6] = [v[0], v[1], v[2], v[3], v[4], v[5]];
                    proof {
                        assert(m@ =~= v@);
                    }
                    Ok((DataRecordValue::MacAddress(m), p))
                },
                Err(e) => Err(e),
            },
            _ => Err(IpfixError::TypeLength { pos, ty, length: field_length }),
        },
        DataRecordType::Bytes => match read_variable_length(b, pos, end, field_length) {
            Ok((v, p)) => Ok((DataRecordValue::Bytes(v), p)),
            Err(e) => Err(e),
        },
        DataRecordType::String => match read_variable_length(b, pos, end, field_length) {
            Ok((v, p)) => {
                let ghost bytes = v@;
                match string_from_utf8(v) {
                    Some(s) => Ok((DataRecordValue::String(s), p)),
                    None => Err(IpfixError::InvalidUtf8 { pos: p }),
                }
            },
            Err(e) => Err(e),
        },
        DataRecordType::DateTimeSeconds => match field_length {
            4u16 => match crate::wire::read_u32(b, pos, end) {
                Ok((v, p)) => Ok((DataRecordValue::DateTimeSeconds(v), p)),
                Err(e) => Err(e),
            },
            _ => Err(IpfixError::TypeLength { pos, ty, length: field_length }),
        },
        DataRecordType::DateTimeMilliseconds => match field_length {
            8u16 => match crate::wire::read_u64(b, pos, end) {
                Ok((v, p)) => Ok((DataRecordValue::DateTimeMilliseconds(v), p)),
                Err(e) => Err(e),
            },
            _ => Err(IpfixError::TypeLength { pos, ty, length: field_length }),
        },
        DataRecordType::DateTimeMicroseconds => match field_length {
            8u16 => match crate::wire::read_u64(b, pos, end) {
                Ok((v, p)) => Ok((DataRecordValue::DateTimeMicroseconds(v), p)),
                Err(e) => Err(e),
            },
            _ => Err(IpfixError::TypeLength { pos, ty, length: field_length }),
        },
        DataRecordType::DateTimeNanoseconds => match field_length {
            8u16 => match crate::wire::read_u64(b, pos, end) {
                Ok((v, p)) => Ok((DataRecordValue::DateTimeNanoseconds(v), p)),
                Err(e) => Err(e),
            },
            _ => Err(IpfixError::TypeLength { pos, ty, length: field_length }),
        },
        DataRecordType::Ipv4Addr => match field_length {
            4u16 => match read_chunk(b, pos, end, 4) {
                Ok((v, p)) => {
                    let a: [u8; 4] = [v[0], v[1], v[2], v[3]];
                    proof {
                        assert(a@ =~= v@);
                    }
                    Ok((DataRecordValue::Ipv4Addr(a), p))
                },
                Err(e) => Err(e),
            },
            _ => Err(IpfixError::TypeLength { pos, ty, length: field_length }),
        },
        DataRecordType::Ipv6Addr => match field_length {
            16u16 => match read_chunk(b, pos, end, 16) {
                Ok((v, p)) => {
                    let a: [u8; 16] = [
                        v[0], v[1], v[2], v[3], v[4], v[5], v[6], v[7], v[8], v[9], v[10], v[11],
                        v[12], v[13], v[14], v[15],
                    ];
                    proof {
                        assert(a@ =~= v@);
                    }
                    Ok((DataRecordValue::Ipv6Addr(a), p))
                },
                Err(e) => Err(e),
            },
            _ => Err(IpfixError::TypeLength { pos, ty, length: field_length }),
        },
    }
}

// ---------------------------------------------------------------------------
// Executable writes
// ---------------------------------------------------------------------------

/// Append every byte of `b`.
fn push_bytes(out: &mut Vec<u8>, b: &[u8])
    ensures
        final(out)@ == old(out)@ + b@,
{
    let mut i: usize = 0;
    while i < b.len()
        invariant
            i <= b@.len(),
            out@ =~= old(out)@ + b@.subrange(0, i as int),
        decreases b@.len() - i,
    {
        out.push(b[i]);
        proof {
            assert(out@ =~= old(out)@ + b@.subrange(0, i + 1));
        }
        i = i + 1;
    }
    proof {
        assert(out@ =~= old(out)@ + b@);
    }
}

/// Append the variable-length prefix for a payload of `len` bytes.
fn push_varlen_prefix(out: &mut Vec<u8>, len: usize)
    requires
        len <= 0xFFFF - 3,
    ensures
        final(out)@ == old(out)@ + varlen_prefix(len as nat),
{
    if len < 255 {
        out.push(len as u8);
        proof {
            assert(out@ =~= old(out)@ + varlen_prefix(len as nat));
        }
    } else {
        out.push(255u8);
        crate::wire::push_u16(out, len as u16);
        proof {
            assert(out@ =~= old(out)@ + varlen_prefix(len as nat));
        }
    }
}

/// Write one value into a slot of `field_length`, appending to `out`.
/// Fails, leaving `out` unchanged, exactly when a variable-length slot is
/// given a value that is not bytes or a string, or a payload too large to
/// encode.
pub fn write_value(value: &DataRecordValue, field_length: u16, out: &mut Vec<u8>) -> (r: Result<
    (),
    IpfixError,
>)
    ensures
        r is Ok <==> spec_value_write_ok(value@, field_length),
        r is Ok ==> final(out)@ == old(out)@ + spec_value_bytes(value@, field_length),
        r is Err ==> final(out)@ == old(out)@,
        r matches Err(e) ==> (e matches IpfixError::NonVariableValue <==> !(value@ is Bytes
            || value@ is String)),
        r matches Err(e) ==> ((e matches IpfixError::VariableLengthOverflow { .. }) <==> (value@
            is Bytes || value@ is String)),
{
    match value {
        DataRecordValue::U8(x) => {
            if field_length == 0xFFFF {
                return Err(IpfixError::NonVariableValue);
            }
            out.push(*x);
            proof {
                reveal_with_fuel(be_bytes, 3);
                assert(out@ =~= old(out)@ + spec_value_bytes(value@, field_length));
            }
            Ok(())
        },
        DataRecordValue::U16(x) => {
            if field_length == 0xFFFF {
                return Err(IpfixError::NonVariableValue);
            }
            crate::wire::push_u16(out, *x);
            Ok(())
        },
        DataRecordValue::U32(x) => {
            if field_length == 0xFFFF {
                return Err(IpfixError::NonVariableValue);
            }
            crate::wire::push_u32(out, *x);
            Ok(())
        },
        DataRecordValue::U64(x) => {
            if field_length == 0xFFFF {
                return Err(IpfixError::NonVariableValue);
            }
            crate::wire::push_u64(out, *x);
            Ok(())
        },
        DataRecordValue::I8(x) => {
            if field_length == 0xFFFF {
                return Err(IpfixError::NonVariableValue);
            }
            out.push(*x as u8);
            proof {
                reveal_with_fuel(be_bytes, 3);
                assert(out@ =~= old(out)@ + spec_value_bytes(value@, field_length));
            }
            Ok(())
        },
        DataRecordValue::I16(x) => {
            if field_length == 0xFFFF {
                return Err(IpfixError::NonVariableValue);
            }
            crate::wire::push_u16(out, *x as u16);
            Ok(())
        },
        DataRecordValue::I32(x) => {
            if field_length == 0xFFFF {
                return Err(IpfixError::NonVariableValue);
            }
            crate::wire::push_u32(out, *x as u32);
            Ok(())
        },
        DataRecordValue::I64(x) => {
            if field_length == 0xFFFF {
                return Err(IpfixError::NonVariableValue);
            }
            crate::wire::push_u64(out, *x as u64);
            Ok(())
        },
        DataRecordValue::F32(x) => {
            if field_length == 0xFFFF {
                return Err(IpfixError::NonVariableValue);
            }
            crate::wire::push_u32(out, *x);
            Ok(())
        },
        DataRecordValue::F64(x) => {
            if field_length == 0xFFFF {
                return Err(IpfixError::NonVariableValue);
            }
            crate::wire::push_u64(out, *x);
            Ok(())
        },
        DataRecordValue::Bool(x) => {
            if field_length == 0xFFFF {
                return Err(IpfixError::NonVariableValue);
            }
            out.push(if *x { 1u8 } else { 2u8 });
            proof {
                assert(out@ =~= old(out)@ + spec_value_bytes(value@, field_length));
            }
            Ok(())
        },
        DataRecordValue::MacAddress(m) => {
            if field_length == 0xFFFF {
                return Err(IpfixError::NonVariableValue);
            }
            push_bytes(out, m.as_slice());
            Ok(())
        },
        DataRecordValue::Bytes(v) => {
            if field_length == 0xFFFF {
                if v.len() > 0xFFFF - 3 {
                    return Err(IpfixError::VariableLengthOverflow { len: v.len() });
                }
                push_varlen_prefix(out, v.len());
                push_bytes(out, v.as_slice());
                proof {
                    assert(out@ =~= old(out)@ + spec_value_bytes(value@, field_length));
                }
            } else {
                push_bytes(out, v.as_slice());
            }
            Ok(())
        },
        DataRecordValue::String(s) => {
            let bytes: &[u8] = s.as_str().as_bytes();
            if field_length == 0xFFFF {
                if bytes.len() > 0xFFFF - 3 {
                    return Err(IpfixError::VariableLengthOverflow { len: bytes.len() });
                }
                push_varlen_prefix(out, bytes.len());
                push_bytes(out, bytes);
                proof {
                    assert(out@ =~= old(out)@ + spec_value_bytes(value@, field_length));
                }
            } else {
                push_bytes(out, bytes);
            }
            Ok(())
        },
        DataRecordValue::DateTimeSeconds(x) => {
            if field_length == 0xFFFF {
                return Err(IpfixError::NonVariableValue);
            }
            crate::wire::push_u32(out, *x);
            Ok(())
        },
        DataRecordValue::DateTimeMilliseconds(x) => {
            if field_length == 0xFFFF {
                return Err(IpfixError::NonVariableValue);
            }
            crate::wire::push_u64(out, *x);
            Ok(())
        },
        DataRecordValue::DateTimeMicroseconds(x) => {
            if field_length == 0xFFFF {
                return Err(IpfixError::NonVariableValue);
            }
            crate::wire::push_u64(out, *x);
            Ok(())
        },
        DataRecordValue::DateTimeNanoseconds(x) => {
            if field_length == 0xFFFF {
                return Err(IpfixError::NonVariableValue);
            }
            crate::wire::push_u64(out, *x);
            Ok(())
        },
        DataRecordValue::Ipv4Addr(a) => {
            if field_length == 0xFFFF {
                return Err(IpfixError::NonVariableValue);
            }
            push_bytes(out, a.as_slice());
            Ok(())
        },
        DataRecordValue::Ipv6Addr(a) => {
            if field_length == 0xFFFF {
                return Err(IpfixError::NonVariableValue);
            }
            push_bytes(out, a.as_slice());
            Ok(())
        },
    }
}

} // verus!
