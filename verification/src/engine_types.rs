//! Storage-level types: column types, stored values, primary keys, and the
//! one-byte codec of column types.
use vstd::prelude::*;

use crate::change_key::DecodeError;

verus! {

/// Type of a stored column.
#[derive(Clone, Copy, Debug, PartialEq, Eq, Hash, Structural)]
pub enum EngineType {
    Integer,
    Float,
    Text,
    Uuid,
    Blob,
    Json,
}

/// A stored value; a float is held by its IEEE-754 bit pattern.
#[derive(Debug)]
pub enum EngineValue {
    Integer(i64),
    Float(u64),
    Text(String),
    Uuid([u8; 16]),
    Blob(Vec<u8>),
    Json(String),
    Null,
}

/// Two stored values hold the same data.
pub open spec fn engine_value_same(a: EngineValue, b: EngineValue) -> bool {
    match (a, b) {
        (EngineValue::Integer(x), EngineValue::Integer(y)) => x == y,
        (EngineValue::Float(x), EngineValue::Float(y)) => x == y,
        (EngineValue::Text(x), EngineValue::Text(y)) => x@ == y@,
        (EngineValue::Uuid(x), EngineValue::Uuid(y)) => x == y,
        (EngineValue::Blob(x), EngineValue::Blob(y)) => x@ == y@,
        (EngineValue::Json(x), EngineValue::Json(y)) => x@ == y@,
        (EngineValue::Null, EngineValue::Null) => true,
        _ => false,
    }
}

/// Tag of a stored value's variant, which also orders values of different types.
pub open spec fn discriminant_spec(v: EngineValue) -> u8 {
    match v {
        EngineValue::Null => 0,
        EngineValue::Integer(_) => 1,
        EngineValue::Float(_) => 2,
        EngineValue::Text(_) => 3,
        EngineValue::Uuid(_) => 4,
        EngineValue::Blob(_) => 5,
        EngineValue::Json(_) => 6,
    }
}

impl EngineValue {
    /// A copy of the value.
    pub fn duplicate(&self) -> (r: EngineValue)
        ensures
            engine_value_same(*self, r),
    {
        match self {
            EngineValue::Integer(i) => EngineValue::Integer(*i),
            EngineValue::Float(b) => EngineValue::Float(*b),
            EngineValue::Text(s) => EngineValue::Text(s.clone()),
            EngineValue::Uuid(u) => EngineValue::Uuid(*u),
            EngineValue::Blob(b) => EngineValue::Blob(crate::change_key::copy_bytes(b.as_slice())),
            EngineValue::Json(s) => EngineValue::Json(s.clone()),
            EngineValue::Null => EngineValue::Null,
        }
    }

    pub fn discriminant_byte(&self) -> (r: u8)
        ensures
            r == discriminant_spec(*self),
    {
        match self {
            EngineValue::Null => 0,
            EngineValue::Integer(_) => 1,
            EngineValue::Float(_) => 2,
            EngineValue::Text(_) => 3,
            EngineValue::Uuid(_) => 4,
            EngineValue::Blob(_) => 5,
            EngineValue::Json(_) => 6,
        }
    }

    /// Rank of the value's type when values of different types are ordered.
    pub fn type_precedence(&self) -> (r: u8)
        ensures
            r == discriminant_spec(*self),
    {
        self.discriminant_byte()
    }
}

/// Sixteen-byte primary key of a row.
#[derive(Clone, Copy, Debug, PartialEq, Eq, PartialOrd, Ord, Hash)]
pub struct PrimaryKey(pub [u8; 16]);

impl PrimaryKey {
    pub fn new(bytes: [u8; 16]) -> (r: PrimaryKey)
        ensures
            r.0 == bytes,
    {
        PrimaryKey(bytes)
    }

    pub fn as_bytes(&self) -> (r: &[u8; 16])
        ensures
            *r == self.0,
    {
        &self.0
    }

    pub fn into_bytes(self) -> (r: [u8; 16])
        ensures
            r == self.0,
    {
        self.0
    }
}

/// Tag byte of a column type.
pub open spec fn engine_type_tag(t: EngineType) -> u8 {
    match t {
        EngineType::Integer => 0,
        EngineType::Float => 1,
        EngineType::Text => 2,
        EngineType::Blob => 3,
        EngineType::Uuid => 4,
        EngineType::Json => 5,
    }
}

/// The column type with a given tag byte.
pub open spec fn engine_type_of_tag(b: u8) -> Option<EngineType> {
    if b == 0 {
        Some(EngineType::Integer)
    } else if b == 1 {
        Some(EngineType::Float)
    } else if b == 2 {
        Some(EngineType::Text)
    } else if b == 3 {
        Some(EngineType::Blob)
    } else if b == 4 {
        Some(EngineType::Uuid)
    } else if b == 5 {
        Some(EngineType::Json)
    } else {
        None
    }
}

/// Appends the tag byte of a column type.
pub fn encode_engine_type_into_sink(sink: &mut Vec<u8>, value: &EngineType)
    ensures
        final(sink)@ == old(sink)@.push(engine_type_tag(*value)),
{
    let tag: u8 = match value {
        EngineType::Integer => 0,
        EngineType::Float => 1,
        EngineType::Text => 2,
        EngineType::Blob => 3,
        EngineType::Uuid => 4,
        EngineType::Json => 5,
    };
    sink.push(tag);
}

/// A read position within a byte buffer.
pub struct Cursor<'a> {
    pub bytes: &'a [u8],
    pub pos: usize,
}

impl<'a> Cursor<'a> {
    pub fn new(bytes: &'a [u8]) -> (r: Cursor<'a>)
        ensures
            r.bytes@ == bytes@,
            r.pos == 0,
    {
        Cursor { bytes, pos: 0 }
    }

    /// Reads the next byte, failing at the end of the buffer.
    pub fn read_u8(&mut self) -> (r: Result<u8, DecodeError>)
        ensures
            final(self).bytes == old(self).bytes,
            old(self).pos < old(self).bytes@.len() ==> r == Ok::<u8, DecodeError>(old(self).bytes@[old(self).pos as int])
                && final(self).pos == old(self).pos + 1,
            old(self).pos >= old(self).bytes@.len() ==> r == Err::<u8, DecodeError>(DecodeError::Truncated)
                && final(self).pos == old(self).pos,
    {
        if self.pos < self.bytes.len() {
            let b = self.bytes[self.pos];
            self.pos = self.pos + 1;
            Ok(b)
        } else {
            Err(DecodeError::Truncated)
        }
    }
}

/// Reads a column type from its tag byte.
pub fn decode_engine_type(cursor: &mut Cursor) -> (r: Result<EngineType, DecodeError>)
    ensures
        final(cursor).bytes == old(cursor).bytes,
        old(cursor).pos >= old(cursor).bytes@.len() ==> r == Err::<EngineType, DecodeError>(DecodeError::Truncated),
        old(cursor).pos < old(cursor).bytes@.len() ==> {
            &&& final(cursor).pos == old(cursor).pos + 1
            &&& match engine_type_of_tag(old(cursor).bytes@[old(cursor).pos as int]) {
                Some(t) => r == Ok::<EngineType, DecodeError>(t),
                None => r == Err::<EngineType, DecodeError>(DecodeError::Malformed),
            }
        },
{
    let b = cursor.read_u8()?;
    if b == 0 {
        Ok(EngineType::Integer)
    } else if b == 1 {
        Ok(EngineType::Float)
    } else if b == 2 {
        Ok(EngineType::Text)
    } else if b == 3 {
        Ok(EngineType::Blob)
    } else if b == 4 {
        Ok(EngineType::Uuid)
    } else if b == 5 {
        Ok(EngineType::Json)
    } else {
        Err(DecodeError::Malformed)
    }
}

/// Reading back the tag written for a column type gives that type, and
/// distinct types have distinct tags.
pub proof fn law_engine_type_roundtrip(t: EngineType, u: EngineType)
    ensures
        engine_type_of_tag(engine_type_tag(t)) == Some(t),
        engine_type_tag(t) == engine_type_tag(u) ==> t == u,
{
}

} // verus!
