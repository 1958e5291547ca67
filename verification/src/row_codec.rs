//! Framing of the incremental row changes kept by the document row codec, and
//! the codec's own identity.
use vstd::prelude::*;

use crate::text::decimal;

verus! {

/// Errors raised by the row codec: a query the codec refuses, or stored data
/// it cannot read.
#[derive(Clone, Debug)]
pub enum EngineError {
    InvalidQuery(String),
    Custom(String),
}

/// Per-row metadata kept beside a row document.
#[derive(Clone, Copy, Debug)]
pub struct RowMetadata {
    pub version: u8,
    pub deleted: bool,
}

/// Number of bytes of the column count that leads an incremental change.
pub const COLUMN_COUNT_BYTES: usize = 4;

/// The four big-endian bytes of `n`.
pub open spec fn be_u32_bytes(n: int) -> Seq<u8> {
    seq![
        ((n / 0x100_0000) % 0x100) as u8,
        ((n / 0x1_0000) % 0x100) as u8,
        ((n / 0x100) % 0x100) as u8,
        (n % 0x100) as u8,
    ]
}

/// The number whose big-endian bytes are the first four of `b`.
pub open spec fn be_u32_value(b: Seq<u8>) -> int {
    b[0] * 0x100_0000 + b[1] * 0x1_0000 + b[2] * 0x100 + b[3]
}

/// An incremental change: the column count of the row, as four big-endian
/// bytes, followed by the change itself.
pub open spec fn incremental_frame(column_count: int, bytes: Seq<u8>) -> Seq<u8> {
    be_u32_bytes(column_count) + bytes
}

fn too_many_columns() -> (r: &'static str)
    ensures
        r@ == "Logical row has too many columns"@,
{
    "Logical row has too many columns"
}

fn invalid_change() -> (r: &'static str)
    ensures
        r@ == "Invalid Automerge row change"@,
{
    "Invalid Automerge row change"
}

/// Frames a change with the column count of its row; a count that does not
/// fit in 32 bits is refused.
pub fn encode_incremental(column_count: usize, bytes: Vec<u8>) -> (r: Result<Vec<u8>, EngineError>)
    ensures
        column_count <= u32::MAX <==> r is Ok,
        r matches Ok(v) ==> v@ == incremental_frame(column_count as int, bytes@),
        r matches Err(e) ==> e matches EngineError::InvalidQuery(m)
            && m@ == "Logical row has too many columns"@,
{
    if column_count > 0xffff_ffffusize {
        return Err(EngineError::InvalidQuery(String::from_str(too_many_columns())));
    }
    let n: u32 = column_count as u32;
    let mut value: Vec<u8> = Vec::new();
    value.push(((n / 0x100_0000) % 0x100) as u8);
    value.push(((n / 0x1_0000) % 0x100) as u8);
    value.push(((n / 0x100) % 0x100) as u8);
    value.push((n % 0x100) as u8);
    let ghost head = value@;
    assert(head == be_u32_bytes(column_count as int));
    let mut i: usize = 0;
    while i < bytes.len()
        invariant
            i <= bytes@.len(),
            value@ == head + bytes@.take(i as int),
        decreases bytes.len() - i,
    {
        value.push(bytes[i]);
        assert(bytes@.take(i + 1) == bytes@.take(i as int).push(bytes@[i as int]));
        i = i + 1;
    }
    assert(bytes@.take(bytes@.len() as int) == bytes@);
    Ok(value)
}

/// Splits a framed change into the column count it carries and the change;
/// a value shorter than the count is refused.
pub fn decode_incremental(value: &[u8]) -> (r: Result<(usize, &[u8]), EngineError>)
    ensures
        value@.len() >= 4 <==> r is Ok,
        r matches Ok((n, rest)) ==> n == be_u32_value(value@) && rest@ == value@.skip(4),
        r matches Err(e) ==> e matches EngineError::Custom(m)
            && m@ == "Invalid Automerge row change"@,
{
    if value.len() < COLUMN_COUNT_BYTES {
        return Err(EngineError::Custom(String::from_str(invalid_change())));
    }
    let b0: usize = value[0] as usize;
    let b1: usize = value[1] as usize;
    let b2: usize = value[2] as usize;
    let b3: usize = value[3] as usize;
    assert(b0 * 0x100_0000 + b1 * 0x1_0000 + b2 * 0x100 + b3 <= 0xffff_ffff) by (nonlinear_arith)
        requires b0 < 256, b1 < 256, b2 < 256, b3 < 256;
    let n: usize = b0 * 0x100_0000 + b1 * 0x1_0000 + b2 * 0x100 + b3;
    let rest = slice_from(value, COLUMN_COUNT_BYTES);
    Ok((n, rest))
}

/// The part of `s` from position `start` on.
fn slice_from(s: &[u8], start: usize) -> (r: &[u8])
    requires
        start <= s@.len(),
    ensures
        r@ == s@.skip(start as int),
{
    let r = s.split_at(start).1;
    r
}

/// A fresh version 7 UUID from the `uuid` crate (`Uuid::now_v7`), as bytes.
/// Its bits come from the clock and a random source; what holds of every
/// outcome is the version nibble (7) and the RFC 4122 variant bits (`10`).
#[verifier::external_body]
fn uuid_now_v7() -> (r: [u8; 16])
    ensures
        r@[6] / 16 == 7,
        r@[8] / 64 == 2,
{
    *uuid::Uuid::now_v7().as_bytes()
}

/// Row codec that keeps each row as a document of its columns; every codec
/// writes its changes under an actor of its own.
#[derive(Debug)]
pub struct AutomergeRowCodec {
    actor: Vec<u8>,
}

/// An actor id as the codec makes one: the bytes of a version 7 UUID.
pub open spec fn is_v7_actor(actor: Seq<u8>) -> bool {
    actor.len() == 16 && actor[6] / 16 == 7 && actor[8] / 64 == 2
}

impl AutomergeRowCodec {
    /// A codec with a fresh actor id.
    pub fn new() -> (r: AutomergeRowCodec)
        ensures
            is_v7_actor(r.actor_spec()),
    {
        let id = uuid_now_v7();
        AutomergeRowCodec { actor: id_to_vec(&id) }
    }

    pub closed spec fn actor_spec(&self) -> Seq<u8> {
        self.actor@
    }

    /// The actor id under which this codec writes.
    pub fn actor(&self) -> (r: &[u8])
        ensures
            r@ == self.actor_spec(),
    {
        self.actor.as_slice()
    }

    /// The document that holds a row: its id's bytes.
    pub fn document_id(row: &[u8; 16]) -> (r: Vec<u8>)
        ensures
            r@ == row@,
    {
        id_to_vec(row)
    }

    /// The row id that a document id names; one that is not 16 bytes long is
    /// refused.
    pub fn row_id(id: &[u8]) -> (r: Result<[u8; 16], EngineError>)
        ensures
            r is Ok <==> id@.len() == 16,
            r matches Ok(b) ==> b@ == id@,
            r matches Err(e) ==> e matches EngineError::Custom(m)
                && m@ == "invalid length: expected 16 bytes, found "@ + decimal(id@.len()),
    {
        match crate::change_key::uuid_from_slice(id) {
            Ok(b) => Ok(b),
            Err(m) => Err(EngineError::Custom(m)),
        }
    }
}

impl Default for AutomergeRowCodec {
    fn default() -> (r: AutomergeRowCodec)
        ensures
            is_v7_actor(r.actor_spec()),
    {
        AutomergeRowCodec::new()
    }
}

/// The sixteen bytes of an id, in order.
fn id_to_vec(id: &[u8; 16]) -> (r: Vec<u8>)
    ensures
        r@ == id@,
{
    let mut v: Vec<u8> = Vec::new();
    let mut i: usize = 0;
    while i < 16
        invariant
            i <= 16,
            v@ == id@.take(i as int),
        decreases 16 - i,
    {
        v.push(id[i]);
        assert(id@.take(i + 1) == id@.take(i as int).push(id@[i as int]));
        i = i + 1;
    }
    assert(id@.take(16) == id@);
    v
}

/// What a frame says is what was framed: decoding a framed change gives back
/// the column count and the change.
pub proof fn law_incremental_roundtrip(column_count: int, bytes: Seq<u8>)
    requires
        0 <= column_count <= u32::MAX,
    ensures
        incremental_frame(column_count, bytes).len() >= 4,
        be_u32_value(incremental_frame(column_count, bytes)) == column_count,
        incremental_frame(column_count, bytes).skip(4) == bytes,
{
    let f = incremental_frame(column_count, bytes);
    let n = column_count;
    assert(f[0] == ((n / 0x100_0000) % 0x100) as u8);
    assert(f[1] == ((n / 0x1_0000) % 0x100) as u8);
    assert(f[2] == ((n / 0x100) % 0x100) as u8);
    assert(f[3] == (n % 0x100) as u8);
    assert(((n / 0x100_0000) % 0x100) * 0x100_0000 + ((n / 0x1_0000) % 0x100) * 0x1_0000
        + ((n / 0x100) % 0x100) * 0x100 + n % 0x100 == n) by (nonlinear_arith)
        requires 0 <= n <= 0xffff_ffff;
    assert(f.skip(4) =~= bytes);
}

} // verus!
