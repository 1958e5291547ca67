//! Byte codec of the keys under which document changes are stored: the
//! 16-byte document id, one byte for the document type, and the 32-byte
//! change hash, 49 bytes in all, ordered as the bytes are.
use vstd::prelude::*;

use crate::bytes_order::{bytes_lt, compare_bytes};
use crate::text::decimal;
use std::cmp::Ordering;

verus! {

/// Length of an encoded change key.
pub const CHANGE_KEY_LEN: usize = 49;

/// Errors of the checked decoders.
#[derive(Clone, Copy, Debug, PartialEq, Eq)]
pub enum DecodeError {
    Truncated,
    Malformed,
}

/// Whether a stored change is an incremental change or a full snapshot.
#[derive(Clone, Copy, Debug, PartialEq, Eq)]
pub enum DocumentType {
    Incremental,
    Snapshot,
}

/// Key of one stored document change.
#[derive(Clone, Copy, Debug, PartialEq, Eq)]
pub struct DocumentChangeKey {
    pub doc_id: [u8; 16],
    pub doc_type: DocumentType,
    pub change_hash: [u8; 32],
}

pub open spec fn doc_type_tag(t: DocumentType) -> u8 {
    match t {
        DocumentType::Incremental => 0,
        DocumentType::Snapshot => 1,
    }
}

/// The encoding of a change key.
pub open spec fn encode_spec(k: DocumentChangeKey) -> Seq<u8> {
    k.doc_id@ + seq![doc_type_tag(k.doc_type)] + k.change_hash@
}

/// Order of change keys: by document id, then type, then hash, each part
/// compared bytewise.
pub open spec fn key_lt(a: DocumentChangeKey, b: DocumentChangeKey) -> bool {
    ||| bytes_lt(a.doc_id@, b.doc_id@)
    ||| (a.doc_id@ == b.doc_id@ && doc_type_tag(a.doc_type) < doc_type_tag(b.doc_type))
    ||| (a.doc_id@ == b.doc_id@ && a.doc_type == b.doc_type && bytes_lt(
        a.change_hash@,
        b.change_hash@,
    ))
}

/// A buffer that `decode` accepts: long enough, with a known type byte.
pub open spec fn decodable(data: Seq<u8>) -> bool {
    data.len() >= 49 && data[16] <= 1
}

/// `k` is the key held by the first 49 bytes of `data`.
pub open spec fn decoded_from(k: DocumentChangeKey, data: Seq<u8>) -> bool {
    &&& k.doc_id@ == data.subrange(0, 16)
    &&& doc_type_tag(k.doc_type) == data[16]
    &&& k.change_hash@ == data.subrange(17, 49)
}

/// Copies a 16-byte id out of a slice with `uuid::Uuid::from_slice`: the
/// bytes, or, for a slice of another length, the text of the crate's error.
#[verifier::external_body]
pub(crate) fn uuid_from_slice(data: &[u8]) -> (r: Result<[u8; 16], String>)
    ensures
        r is Ok <==> data@.len() == 16,
        r matches Ok(b) ==> b@ == data@,
        r matches Err(m) ==> m@ == "invalid length: expected 16 bytes, found "@ + decimal(data@.len()),
{
    match uuid::Uuid::from_slice(data) {
        Ok(u) => Ok(*u.as_bytes()),
        Err(e) => Err(e.to_string()),
    }
}

/// Codec of change keys.
#[derive(Clone, Copy, Debug, Default)]
pub struct FacadeDocumentChangeKeyCodec;

impl FacadeDocumentChangeKeyCodec {
    pub fn encode(value: &DocumentChangeKey) -> (out: Vec<u8>)
        ensures
            out@ == encode_spec(*value),
    {
        let mut out: Vec<u8> = Vec::with_capacity(CHANGE_KEY_LEN);
        let mut i: usize = 0;
        while i < 16
            invariant
                i <= 16,
                out@ == value.doc_id@.take(i as int),
            decreases 16 - i,
        {
            out.push(value.doc_id[i]);
            assert(value.doc_id@.take(i + 1) == value.doc_id@.take(i as int).push(value.doc_id@[i as int]));
            i = i + 1;
        }
        let tag: u8 = match value.doc_type {
            DocumentType::Incremental => 0,
            DocumentType::Snapshot => 1,
        };
        out.push(tag);
        let ghost head = out@;
        let mut j: usize = 0;
        while j < 32
            invariant
                j <= 32,
                out@ == head + value.change_hash@.take(j as int),
            decreases 32 - j,
        {
            out.push(value.change_hash[j]);
            assert(value.change_hash@.take(j + 1) == value.change_hash@.take(j as int).push(value.change_hash@[j as int]));
            j = j + 1;
        }
        assert(value.doc_id@.take(16) == value.doc_id@);
        assert(value.change_hash@.take(32) == value.change_hash@);
        out
    }

    /// Appends the encoding of `value` to `scratch`.
    pub fn encode_into(&self, value: &DocumentChangeKey, scratch: &mut Vec<u8>)
        ensures
            final(scratch)@ == old(scratch)@ + encode_spec(*value),
    {
        let mut bytes = Self::encode(value);
        scratch.append(&mut bytes);
    }

    /// Reads a change key from the first 49 bytes of `data`.
    pub fn decode(data: &[u8]) -> (k: DocumentChangeKey)
        requires
            decodable(data@),
        ensures
            decoded_from(k, data@),
    {
        let id = match uuid_from_slice(&data[0..16]) {
            Ok(b) => b,
            Err(_) => [0u8; 16],
        };
        let doc_type = if data[16] == 0 {
            DocumentType::Incremental
        } else {
            DocumentType::Snapshot
        };
        let mut change_hash = [0u8; 32];
        let mut i: usize = 0;
        while i < 32
            invariant
                i <= 32,
                data@.len() >= 49,
                forall|j: int| 0 <= j < i ==> change_hash@[j] == data@[17 + j],
            decreases 32 - i,
        {
            change_hash[i] = data[17 + i];
            i = i + 1;
        }
        assert(change_hash@ =~= data@.subrange(17, 49));
        DocumentChangeKey { doc_id: id, doc_type, change_hash }
    }

    /// `decode`, with an error for a buffer shorter than 49 bytes.
    pub fn decode_checked(data: &[u8]) -> (r: Result<DocumentChangeKey, DecodeError>)
        requires
            data@.len() >= 49 ==> data@[16] <= 1,
        ensures
            r is Err <==> data@.len() < 49,
            r matches Err(e) ==> e == DecodeError::Truncated,
            r matches Ok(k) ==> decoded_from(k, data@) && encode_spec(k) == data@.subrange(0, 49),
    {
        if data.len() < CHANGE_KEY_LEN {
            return Err(DecodeError::Truncated);
        }
        let k = Self::decode(data);
        proof { lemma_encode_of_decoded(k, data@); }
        Ok(k)
    }

    /// Orders two encoded keys bytewise.
    pub fn compare(left: &[u8], right: &[u8]) -> (r: Ordering)
        ensures
            r == Ordering::Less <==> bytes_lt(left@, right@),
            r == Ordering::Equal <==> left@ == right@,
            r == Ordering::Greater <==> bytes_lt(right@, left@),
    {
        let c = compare_bytes(left, right);
        if c < 0 {
            Ordering::Less
        } else if c == 0 {
            Ordering::Equal
        } else {
            Ordering::Greater
        }
    }

    pub fn compare_encoded(&self, left: &[u8], right: &[u8]) -> (r: Ordering)
        ensures
            r == Ordering::Less <==> bytes_lt(left@, right@),
            r == Ordering::Equal <==> left@ == right@,
            r == Ordering::Greater <==> bytes_lt(right@, left@),
    {
        Self::compare(left, right)
    }
}

proof fn lemma_encode_of_decoded(k: DocumentChangeKey, data: Seq<u8>)
    requires
        data.len() >= 49,
        decoded_from(k, data),
    ensures
        encode_spec(k) == data.subrange(0, 49),
{
    assert(encode_spec(k) =~= data.subrange(0, 49));
}

/// Decoding an encoded key gives the key back: the encoding is decodable,
/// and the only key it holds is the one that was encoded.
pub proof fn law_change_key_roundtrip(k: DocumentChangeKey, k2: DocumentChangeKey)
    ensures
        encode_spec(k).len() == CHANGE_KEY_LEN,
        decodable(encode_spec(k)),
        decoded_from(k, encode_spec(k)),
        decoded_from(k2, encode_spec(k)) ==> k2 == k,
{
    broadcast use vstd::array::axiom_array_ext_equal;
    let e = encode_spec(k);
    assert(e.subrange(0, 16) =~= k.doc_id@);
    assert(e.subrange(17, 49) =~= k.change_hash@);
    if decoded_from(k2, e) {
        assert(k2.doc_id =~= k.doc_id);
        assert(k2.change_hash =~= k.change_hash);
        assert(k2.doc_type == k.doc_type);
    }
}

/// The byte order of encoded keys is the order of the keys themselves:
/// document id first, then type, then change hash.
pub proof fn law_change_key_order(a: DocumentChangeKey, b: DocumentChangeKey)
    ensures
        bytes_lt(encode_spec(a), encode_spec(b)) <==> key_lt(a, b),
{
    let ta = seq![doc_type_tag(a.doc_type)];
    let tb = seq![doc_type_tag(b.doc_type)];
    assert(encode_spec(a) == a.doc_id@ + (ta + a.change_hash@));
    assert(encode_spec(b) == b.doc_id@ + (tb + b.change_hash@));
    lemma_lt_concat(a.doc_id@, ta + a.change_hash@, b.doc_id@, tb + b.change_hash@);
    lemma_lt_concat(ta, a.change_hash@, tb, b.change_hash@);
    assert(bytes_lt(ta, tb) <==> ta[0] < tb[0]) by {
        reveal_with_fuel(bytes_lt, 2);
        assert(ta.drop_first().len() == 0);
        assert(tb.drop_first().len() == 0);
    }
    if ta == tb {
        assert(a.doc_type == b.doc_type);
    }
}

/// Comparing two concatenations whose first parts have equal lengths.
pub proof fn lemma_lt_concat(a1: Seq<u8>, a2: Seq<u8>, b1: Seq<u8>, b2: Seq<u8>)
    requires
        a1.len() == b1.len(),
    ensures
        bytes_lt(a1 + a2, b1 + b2) <==> (bytes_lt(a1, b1) || (a1 == b1 && bytes_lt(a2, b2))),
    decreases a1.len(),
{
    if a1.len() == 0 {
        assert(a1 + a2 == a2);
        assert(b1 + b2 == b2);
        assert(a1 == b1);
    } else {
        assert((a1 + a2)[0] == a1[0]);
        assert((b1 + b2)[0] == b1[0]);
        assert((a1 + a2).drop_first() == a1.drop_first() + a2);
        assert((b1 + b2).drop_first() == b1.drop_first() + b2);
        lemma_lt_concat(a1.drop_first(), a2, b1.drop_first(), b2);
        if a1[0] == b1[0] && a1.drop_first() == b1.drop_first() {
            assert(a1 == seq![a1[0]] + a1.drop_first());
            assert(b1 == seq![b1[0]] + b1.drop_first());
        }
        if a1 == b1 {
            assert(a1.drop_first() == b1.drop_first());
        }
    }
}

/// Codec of stored change entries, which are kept as they are.
#[derive(Clone, Copy, Debug, Default)]
pub struct FacadeVecBytesCodec;

impl FacadeVecBytesCodec {
    pub fn encode(value: &Vec<u8>) -> (out: Vec<u8>)
        ensures
            out@ == value@,
    {
        value.clone()
    }

    pub fn decode(data: &[u8]) -> (out: Vec<u8>)
        ensures
            out@ == data@,
    {
        copy_bytes(data)
    }

    pub fn decode_checked(data: &[u8]) -> (r: Result<Vec<u8>, DecodeError>)
        ensures
            r matches Ok(v) && v@ == data@,
    {
        Ok(copy_bytes(data))
    }
}

/// An owned copy of a byte slice.
pub fn copy_bytes(data: &[u8]) -> (out: Vec<u8>)
    ensures
        out@ == data@,
{
    let mut out: Vec<u8> = Vec::with_capacity(data.len());
    let mut i: usize = 0;
    while i < data.len()
        invariant
            i <= data@.len(),
            out@ == data@.take(i as int),
        decreases data.len() - i,
    {
        out.push(data[i]);
        assert(data@.take(i + 1) == data@.take(i as int).push(data@[i as int]));
        i = i + 1;
    }
    assert(data@.take(data@.len() as int) == data@);
    out
}

} // verus!
