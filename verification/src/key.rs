//! Keys of the ordered stores, range bounds over them, and the test of an
//! encoded key against a byte range.
use vstd::prelude::*;

use crate::bytes_order::{bytes_le, bytes_lt, compare_bytes};

verus! {

/// One end of a range: included, excluded, or open.
#[derive(Clone, Debug, PartialEq, Eq)]
pub enum KeyBound<T> {
    Included(T),
    Excluded(T),
    Unbounded,
}

/// A range given by its two ends.
#[derive(Clone, Debug, PartialEq, Eq)]
pub struct KeyRange<T> {
    pub start: KeyBound<T>,
    pub end: KeyBound<T>,
}

/// A key of a typed store; keys are ordered by their encoding.
#[derive(Clone, Debug)]
pub struct Key<K>(pub K);

impl<K> Key<K> {
    pub fn new(key: K) -> (r: Self)
        ensures
            r.0 == key,
    {
        Key(key)
    }

    pub fn into_inner(self) -> (r: K)
        ensures
            r == self.0,
    {
        self.0
    }

    /// Wraps both ends of a range of plain keys into a range of `Key`s.
    pub fn range(range: KeyRange<K>) -> (r: KeyRange<Key<K>>)
        ensures
            r.start == map_bound(range.start),
            r.end == map_bound(range.end),
    {
        let start = match range.start {
            KeyBound::Included(k) => KeyBound::Included(Key(k)),
            KeyBound::Excluded(k) => KeyBound::Excluded(Key(k)),
            KeyBound::Unbounded => KeyBound::Unbounded,
        };
        let end = match range.end {
            KeyBound::Included(k) => KeyBound::Included(Key(k)),
            KeyBound::Excluded(k) => KeyBound::Excluded(Key(k)),
            KeyBound::Unbounded => KeyBound::Unbounded,
        };
        KeyRange { start, end }
    }
}

/// The same bound with its key wrapped in `Key`.
pub open spec fn map_bound<K>(b: KeyBound<K>) -> KeyBound<Key<K>> {
    match b {
        KeyBound::Included(k) => KeyBound::Included(Key(k)),
        KeyBound::Excluded(k) => KeyBound::Excluded(Key(k)),
        KeyBound::Unbounded => KeyBound::Unbounded,
    }
}

/// `key` is not below the lower bound `b`.
pub open spec fn above_start(key: Seq<u8>, b: KeyBound<Vec<u8>>) -> bool {
    match b {
        KeyBound::Included(s) => bytes_le(s@, key),
        KeyBound::Excluded(s) => bytes_lt(s@, key),
        KeyBound::Unbounded => true,
    }
}

/// `key` is not above the upper bound `b`.
pub open spec fn below_end(key: Seq<u8>, b: KeyBound<Vec<u8>>) -> bool {
    match b {
        KeyBound::Included(e) => bytes_le(key, e@),
        KeyBound::Excluded(e) => bytes_lt(key, e@),
        KeyBound::Unbounded => true,
    }
}

/// `key` lies within `range` under the byte order of encoded keys.
pub open spec fn in_range(key: Seq<u8>, range: KeyRange<Vec<u8>>) -> bool {
    above_start(key, range.start) && below_end(key, range.end)
}

pub fn start_bound_matches(key: &Vec<u8>, bound: &KeyBound<Vec<u8>>) -> (r: bool)
    ensures
        r == above_start(key@, *bound),
{
    match bound {
        KeyBound::Included(start) => compare_bytes(key.as_slice(), start.as_slice()) >= 0,
        KeyBound::Excluded(start) => compare_bytes(key.as_slice(), start.as_slice()) > 0,
        KeyBound::Unbounded => true,
    }
}

pub fn end_bound_matches(key: &Vec<u8>, bound: &KeyBound<Vec<u8>>) -> (r: bool)
    ensures
        r == below_end(key@, *bound),
{
    match bound {
        KeyBound::Included(end) => compare_bytes(key.as_slice(), end.as_slice()) <= 0,
        KeyBound::Excluded(end) => compare_bytes(key.as_slice(), end.as_slice()) < 0,
        KeyBound::Unbounded => true,
    }
}

/// Whether an encoded key falls inside a byte range.
pub fn key_in_range(key: &Vec<u8>, range: &KeyRange<Vec<u8>>) -> (r: bool)
    ensures
        r == in_range(key@, *range),
{
    start_bound_matches(key, &range.start) && end_bound_matches(key, &range.end)
}

/// Borrows the two ends of a range of owned byte strings as slices.
pub fn range_as_ref<'a>(range: &'a KeyRange<Vec<u8>>) -> (r: KeyRange<&'a [u8]>)
    ensures
        match (range.start, r.start) {
            (KeyBound::Included(a), KeyBound::Included(b)) => a@ == b@,
            (KeyBound::Excluded(a), KeyBound::Excluded(b)) => a@ == b@,
            (KeyBound::Unbounded, KeyBound::Unbounded) => true,
            _ => false,
        },
        match (range.end, r.end) {
            (KeyBound::Included(a), KeyBound::Included(b)) => a@ == b@,
            (KeyBound::Excluded(a), KeyBound::Excluded(b)) => a@ == b@,
            (KeyBound::Unbounded, KeyBound::Unbounded) => true,
            _ => false,
        },
{
    let start = match &range.start {
        KeyBound::Included(q) => KeyBound::Included(q.as_slice()),
        KeyBound::Excluded(q) => KeyBound::Excluded(q.as_slice()),
        KeyBound::Unbounded => KeyBound::Unbounded,
    };
    let end = match &range.end {
        KeyBound::Included(q) => KeyBound::Included(q.as_slice()),
        KeyBound::Excluded(q) => KeyBound::Excluded(q.as_slice()),
        KeyBound::Unbounded => KeyBound::Unbounded,
    };
    KeyRange { start, end }
}


/// A range closed at both ends on the same key holds that key and no other;
/// a range open at both ends holds every key.
pub proof fn law_point_and_full_ranges(key: Seq<u8>, point: Vec<u8>)
    ensures
        in_range(key, KeyRange { start: KeyBound::Included(point), end: KeyBound::Included(point) })
            <==> key == point@,
        in_range(key, KeyRange { start: KeyBound::Unbounded, end: KeyBound::Unbounded }),
{
    crate::bytes_order::law_bytes_order_is_strict_total(key, point@, key);
}

/// The bounds of a range follow the byte order of keys: a key passes an
/// exclusive end exactly when it sorts strictly before it and an inclusive
/// end when it sorts before or at it, and the same for the start the other
/// way round. A key sorting after an end lies outside, whether the end is
/// inclusive or exclusive; the end itself lies outside an exclusive end and
/// inside an inclusive one; and what passes an end still passes it after
/// moving to any key that sorts lower.
pub proof fn law_bounds_follow_byte_order(key: Seq<u8>, lower: Seq<u8>, b: Vec<u8>)
    ensures
        below_end(key, KeyBound::Excluded(b)) <==> bytes_lt(key, b@),
        below_end(key, KeyBound::Included(b)) <==> (bytes_lt(key, b@) || key == b@),
        above_start(key, KeyBound::Excluded(b)) <==> bytes_lt(b@, key),
        above_start(key, KeyBound::Included(b)) <==> (bytes_lt(b@, key) || key == b@),
        bytes_lt(b@, key) ==> !below_end(key, KeyBound::Excluded(b)) && !below_end(key, KeyBound::Included(b)),
        bytes_lt(key, b@) ==> !above_start(key, KeyBound::Excluded(b)) && !above_start(key, KeyBound::Included(b)),
        !below_end(b@, KeyBound::Excluded(b)) && below_end(b@, KeyBound::Included(b)),
        !above_start(b@, KeyBound::Excluded(b)) && above_start(b@, KeyBound::Included(b)),
        below_end(key, KeyBound::Excluded(b)) && bytes_lt(lower, key) ==> below_end(lower, KeyBound::Excluded(b)),
        below_end(key, KeyBound::Unbounded::<Vec<u8>>) && above_start(key, KeyBound::Unbounded::<Vec<u8>>),
{
    crate::bytes_order::law_bytes_order_is_strict_total(key, b@, key);
    crate::bytes_order::law_bytes_order_is_strict_total(b@, key, b@);
    crate::bytes_order::law_bytes_order_is_strict_total(b@, b@, b@);
    crate::bytes_order::law_bytes_order_is_strict_total(lower, key, b@);
}

} // verus!
