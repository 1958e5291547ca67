//! Lexicographic order on byte strings and the range test on encoded keys.
use vstd::prelude::*;

verus! {

/// `a` sorts strictly before `b` in lexicographic byte order (a proper
/// prefix sorts first).
pub open spec fn bytes_lt(a: Seq<u8>, b: Seq<u8>) -> bool
    decreases a.len(),
{
    if a.len() == 0 {
        b.len() > 0
    } else if b.len() == 0 {
        false
    } else if a[0] != b[0] {
        a[0] < b[0]
    } else {
        bytes_lt(a.drop_first(), b.drop_first())
    }
}

pub open spec fn bytes_le(a: Seq<u8>, b: Seq<u8>) -> bool {
    bytes_lt(a, b) || a == b
}

/// Three-way comparison of two byte strings: -1, 0 or 1.
pub fn compare_bytes(a: &[u8], b: &[u8]) -> (r: i8)
    ensures
        -1 <= r <= 1,
        r == -1 <==> bytes_lt(a@, b@),
        r == 0 <==> a@ == b@,
        r == 1 <==> bytes_lt(b@, a@),
{
    let mut i: usize = 0;
    while i < a.len() && i < b.len()
        invariant
            i <= a.len(),
            i <= b.len(),
            a@.take(i as int) == b@.take(i as int),
        decreases a.len() - i,
    {
        if a[i] != b[i] {
            proof { lemma_lt_at(a@, b@, i as int); lemma_lt_at(b@, a@, i as int); }
            if a[i] < b[i] { return -1; } else { return 1; }
        }
        assert(a@.take(i + 1) == a@.take(i as int).push(a@[i as int]));
        assert(b@.take(i + 1) == b@.take(i as int).push(b@[i as int]));
        i = i + 1;
    }
    proof { lemma_lt_prefix(a@, b@, i as int); lemma_lt_prefix(b@, a@, i as int); }
    if a.len() < b.len() {
        -1
    } else if a.len() > b.len() {
        1
    } else {
        assert(a@ == a@.take(i as int));
        assert(b@ == b@.take(i as int));
        0
    }
}

proof fn lemma_lt_at(a: Seq<u8>, b: Seq<u8>, i: int)
    requires
        0 <= i < a.len(),
        i < b.len(),
        a.take(i) == b.take(i),
        a[i] != b[i],
    ensures
        bytes_lt(a, b) <==> a[i] < b[i],
        a != b,
    decreases i,
{
    if i > 0 {
        assert(a.drop_first().take(i - 1) == a.take(i).drop_first());
        assert(b.drop_first().take(i - 1) == b.take(i).drop_first());
        assert(a[0] == a.take(i)[0]);
        assert(b[0] == b.take(i)[0]);
        lemma_lt_at(a.drop_first(), b.drop_first(), i - 1);
    }
    assert(a[i] != b[i]);
}

proof fn lemma_lt_prefix(a: Seq<u8>, b: Seq<u8>, i: int)
    requires
        0 <= i,
        i == a.len() || i == b.len(),
        i <= a.len(),
        i <= b.len(),
        a.take(i) == b.take(i),
    ensures
        bytes_lt(a, b) <==> a.len() < b.len(),
    decreases i,
{
    if i > 0 {
        assert(a.drop_first().take(i - 1) == a.take(i).drop_first());
        assert(b.drop_first().take(i - 1) == b.take(i).drop_first());
        assert(a[0] == a.take(i)[0]);
        assert(b[0] == b.take(i)[0]);
        lemma_lt_prefix(a.drop_first(), b.drop_first(), i - 1);
    }
}


/// Lexicographic byte order is a strict total order: no string sorts before
/// itself, two strings never sort before each other, the order is
/// transitive, and of two different strings one sorts first.
pub proof fn law_bytes_order_is_strict_total(a: Seq<u8>, b: Seq<u8>, c: Seq<u8>)
    ensures
        !bytes_lt(a, a),
        bytes_lt(a, b) ==> !bytes_lt(b, a),
        bytes_lt(a, b) && bytes_lt(b, c) ==> bytes_lt(a, c),
        a != b ==> bytes_lt(a, b) || bytes_lt(b, a),
    decreases a.len(),
{
    if a.len() > 0 && b.len() > 0 && c.len() > 0 {
        law_bytes_order_is_strict_total(a.drop_first(), b.drop_first(), c.drop_first());
    }
    if a.len() > 0 {
        law_bytes_order_is_strict_total(a.drop_first(), a.drop_first(), a.drop_first());
    }
    if a.len() == 0 && b.len() == 0 {
        assert(a =~= b);
    }
    if a.len() > 0 && b.len() > 0 {
        law_bytes_order_is_strict_total(a.drop_first(), b.drop_first(), b.drop_first());
        if a[0] == b[0] && a.drop_first() == b.drop_first() {
            assert forall|i: int| 0 <= i < a.len() implies a[i] == b[i] by {
                if i > 0 {
                    assert(a[i] == a.drop_first()[i - 1]);
                    assert(b[i] == b.drop_first()[i - 1]);
                }
            }
            assert(a =~= b);
        }
    }
}

} // verus!
