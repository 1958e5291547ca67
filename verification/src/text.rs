//! Small verified string helpers: comparison, concatenation, joining and
//! decimal formatting.
use vstd::prelude::*;

verus! {

/// `a` followed by `b`.
pub fn concat(a: &str, b: &str) -> (r: String)
    ensures
        r@ == a@ + b@,
{
    let mut r = String::from_str(a);
    r.append(b);
    r
}

/// Character-wise equality of two strings.
pub fn str_eq(a: &str, b: &str) -> (r: bool)
    ensures
        r == (a@ == b@),
{
    let n = a.unicode_len();
    if n != b.unicode_len() {
        return false;
    }
    let mut i: usize = 0;
    while i < n
        invariant
            n == a@.len(),
            n == b@.len(),
            i <= n,
            a@.take(i as int) == b@.take(i as int),
        decreases n - i,
    {
        if a.get_char(i) != b.get_char(i) {
            assert(a@[i as int] != b@[i as int]);
            return false;
        }
        assert(a@.take(i + 1) == a@.take(i as int).push(a@[i as int]));
        assert(b@.take(i + 1) == b@.take(i as int).push(b@[i as int]));
        i = i + 1;
    }
    assert(a@ == a@.take(n as int));
    assert(b@ == b@.take(n as int));
    true
}

/// Whether `c` occurs in `s`.
pub fn contains_char(s: &str, c: char) -> (r: bool)
    ensures
        r == s@.contains(c),
{
    let n = s.unicode_len();
    let mut i: usize = 0;
    while i < n
        invariant
            n == s@.len(),
            i <= n,
            forall|j: int| 0 <= j < i ==> s@[j] != c,
        decreases n - i,
    {
        if s.get_char(i) == c {
            assert(s@[i as int] == c);
            return true;
        }
        i = i + 1;
    }
    false
}

/// The character of a decimal digit.
pub open spec fn digit_char(d: nat) -> char {
    if d == 0 { '0' } else if d == 1 { '1' } else if d == 2 { '2' } else if d == 3 { '3' }
    else if d == 4 { '4' } else if d == 5 { '5' } else if d == 6 { '6' } else if d == 7 { '7' }
    else if d == 8 { '8' } else { '9' }
}

/// Decimal representation of a natural number, without leading zeros.
pub open spec fn decimal(n: nat) -> Seq<char>
    decreases n,
{
    if n < 10 {
        seq![digit_char(n)]
    } else {
        decimal(n / 10).push(digit_char(n % 10))
    }
}

fn digit_str(d: u64) -> (r: &'static str)
    requires
        d < 10,
    ensures
        r@ == seq![digit_char(d as nat)],
{
    if d == 0 { proof { reveal_strlit("0"); } "0" }
    else if d == 1 { proof { reveal_strlit("1"); } "1" }
    else if d == 2 { proof { reveal_strlit("2"); } "2" }
    else if d == 3 { proof { reveal_strlit("3"); } "3" }
    else if d == 4 { proof { reveal_strlit("4"); } "4" }
    else if d == 5 { proof { reveal_strlit("5"); } "5" }
    else if d == 6 { proof { reveal_strlit("6"); } "6" }
    else if d == 7 { proof { reveal_strlit("7"); } "7" }
    else if d == 8 { proof { reveal_strlit("8"); } "8" }
    else { proof { reveal_strlit("9"); } "9" }
}

/// The decimal text of `n`.
pub fn decimal_string(n: u64) -> (r: String)
    ensures
        r@ == decimal(n as nat),
    decreases n,
{
    if n < 10 {
        String::from_str(digit_str(n))
    } else {
        let mut r = decimal_string(n / 10);
        r.append(digit_str(n % 10));
        r
    }
}

/// The strings of `parts` with `sep` between each two.
pub open spec fn join_spec(parts: Seq<Seq<char>>, sep: Seq<char>) -> Seq<char>
    decreases parts.len(),
{
    if parts.len() == 0 {
        Seq::empty()
    } else if parts.len() == 1 {
        parts[0]
    } else {
        join_spec(parts.drop_last(), sep) + sep + parts.last()
    }
}

pub open spec fn string_views(v: Seq<String>) -> Seq<Seq<char>> {
    v.map_values(|s: String| s@)
}

/// Joins `parts` with `sep` between each two.
pub fn join(parts: &Vec<String>, sep: &str) -> (r: String)
    ensures
        r@ == join_spec(string_views(parts@), sep@),
{
    let mut r = String::new();
    let mut i: usize = 0;
    while i < parts.len()
        invariant
            i <= parts@.len(),
            r@ == join_spec(string_views(parts@.take(i as int)), sep@),
        decreases parts.len() - i,
    {
        let ghost prev = string_views(parts@.take(i as int));
        let ghost next = string_views(parts@.take(i + 1));
        assert(next.drop_last() =~= prev);
        assert(next.last() == parts@[i as int]@);
        if i != 0 {
            r.append(sep);
        } else {
            assert(prev.len() == 0);
        }
        r.append(parts[i].as_str());
        i = i + 1;
    }
    assert(parts@.take(parts@.len() as int) == parts@);
    r
}


/// `a` sorts strictly before `b` in lexicographic order of code points (a
/// proper prefix first). On strings this is the order of `String`'s `Ord`,
/// since UTF-8 keeps the order of code points.
pub open spec fn chars_lt(a: Seq<char>, b: Seq<char>) -> bool
    decreases a.len(),
{
    if a.len() == 0 {
        b.len() > 0
    } else if b.len() == 0 {
        false
    } else if a[0] != b[0] {
        (a[0] as int) < (b[0] as int)
    } else {
        chars_lt(a.drop_first(), b.drop_first())
    }
}

proof fn lemma_chars_lt_at(a: Seq<char>, b: Seq<char>, i: int)
    requires
        0 <= i < a.len(),
        i < b.len(),
        a.take(i) == b.take(i),
        a[i] != b[i],
    ensures
        chars_lt(a, b) <==> (a[i] as int) < (b[i] as int),
        a != b,
    decreases i,
{
    if i > 0 {
        assert(a.drop_first().take(i - 1) == a.take(i).drop_first());
        assert(b.drop_first().take(i - 1) == b.take(i).drop_first());
        assert(a[0] == a.take(i)[0]);
        assert(b[0] == b.take(i)[0]);
        lemma_chars_lt_at(a.drop_first(), b.drop_first(), i - 1);
    }
    assert(a[i] != b[i]);
}

proof fn lemma_chars_lt_prefix(a: Seq<char>, b: Seq<char>, i: int)
    requires
        0 <= i,
        i == a.len() || i == b.len(),
        i <= a.len(),
        i <= b.len(),
        a.take(i) == b.take(i),
    ensures
        chars_lt(a, b) <==> a.len() < b.len(),
    decreases i,
{
    if i > 0 {
        assert(a.drop_first().take(i - 1) == a.take(i).drop_first());
        assert(b.drop_first().take(i - 1) == b.take(i).drop_first());
        assert(a[0] == a.take(i)[0]);
        assert(b[0] == b.take(i)[0]);
        lemma_chars_lt_prefix(a.drop_first(), b.drop_first(), i - 1);
    }
}

/// Three-way comparison of two strings in code-point order: -1, 0 or 1.
pub fn compare_str(a: &str, b: &str) -> (r: i8)
    ensures
        -1 <= r <= 1,
        r == -1 <==> chars_lt(a@, b@),
        r == 0 <==> a@ == b@,
        r == 1 <==> chars_lt(b@, a@),
{
    let n = a.unicode_len();
    let m = b.unicode_len();
    let mut i: usize = 0;
    while i < n && i < m
        invariant
            n == a@.len(),
            m == b@.len(),
            i <= n,
            i <= m,
            a@.take(i as int) == b@.take(i as int),
        decreases n - i,
    {
        let x = a.get_char(i);
        let y = b.get_char(i);
        if x != y {
            proof {
                lemma_chars_lt_at(a@, b@, i as int);
                lemma_chars_lt_at(b@, a@, i as int);
            }
            if x < y {
                return -1;
            } else {
                return 1;
            }
        }
        assert(a@.take(i + 1) == a@.take(i as int).push(a@[i as int]));
        assert(b@.take(i + 1) == b@.take(i as int).push(b@[i as int]));
        i = i + 1;
    }
    proof {
        lemma_chars_lt_prefix(a@, b@, i as int);
        lemma_chars_lt_prefix(b@, a@, i as int);
    }
    if n < m {
        -1
    } else if n > m {
        1
    } else {
        assert(a@ == a@.take(i as int));
        assert(b@ == b@.take(i as int));
        0
    }
}


/// Code-point order is a strict total order on strings: irreflexive,
/// asymmetric, transitive, and of two different strings one sorts first.
pub proof fn law_chars_order_is_strict_total(a: Seq<char>, b: Seq<char>, c: Seq<char>)
    ensures
        !chars_lt(a, a),
        chars_lt(a, b) ==> !chars_lt(b, a),
        chars_lt(a, b) && chars_lt(b, c) ==> chars_lt(a, c),
        a != b ==> chars_lt(a, b) || chars_lt(b, a),
    decreases a.len(),
{
    if a.len() > 0 && b.len() > 0 && c.len() > 0 {
        law_chars_order_is_strict_total(a.drop_first(), b.drop_first(), c.drop_first());
    }
    if a.len() > 0 {
        law_chars_order_is_strict_total(a.drop_first(), a.drop_first(), a.drop_first());
    }
    if a.len() == 0 && b.len() == 0 {
        assert(a =~= b);
    }
    if a.len() > 0 && b.len() > 0 {
        law_chars_order_is_strict_total(a.drop_first(), b.drop_first(), b.drop_first());
        if a[0] != b[0] {
            assert((a[0] as int) != (b[0] as int));
        }
        if a[0] == b[0] && a.drop_first() == b.drop_first() {
            assert forall|i: int| 0 <= i < a.len() implies a[i] == b[i] by {
                if i > 0 {
                    assert(a[i] == a.drop_first()[i - 1]);
                    assert(b[i] == b.drop_first()[i - 1]);
                }
            }
            assert(a =~= b);
        }
    }
}

} // verus!
