//! An ordered map kept as a list of entries sorted by key, each key once: the
//! storage of the in-memory trees. Byte-string keys order bytewise, string
//! keys by code point.
use vstd::prelude::*;

use crate::bytes_order::{bytes_lt, compare_bytes};
use crate::text::{chars_lt, compare_str};

verus! {

/// A key type with a strict total order on its view.
pub trait OrderedKey: View + Sized {
    spec fn key_lt(a: Self::V, b: Self::V) -> bool;

    /// -1, 0 or 1 as `self` sorts before, with or after `other`.
    fn compare_key(&self, other: &Self) -> (r: i8)
        ensures
            r == -1 <==> Self::key_lt(self@, other@),
            r == 0 <==> self@ == other@,
            r == 1 <==> Self::key_lt(other@, self@),
            -1 <= r <= 1;

    proof fn key_order_laws(a: Self::V, b: Self::V, c: Self::V)
        ensures
            !Self::key_lt(a, a),
            Self::key_lt(a, b) && Self::key_lt(b, c) ==> Self::key_lt(a, c),
            a != b ==> Self::key_lt(a, b) || Self::key_lt(b, a);
}

impl OrderedKey for Vec<u8> {
    open spec fn key_lt(a: Seq<u8>, b: Seq<u8>) -> bool {
        bytes_lt(a, b)
    }

    fn compare_key(&self, other: &Vec<u8>) -> (r: i8) {
        compare_bytes(self.as_slice(), other.as_slice())
    }

    proof fn key_order_laws(a: Seq<u8>, b: Seq<u8>, c: Seq<u8>) {
        crate::bytes_order::law_bytes_order_is_strict_total(a, b, c);
    }
}

impl OrderedKey for String {
    open spec fn key_lt(a: Seq<char>, b: Seq<char>) -> bool {
        chars_lt(a, b)
    }

    fn compare_key(&self, other: &String) -> (r: i8) {
        compare_str(self.as_str(), other.as_str())
    }

    proof fn key_order_laws(a: Seq<char>, b: Seq<char>, c: Seq<char>) {
        crate::text::law_chars_order_is_strict_total(a, b, c);
    }
}

/// Entries sorted strictly by key.
pub open spec fn sorted_entries<K: OrderedKey, V>(s: Seq<(K, V)>) -> bool {
    forall|i: int, j: int| 0 <= i < j < s.len() ==> K::key_lt(#[trigger] s[i].0@, #[trigger] s[j].0@)
}

/// The map that a list of entries with distinct keys stands for.
pub open spec fn entries_view<K: OrderedKey, V>(s: Seq<(K, V)>) -> Map<K::V, V> {
    Map::new(
        |k: K::V| exists|i: int| 0 <= i < s.len() && #[trigger] s[i].0@ == k,
        |k: K::V| s[choose|i: int| 0 <= i < s.len() && #[trigger] s[i].0@ == k].1,
    )
}

proof fn lemma_sorted_keys_differ<K: OrderedKey, V>(s: Seq<(K, V)>, i: int, j: int)
    requires
        sorted_entries(s),
        0 <= i < s.len(),
        0 <= j < s.len(),
        i != j,
    ensures
        s[i].0@ != s[j].0@,
{
    K::key_order_laws(s[i].0@, s[j].0@, s[i].0@);
    K::key_order_laws(s[j].0@, s[i].0@, s[j].0@);
}

proof fn lemma_view_at<K: OrderedKey, V>(s: Seq<(K, V)>, i: int)
    requires
        sorted_entries(s),
        0 <= i < s.len(),
    ensures
        entries_view(s).contains_key(s[i].0@),
        entries_view(s)[s[i].0@] == s[i].1,
{
    let k = s[i].0@;
    assert(exists|j: int| 0 <= j < s.len() && #[trigger] s[j].0@ == k);
    let j = choose|j: int| 0 <= j < s.len() && #[trigger] s[j].0@ == k;
    if j != i {
        lemma_sorted_keys_differ(s, i, j);
    }
}

/// A map kept as sorted entries.
pub struct SortedMap<K, V> {
    entries: Vec<(K, V)>,
}

impl<K: OrderedKey, V> View for SortedMap<K, V> {
    type V = Map<K::V, V>;

    closed spec fn view(&self) -> Map<K::V, V> {
        entries_view(self.entries@)
    }
}

impl<K: OrderedKey, V> SortedMap<K, V> {
    /// The entries are sorted, each key once.
    pub closed spec fn wf(&self) -> bool {
        sorted_entries(self.entries@)
    }

    /// The entries in key order.
    pub closed spec fn entry_seq(&self) -> Seq<(K, V)> {
        self.entries@
    }

    /// The entries in key order stand for the map.
    pub proof fn lemma_entries(&self)
        requires
            self.wf(),
        ensures
            sorted_entries(self.entry_seq()),
            self@ == entries_view(self.entry_seq()),
            forall|i: int| 0 <= i < self.entry_seq().len() ==> self@.contains_key(
                #[trigger] self.entry_seq()[i].0@,
            ) && self@[self.entry_seq()[i].0@] == self.entry_seq()[i].1,
            forall|k: K::V| self@.contains_key(k) ==> exists|i: int|
                0 <= i < self.entry_seq().len() && #[trigger] self.entry_seq()[i].0@ == k,
    {
        assert forall|i: int| 0 <= i < self.entry_seq().len() implies self@.contains_key(
            #[trigger] self.entry_seq()[i].0@,
        ) && self@[self.entry_seq()[i].0@] == self.entry_seq()[i].1 by {
            lemma_view_at(self.entries@, i);
        }
        assert forall|k: K::V| self@.contains_key(k) implies exists|i: int|
            0 <= i < self.entry_seq().len() && #[trigger] self.entry_seq()[i].0@ == k by {
            let i = choose|i: int| 0 <= i < self.entries@.len() && #[trigger] self.entries@[i].0@ == k;
            assert(self.entry_seq()[i].0@ == k);
        }
    }

    /// An empty map.
    pub fn new() -> (r: SortedMap<K, V>)
        ensures
            r.wf(),
            r@ == Map::<K::V, V>::empty(),
    {
        let r = SortedMap { entries: Vec::new() };
        assert(r@ =~= Map::<K::V, V>::empty());
        r
    }

    /// The entries in key order.
    pub fn entries(&self) -> (r: &Vec<(K, V)>)
        ensures
            r@ == self.entry_seq(),
    {
        &self.entries
    }

    /// Number of entries.
    pub fn len(&self) -> (r: usize)
        requires
            self.wf(),
        ensures
            r == self@.dom().len(),
            r == self.entry_seq().len(),
    {
        proof { self.lemma_len(); }
        self.entries.len()
    }

    proof fn lemma_len(&self)
        requires
            self.wf(),
        ensures
            self@.dom().len() == self.entries@.len(),
        decreases self.entries@.len(),
    {
        let s = self.entries@;
        let dom = self@.dom();
        let keys = Seq::new(s.len(), |i: int| s[i].0@);
        assert(dom =~= keys.to_set()) by {
            assert forall|k: K::V| dom.contains(k) implies keys.to_set().contains(k) by {
                let i = choose|i: int| 0 <= i < s.len() && #[trigger] s[i].0@ == k;
                assert(keys[i] == k);
            }
            assert forall|k: K::V| keys.to_set().contains(k) implies dom.contains(k) by {
                let i = choose|i: int| 0 <= i < keys.len() && keys[i] == k;
                assert(s[i].0@ == k);
            }
        }
        assert(keys.no_duplicates()) by {
            assert forall|i: int, j: int| 0 <= i < keys.len() && 0 <= j < keys.len() && i != j
                implies keys[i] != keys[j] by {
                lemma_sorted_keys_differ(s, i, j);
            }
        }
        keys.unique_seq_to_set();
    }

    /// Where `key` sits: the first position whose key does not sort before
    /// it, and whether that key is `key`.
    fn locate(&self, key: &K) -> (r: (usize, bool))
        requires
            self.wf(),
        ensures
            r.0 <= self.entries@.len(),
            forall|i: int| 0 <= i < r.0 ==> K::key_lt(#[trigger] self.entries@[i].0@, key@),
            r.0 < self.entries@.len() ==> !K::key_lt(self.entries@[r.0 as int].0@, key@),
            r.1 <==> (r.0 < self.entries@.len() && self.entries@[r.0 as int].0@ == key@),
            r.1 <==> self@.contains_key(key@),
    {
        let mut i: usize = 0;
        while i < self.entries.len()
            invariant
                self.wf(),
                i <= self.entries@.len(),
                forall|j: int| 0 <= j < i ==> K::key_lt(#[trigger] self.entries@[j].0@, key@),
            decreases self.entries.len() - i,
        {
            let c = self.entries[i].0.compare_key(key);
            if c != -1 {
                let found = c == 0;
                proof {
                    if !found {
                        assert forall|j: int| 0 <= j < self.entries@.len() implies #[trigger] self.entries@[j].0@ != key@ by {
                            if j > i {
                                K::key_order_laws(key@, self.entries@[i as int].0@, self.entries@[j].0@);
                                K::key_order_laws(key@, self.entries@[j].0@, key@);
                            } else if j < i {
                                K::key_order_laws(key@, key@, key@);
                            }
                        }
                    } else {
                        lemma_view_at(self.entries@, i as int);
                    }
                }
                return (i, found);
            }
            i = i + 1;
        }
        proof {
            assert forall|j: int| 0 <= j < self.entries@.len() implies #[trigger] self.entries@[j].0@ != key@ by {
                K::key_order_laws(key@, key@, key@);
            }
        }
        (i, false)
    }

    /// The value under `key`.
    pub fn get(&self, key: &K) -> (r: Option<&V>)
        requires
            self.wf(),
        ensures
            match r {
                Some(v) => self@.contains_key(key@) && *v == self@[key@],
                None => !self@.contains_key(key@),
            },
    {
        let (pos, found) = self.locate(key);
        if found {
            proof { lemma_view_at(self.entries@, pos as int); }
            Some(&self.entries[pos].1)
        } else {
            None
        }
    }

    /// Puts `value` under `key`, giving back the value it replaces.
    pub fn insert(&mut self, key: K, value: V) -> (r: Option<V>)
        requires
            old(self).wf(),
        ensures
            final(self).wf(),
            final(self)@ == old(self)@.insert(key@, value),
            match r {
                Some(v) => old(self)@.contains_key(key@) && v == old(self)@[key@],
                None => !old(self)@.contains_key(key@),
            },
    {
        let (pos, found) = self.locate(&key);
        let ghost old_entries = self.entries@;
        let ghost k = key@;
        if found {
            proof { lemma_view_at(old_entries, pos as int); }
            let (_, previous) = self.entries.remove(pos);
            self.entries.insert(pos, (key, value));
            proof {
                let s = self.entries@;
                assert(s =~= old_entries.update(pos as int, s[pos as int]));
                assert(sorted_entries(s)) by {
                    assert forall|i: int, j: int| 0 <= i < j < s.len() implies K::key_lt(
                        #[trigger] s[i].0@,
                        #[trigger] s[j].0@,
                    ) by {
                        assert(i == pos ==> s[i].0@ == old_entries[i].0@);
                        assert(j == pos ==> s[j].0@ == old_entries[j].0@);
                        assert(i != pos ==> s[i] == old_entries[i]);
                        assert(j != pos ==> s[j] == old_entries[j]);
                    }
                }
                lemma_replaced_view(old_entries, s, pos as int);
            }
            Some(previous)
        } else {
            self.entries.insert(pos, (key, value));
            proof {
                let s = self.entries@;
                assert(sorted_entries(s)) by {
                    assert forall|i: int, j: int| 0 <= i < j < s.len() implies K::key_lt(
                        #[trigger] s[i].0@,
                        #[trigger] s[j].0@,
                    ) by {
                        if pos < old_entries.len() {
                            K::key_order_laws(old_entries[pos as int].0@, k, old_entries[pos as int].0@);
                        }
                        if i < pos && j == pos {
                        } else if i < pos && j > pos {
                            assert(s[j] == old_entries[j - 1]);
                            if j - 1 > pos {
                                K::key_order_laws(k, old_entries[pos as int].0@, old_entries[j - 1].0@);
                            }
                            K::key_order_laws(s[i].0@, k, s[j].0@);
                        } else if i == pos {
                            assert(s[j] == old_entries[j - 1]);
                            if j - 1 > pos {
                                K::key_order_laws(k, old_entries[pos as int].0@, old_entries[j - 1].0@);
                            }
                        } else if i < pos {
                        } else {
                            assert(s[i] == old_entries[i - 1]);
                            assert(s[j] == old_entries[j - 1]);
                        }
                    }
                }
                lemma_inserted_view(old_entries, s, pos as int);
            }
            None
        }
    }

    /// Takes the entry of `key` out, giving back its value.
    pub fn remove(&mut self, key: &K) -> (r: Option<V>)
        requires
            old(self).wf(),
        ensures
            final(self).wf(),
            final(self)@ == old(self)@.remove(key@),
            match r {
                Some(v) => old(self)@.contains_key(key@) && v == old(self)@[key@],
                None => !old(self)@.contains_key(key@),
            },
    {
        let (pos, found) = self.locate(key);
        if found {
            let ghost old_entries = self.entries@;
            proof { lemma_view_at(old_entries, pos as int); }
            let (_, previous) = self.entries.remove(pos);
            proof {
                let s = self.entries@;
                assert(sorted_entries(s)) by {
                    assert forall|i: int, j: int| 0 <= i < j < s.len() implies K::key_lt(
                        #[trigger] s[i].0@,
                        #[trigger] s[j].0@,
                    ) by {
                        let a = if i < pos { i } else { i + 1 };
                        let b = if j < pos { j } else { j + 1 };
                        assert(s[i] == old_entries[a]);
                        assert(s[j] == old_entries[b]);
                    }
                }
                lemma_removed_view(old_entries, s, pos as int);
            }
            Some(previous)
        } else {
            proof {
                assert(self@.remove(key@) =~= self@);
            }
            None
        }
    }
}

/// Appending an entry whose key sorts after every other adds that entry to
/// the map.
pub proof fn lemma_append_view<K: OrderedKey, V>(a: Seq<(K, V)>, b: Seq<(K, V)>)
    requires
        sorted_entries(a),
        sorted_entries(b),
        b.len() == a.len() + 1,
        forall|i: int| 0 <= i < a.len() ==> b[i] == a[i],
    ensures
        entries_view(b) == entries_view(a).insert(b[a.len() as int].0@, b[a.len() as int].1),
{
    lemma_inserted_view(a, b, a.len() as int);
}

proof fn lemma_replaced_view<K: OrderedKey, V>(old_s: Seq<(K, V)>, s: Seq<(K, V)>, p: int)
    requires
        sorted_entries(old_s),
        sorted_entries(s),
        0 <= p < old_s.len(),
        s.len() == old_s.len(),
        s[p].0@ == old_s[p].0@,
        forall|i: int| 0 <= i < s.len() && i != p ==> s[i] == old_s[i],
    ensures
        entries_view(s) == entries_view(old_s).insert(s[p].0@, s[p].1),
{
    let k = s[p].0@;
    let m = entries_view(old_s).insert(k, s[p].1);
    lemma_view_at(s, p);
    assert forall|kk: K::V| entries_view(s).contains_key(kk) <==> m.contains_key(kk) by {
        if entries_view(s).contains_key(kk) {
            let i = choose|i: int| 0 <= i < s.len() && #[trigger] s[i].0@ == kk;
            if i != p {
                assert(old_s[i].0@ == kk);
            }
        }
        if m.contains_key(kk) && kk != k {
            let i = choose|i: int| 0 <= i < old_s.len() && #[trigger] old_s[i].0@ == kk;
            assert(s[i].0@ == kk);
        }
    }
    assert forall|kk: K::V| #[trigger] entries_view(s).contains_key(kk) implies entries_view(s)[kk] == m[kk] by {
        if kk != k {
            let i = choose|i: int| 0 <= i < s.len() && #[trigger] s[i].0@ == kk;
            lemma_view_at(s, i);
            lemma_view_at(old_s, i);
        }
    }
    assert(entries_view(s) =~= m);
}

proof fn lemma_inserted_view<K: OrderedKey, V>(old_s: Seq<(K, V)>, s: Seq<(K, V)>, p: int)
    requires
        sorted_entries(old_s),
        sorted_entries(s),
        0 <= p <= old_s.len(),
        s.len() == old_s.len() + 1,
        forall|i: int| 0 <= i < p ==> s[i] == old_s[i],
        forall|i: int| p < i < s.len() ==> s[i] == old_s[i - 1],
    ensures
        entries_view(s) == entries_view(old_s).insert(s[p].0@, s[p].1),
{
    let k = s[p].0@;
    let m = entries_view(old_s).insert(k, s[p].1);
    lemma_view_at(s, p);
    assert forall|kk: K::V| entries_view(s).contains_key(kk) <==> m.contains_key(kk) by {
        if entries_view(s).contains_key(kk) {
            let i = choose|i: int| 0 <= i < s.len() && #[trigger] s[i].0@ == kk;
            if i < p {
                assert(old_s[i].0@ == kk);
            } else if i > p {
                assert(old_s[i - 1].0@ == kk);
            }
        }
        if m.contains_key(kk) && kk != k {
            let i = choose|i: int| 0 <= i < old_s.len() && #[trigger] old_s[i].0@ == kk;
            if i < p {
                assert(s[i].0@ == kk);
            } else {
                assert(s[i + 1].0@ == kk);
            }
        }
    }
    assert forall|kk: K::V| #[trigger] entries_view(s).contains_key(kk) implies entries_view(s)[kk] == m[kk] by {
        if kk != k {
            let i = choose|i: int| 0 <= i < s.len() && #[trigger] s[i].0@ == kk;
            lemma_view_at(s, i);
            if i < p {
                lemma_view_at(old_s, i);
            } else {
                lemma_view_at(old_s, i - 1);
            }
        }
    }
    assert(entries_view(s) =~= m);
}

proof fn lemma_removed_view<K: OrderedKey, V>(old_s: Seq<(K, V)>, s: Seq<(K, V)>, p: int)
    requires
        sorted_entries(old_s),
        sorted_entries(s),
        0 <= p < old_s.len(),
        s == old_s.remove(p),
    ensures
        entries_view(s) == entries_view(old_s).remove(old_s[p].0@),
{
    let k = old_s[p].0@;
    let m = entries_view(old_s).remove(k);
    lemma_view_at(old_s, p);
    assert forall|kk: K::V| entries_view(s).contains_key(kk) <==> m.contains_key(kk) by {
        if entries_view(s).contains_key(kk) {
            let i = choose|i: int| 0 <= i < s.len() && #[trigger] s[i].0@ == kk;
            let a = if i < p { i } else { i + 1 };
            assert(old_s[a].0@ == kk);
            lemma_sorted_keys_differ(old_s, a, p);
        }
        if m.contains_key(kk) {
            let i = choose|i: int| 0 <= i < old_s.len() && #[trigger] old_s[i].0@ == kk;
            if i < p {
                assert(s[i].0@ == kk);
            } else {
                assert(i != p);
                assert(s[i - 1].0@ == kk);
            }
        }
    }
    assert forall|kk: K::V| #[trigger] entries_view(s).contains_key(kk) implies entries_view(s)[kk] == m[kk] by {
        let i = choose|i: int| 0 <= i < s.len() && #[trigger] s[i].0@ == kk;
        lemma_view_at(s, i);
        if i < p {
            assert(s[i] == old_s[i]);
            lemma_sorted_keys_differ(old_s, i, p);
            lemma_view_at(old_s, i);
        } else {
            assert(s[i] == old_s[i + 1]);
            lemma_sorted_keys_differ(old_s, i + 1, p);
            lemma_view_at(old_s, i + 1);
        }
    }
    assert(entries_view(s) =~= m);
}

} // verus!
