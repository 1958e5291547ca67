//! Named trees kept in memory: each name holds an independent ordered map
//! from byte keys to byte values, created on first use. A transaction on one
//! tree collects writes and deletions and applies them on commit; until then
//! its reads see the tree with its own changes laid over it.
use vstd::prelude::*;

use crate::bytes_order::bytes_lt;
use crate::change_key::copy_bytes;
use crate::key::{in_range, key_in_range, KeyRange};
use crate::sorted_map::{sorted_entries, SortedMap};

verus! {

/// The contents of one tree.
pub type TreeData = SortedMap<Vec<u8>, Vec<u8>>;

/// Pending changes of a transaction: a value written, or `None` for a key
/// removed.
pub type TreePatch = SortedMap<Vec<u8>, Option<Vec<u8>>>;

/// The contents of a tree as a map of byte strings.
pub open spec fn tree_model(t: TreeData) -> Map<Seq<u8>, Seq<u8>> {
    t@.map_values(|v: Vec<u8>| v@)
}

/// Pending changes as a map of byte strings.
pub open spec fn patch_model(p: TreePatch) -> Map<Seq<u8>, Option<Seq<u8>>> {
    p@.map_values(|v: Option<Vec<u8>>| match v {
        Some(x) => Some(x@),
        None => None,
    })
}

/// A tree with pending changes laid over it.
pub open spec fn apply_patch(base: Map<Seq<u8>, Seq<u8>>, patch: Map<Seq<u8>, Option<Seq<u8>>>) -> Map<Seq<u8>, Seq<u8>> {
    Map::new(
        |k: Seq<u8>| if patch.contains_key(k) { patch[k] is Some } else { base.contains_key(k) },
        |k: Seq<u8>| if patch.contains_key(k) { patch[k]->Some_0 } else { base[k] },
    )
}

/// The entries of a tree that fall inside a range, in key order.
pub open spec fn range_of(tree: Map<Seq<u8>, Seq<u8>>, range: KeyRange<Vec<u8>>, out: Seq<(Vec<u8>, Vec<u8>)>) -> bool {
    &&& forall|i: int, j: int| 0 <= i < j < out.len() ==> bytes_lt(#[trigger] out[i].0@, #[trigger] out[j].0@)
    &&& forall|i: int| 0 <= i < out.len() ==> tree.contains_key(#[trigger] out[i].0@)
        && tree[out[i].0@] == out[i].1@ && in_range(out[i].0@, range)
    &&& forall|k: Seq<u8>| tree.contains_key(k) && in_range(k, range) ==> exists|i: int|
        0 <= i < out.len() && #[trigger] out[i].0@ == k
}

/// The contents of the first entries of a sorted list, as a map of byte strings.
pub open spec fn prefix_model(s: Seq<(Vec<u8>, Vec<u8>)>, i: int) -> Map<Seq<u8>, Seq<u8>> {
    crate::sorted_map::entries_view(s.take(i)).map_values(|v: Vec<u8>| v@)
}

proof fn lemma_prefix_model_step(s: Seq<(Vec<u8>, Vec<u8>)>, i: int)
    requires
        sorted_entries(s),
        0 <= i < s.len(),
    ensures
        prefix_model(s, i + 1) == prefix_model(s, i).insert(s[i].0@, s[i].1@),
{
    let a = s.take(i);
    let b = s.take(i + 1);
    assert(b[i] == s[i]);
    assert(sorted_entries(a));
    assert(sorted_entries(b));
    crate::sorted_map::lemma_append_view(a, b);
    assert(prefix_model(s, i + 1) =~= prefix_model(s, i).insert(s[i].0@, s[i].1@));
}

/// A copy of a tree.
pub fn copy_tree(t: &TreeData) -> (r: TreeData)
    requires
        t.wf(),
    ensures
        r.wf(),
        tree_model(r) == tree_model(*t),
{
    let mut r: TreeData = SortedMap::new();
    let entries = t.entries();
    proof { t.lemma_entries(); }
    let ghost s = t.entry_seq();
    let mut i: usize = 0;
    proof {
        assert(tree_model(r) =~= prefix_model(s, 0));
    }
    while i < entries.len()
        invariant
            r.wf(),
            entries@ == s,
            sorted_entries(s),
            i <= s.len(),
            tree_model(r) == prefix_model(s, i as int),
        decreases s.len() - i,
    {
        let ghost before = r@;
        let k = copy_bytes(entries[i].0.as_slice());
        let v = copy_bytes(entries[i].1.as_slice());
        r.insert(k, v);
        proof {
            lemma_prefix_model_step(s, i as int);
            assert(tree_model(r) =~= prefix_model(s, i as int).insert(s[i as int].0@, s[i as int].1@));
        }
        i = i + 1;
    }
    proof {
        assert(s.take(s.len() as int) == s);
        assert(tree_model(r) =~= tree_model(*t));
    }
    r
}

/// The entries of a sorted list that fall inside a range, as byte strings,
/// in list order.
pub open spec fn range_filter(s: Seq<(Vec<u8>, Vec<u8>)>, range: KeyRange<Vec<u8>>) -> Seq<(Seq<u8>, Seq<u8>)>
    decreases s.len(),
{
    if s.len() == 0 {
        Seq::empty()
    } else if in_range(s.last().0@, range) {
        range_filter(s.drop_last(), range).push((s.last().0@, s.last().1@))
    } else {
        range_filter(s.drop_last(), range)
    }
}

/// A list of entries as byte strings.
pub open spec fn entry_views(out: Seq<(Vec<u8>, Vec<u8>)>) -> Seq<(Seq<u8>, Seq<u8>)> {
    out.map_values(|e: (Vec<u8>, Vec<u8>)| (e.0@, e.1@))
}

proof fn lemma_rf_sound(s: Seq<(Vec<u8>, Vec<u8>)>, range: KeyRange<Vec<u8>>)
    ensures
        forall|a: int| 0 <= a < range_filter(s, range).len() ==> exists|j: int|
            0 <= j < s.len() && #[trigger] s[j].0@ == (#[trigger] range_filter(s, range)[a]).0
                && s[j].1@ == range_filter(s, range)[a].1 && in_range(s[j].0@, range),
    decreases s.len(),
{
    if s.len() > 0 {
        let p = s.drop_last();
        lemma_rf_sound(p, range);
        let rp = range_filter(p, range);
        let r = range_filter(s, range);
        let n = s.len() - 1;
        assert(s.last() == s[n]);
        if in_range(s[n].0@, range) {
            assert(r == rp.push((s[n].0@, s[n].1@)));
        } else {
            assert(r == rp);
        }
        assert forall|a: int| 0 <= a < r.len() implies exists|j: int|
            0 <= j < s.len() && #[trigger] s[j].0@ == (#[trigger] r[a]).0 && s[j].1@ == r[a].1
                && in_range(s[j].0@, range) by {
            if a < rp.len() {
                assert(r[a] == rp[a]);
                let j = choose|j: int| 0 <= j < p.len() && #[trigger] p[j].0@ == (#[trigger] rp[a]).0
                    && p[j].1@ == rp[a].1 && in_range(p[j].0@, range);
                assert(s[j] == p[j]);
            } else {
                assert(s[n].0@ == r[a].0);
            }
        }
    }
}

proof fn lemma_rf_complete(s: Seq<(Vec<u8>, Vec<u8>)>, range: KeyRange<Vec<u8>>)
    ensures
        forall|j: int| 0 <= j < s.len() && in_range(#[trigger] s[j].0@, range) ==> exists|a: int|
            0 <= a < range_filter(s, range).len() && #[trigger] range_filter(s, range)[a].0 == s[j].0@,
    decreases s.len(),
{
    if s.len() > 0 {
        let p = s.drop_last();
        lemma_rf_complete(p, range);
        let rp = range_filter(p, range);
        let r = range_filter(s, range);
        let n = s.len() - 1;
        assert(s.last() == s[n]);
        if in_range(s[n].0@, range) {
            assert(r == rp.push((s[n].0@, s[n].1@)));
        } else {
            assert(r == rp);
        }
        assert forall|j: int| 0 <= j < s.len() && in_range(#[trigger] s[j].0@, range) implies exists|a: int|
            0 <= a < r.len() && #[trigger] r[a].0 == s[j].0@ by {
            if j == n {
                assert(r[r.len() - 1].0 == s[j].0@);
            } else {
                assert(p[j] == s[j]);
                let a = choose|a: int| 0 <= a < rp.len() && #[trigger] rp[a].0 == p[j].0@;
                assert(r[a] == rp[a]);
            }
        }
    }
}

proof fn lemma_rf_sorted(s: Seq<(Vec<u8>, Vec<u8>)>, range: KeyRange<Vec<u8>>)
    requires
        sorted_entries(s),
    ensures
        forall|a: int, b: int| 0 <= a < b < range_filter(s, range).len() ==> bytes_lt(
            #[trigger] range_filter(s, range)[a].0,
            #[trigger] range_filter(s, range)[b].0,
        ),
    decreases s.len(),
{
    if s.len() > 0 {
        let p = s.drop_last();
        assert(sorted_entries(p));
        lemma_rf_sorted(p, range);
        lemma_rf_sound(p, range);
        let rp = range_filter(p, range);
        let r = range_filter(s, range);
        let n = s.len() - 1;
        assert(s.last() == s[n]);
        if in_range(s[n].0@, range) {
            assert(r == rp.push((s[n].0@, s[n].1@)));
        } else {
            assert(r == rp);
        }
        assert forall|a: int, b: int| 0 <= a < b < r.len() implies bytes_lt(#[trigger] r[a].0, #[trigger] r[b].0) by {
            assert(r[a] == rp[a]);
            if b < rp.len() {
                assert(r[b] == rp[b]);
            } else {
                let j = choose|j: int| 0 <= j < p.len() && #[trigger] p[j].0@ == (#[trigger] rp[a]).0
                    && p[j].1@ == rp[a].1 && in_range(p[j].0@, range);
                assert(s[j] == p[j]);
                assert(bytes_lt(s[j].0@, s[n].0@));
            }
        }
    }
}

#[verifier::rlimit(50)]
proof fn lemma_range_result(
    t: TreeData,
    s: Seq<(Vec<u8>, Vec<u8>)>,
    range: KeyRange<Vec<u8>>,
    out: Seq<(Vec<u8>, Vec<u8>)>,
)
    requires
        t.wf(),
        s == t.entry_seq(),
        entry_views(out) == range_filter(s, range),
    ensures
        range_of(tree_model(t), range, out),
{
    t.lemma_entries();
    lemma_rf_sorted(s, range);
    lemma_rf_sound(s, range);
    lemma_rf_complete(s, range);
    let rf = range_filter(s, range);
    assert forall|a: int| 0 <= a < out.len() implies #[trigger] out[a].0@ == rf[a].0 && out[a].1@ == rf[a].1 by {
        assert(entry_views(out)[a] == (out[a].0@, out[a].1@));
    }
    assert forall|a: int| 0 <= a < out.len() implies tree_model(t).contains_key(#[trigger] out[a].0@)
        && tree_model(t)[out[a].0@] == out[a].1@ && in_range(out[a].0@, range) by {
        assert(out[a].0@ == rf[a].0);
        let j = choose|j: int| 0 <= j < s.len() && #[trigger] s[j].0@ == (#[trigger] rf[a]).0
            && s[j].1@ == rf[a].1 && in_range(s[j].0@, range);
    }
    assert forall|a: int, b: int| 0 <= a < b < out.len() implies bytes_lt(#[trigger] out[a].0@, #[trigger] out[b].0@) by {
        assert(out[a].0@ == rf[a].0);
        assert(out[b].0@ == rf[b].0);
    }
    assert forall|k: Seq<u8>| tree_model(t).contains_key(k) && in_range(k, range) implies exists|a: int|
        0 <= a < out.len() && #[trigger] out[a].0@ == k by {
        let j = choose|j: int| 0 <= j < s.len() && #[trigger] s[j].0@ == k;
        let a = choose|a: int| 0 <= a < rf.len() && #[trigger] rf[a].0 == s[j].0@;
        assert(out[a].0@ == rf[a].0);
    }
}

/// The entries of a tree inside a range, in key order.
pub fn tree_range(t: &TreeData, range: &KeyRange<Vec<u8>>) -> (r: Vec<(Vec<u8>, Vec<u8>)>)
    requires
        t.wf(),
    ensures
        range_of(tree_model(*t), *range, r@),
{
    let entries = t.entries();
    proof { t.lemma_entries(); }
    let ghost s = t.entry_seq();
    let mut out: Vec<(Vec<u8>, Vec<u8>)> = Vec::new();
    let mut i: usize = 0;
    proof {
        assert(s.take(0).len() == 0);
        assert(entry_views(out@) =~= range_filter(s.take(0), *range));
    }
    while i < entries.len()
        invariant
            entries@ == s,
            i <= s.len(),
            entry_views(out@) == range_filter(s.take(i as int), *range),
        decreases s.len() - i,
    {
        let ghost before = out@;
        proof {
            assert(s.take(i + 1).drop_last() =~= s.take(i as int));
            assert(s.take(i + 1).last() == s[i as int]);
        }
        if key_in_range(&entries[i].0, range) {
            let k = copy_bytes(entries[i].0.as_slice());
            let v = copy_bytes(entries[i].1.as_slice());
            out.push((k, v));
            proof {
                assert(entry_views(out@) =~= entry_views(before).push((s[i as int].0@, s[i as int].1@)));
            }
        }
        i = i + 1;
    }
    proof {
        assert(s.take(s.len() as int) == s);
        lemma_range_result(*t, s, *range, out@);
    }
    out
}

/// Lays the pending changes of `patch` over `tree`.
pub fn apply_patch_to(tree: &mut TreeData, patch: &TreePatch)
    requires
        old(tree).wf(),
        patch.wf(),
    ensures
        final(tree).wf(),
        tree_model(*final(tree)) == apply_patch(tree_model(*old(tree)), patch_model(*patch)),
{
    let entries = patch.entries();
    proof { patch.lemma_entries(); }
    let ghost s = patch.entry_seq();
    let ghost base = tree_model(*tree);
    let mut i: usize = 0;
    proof {
        assert(apply_patch(base, patch_model_of(s.take(0))) =~= base);
    }
    while i < entries.len()
        invariant
            tree.wf(),
            patch.wf(),
            entries@ == s,
            s == patch.entry_seq(),
            sorted_entries(s),
            i <= s.len(),
            tree_model(*tree) == apply_patch(base, patch_model_of(s.take(i as int))),
        decreases s.len() - i,
    {
        let ghost before = tree_model(*tree);
        let k = copy_bytes(entries[i].0.as_slice());
        proof {
            lemma_patch_prefix(s, i as int);
        }
        match &entries[i].1 {
            Some(v) => {
                let v2 = copy_bytes(v.as_slice());
                tree.insert(k, v2);
                proof {
                    assert(s[i as int].1 == Some(*v));
                    assert(tree_model(*tree) =~= before.insert(s[i as int].0@, v@));
                    assert(apply_patch(base, patch_model_of(s.take(i as int)).insert(s[i as int].0@, Some(v@)))
                        =~= before.insert(s[i as int].0@, v@));
                }
            },
            None => {
                tree.remove(&k);
                proof {
                    assert(s[i as int].1 == None::<Vec<u8>>);
                    assert(tree_model(*tree) =~= before.remove(s[i as int].0@));
                    assert(apply_patch(base, patch_model_of(s.take(i as int)).insert(s[i as int].0@, None))
                        =~= before.remove(s[i as int].0@));
                }
            },
        }
        i = i + 1;
    }
    proof {
        assert(s.take(s.len() as int) == s);
        lemma_patch_model_of(*patch);
    }
}

/// Pending changes, given as sorted entries, as a map of byte strings.
pub open spec fn patch_model_of(s: Seq<(Vec<u8>, Option<Vec<u8>>)>) -> Map<Seq<u8>, Option<Seq<u8>>> {
    crate::sorted_map::entries_view(s).map_values(|v: Option<Vec<u8>>| match v {
        Some(x) => Some(x@),
        None => None,
    })
}

proof fn lemma_patch_prefix(s: Seq<(Vec<u8>, Option<Vec<u8>>)>, i: int)
    requires
        sorted_entries(s),
        0 <= i < s.len(),
    ensures
        patch_model_of(s.take(i + 1)) == patch_model_of(s.take(i)).insert(
            s[i].0@,
            match s[i].1 {
                Some(x) => Some(x@),
                None => None,
            },
        ),
{
    let a = s.take(i);
    let b = s.take(i + 1);
    assert(b[i] == s[i]);
    assert(sorted_entries(a));
    assert(sorted_entries(b));
    crate::sorted_map::lemma_append_view(a, b);
    assert(patch_model_of(b) =~= patch_model_of(a).insert(
        s[i].0@,
        match s[i].1 {
            Some(x) => Some(x@),
            None => None,
        },
    ));
}

proof fn lemma_patch_model_of(p: TreePatch)
    requires
        p.wf(),
    ensures
        patch_model_of(p.entry_seq()) == patch_model(p),
{
    p.lemma_entries();
    assert(patch_model_of(p.entry_seq()) =~= patch_model(p));
}

} // verus!
verus! {

/// The contents of the tree called `name`, empty where there is none.
pub open spec fn tree_or_empty(m: Map<Seq<char>, Map<Seq<u8>, Seq<u8>>>, name: Seq<char>) -> Map<Seq<u8>, Seq<u8>> {
    if m.contains_key(name) {
        m[name]
    } else {
        Map::empty()
    }
}

/// The trees after `value` is put under `key` in the tree called `name`.
pub open spec fn write_model(
    m: Map<Seq<char>, Map<Seq<u8>, Seq<u8>>>,
    name: Seq<char>,
    key: Seq<u8>,
    value: Seq<u8>,
) -> Map<Seq<char>, Map<Seq<u8>, Seq<u8>>> {
    m.insert(name, tree_or_empty(m, name).insert(key, value))
}

/// Trees, each under its own name, created on first use.
pub struct InMemoryNamedBTree {
    trees: SortedMap<String, TreeData>,
}

/// A handle on the tree called `name`.
#[derive(Clone, Debug)]
pub struct InMemoryNamedTree {
    pub name: String,
}

/// A transaction on the tree called `name`: the changes made so far.
pub struct InMemoryNamedTreeTransaction {
    name: String,
    patch: TreePatch,
}

impl InMemoryNamedBTree {
    /// Every tree is well formed.
    pub closed spec fn wf(&self) -> bool {
        &&& self.trees.wf()
        &&& forall|n: Seq<char>| #[trigger] self.trees@.contains_key(n) ==> self.trees@[n].wf()
    }

    /// The trees by name.
    pub closed spec fn model(&self) -> Map<Seq<char>, Map<Seq<u8>, Seq<u8>>> {
        self.trees@.map_values(|t: TreeData| tree_model(t))
    }

    /// No trees.
    pub fn new() -> (r: InMemoryNamedBTree)
        ensures
            r.wf(),
            r.model() == Map::<Seq<char>, Map<Seq<u8>, Seq<u8>>>::empty(),
    {
        let r = InMemoryNamedBTree { trees: SortedMap::new() };
        assert(r.model() =~= Map::<Seq<char>, Map<Seq<u8>, Seq<u8>>>::empty());
        r
    }

    /// Takes the tree called `name` out, or an empty one where there is none.
    fn take_tree(&mut self, name: &String) -> (r: TreeData)
        requires
            old(self).wf(),
        ensures
            final(self).wf(),
            r.wf(),
            tree_model(r) == tree_or_empty(old(self).model(), name@),
            final(self).model() == old(self).model().remove(name@),
    {
        let taken = self.trees.remove(name);
        proof {
            assert(self.model() =~= old(self).model().remove(name@));
        }
        match taken {
            Some(t) => t,
            None => {
                let t: TreeData = SortedMap::new();
                proof {
                    assert(tree_model(t) =~= Map::<Seq<u8>, Seq<u8>>::empty());
                }
                t
            },
        }
    }

    /// Puts a tree under `name`.
    fn put_tree(&mut self, name: String, tree: TreeData)
        requires
            old(self).wf(),
            tree.wf(),
        ensures
            final(self).wf(),
            final(self).model() == old(self).model().insert(name@, tree_model(tree)),
    {
        let ghost n = name@;
        let ghost t = tree;
        self.trees.insert(name, tree);
        proof {
            assert(self.model() =~= old(self).model().insert(n, tree_model(t)));
        }
    }

    /// The tree called `name`, created empty where there is none yet.
    pub fn get_tree(&mut self, name: &str) -> (r: InMemoryNamedTree)
        requires
            old(self).wf(),
        ensures
            final(self).wf(),
            r.name@ == name@,
            final(self).model() == old(self).model().insert(name@, tree_or_empty(old(self).model(), name@)),
    {
        let owned = String::from_str(name);
        let tree = self.take_tree(&owned);
        self.put_tree(owned.clone(), tree);
        InMemoryNamedTree { name: owned }
    }

    /// A copy of the contents of a tree, empty where there is none.
    pub fn tree_contents(&self, tree: &InMemoryNamedTree) -> (r: TreeData)
        requires
            self.wf(),
        ensures
            r.wf(),
            tree_model(r) == tree_or_empty(self.model(), tree.name@),
    {
        match self.trees.get(&tree.name) {
            Some(t) => copy_tree(t),
            None => {
                let t: TreeData = SortedMap::new();
                proof {
                    assert(tree_model(t) =~= Map::<Seq<u8>, Seq<u8>>::empty());
                }
                t
            },
        }
    }

    /// Makes `data` the contents of the tree called `name`.
    pub fn insert_tree(&mut self, name: &str, data: TreeData)
        requires
            old(self).wf(),
            data.wf(),
        ensures
            final(self).wf(),
            final(self).model() == old(self).model().insert(name@, tree_model(data)),
    {
        self.put_tree(String::from_str(name), data);
    }

    /// Drops the tree called `name`.
    pub fn delete_tree(&mut self, name: &str)
        requires
            old(self).wf(),
        ensures
            final(self).wf(),
            final(self).model() == old(self).model().remove(name@),
    {
        let owned = String::from_str(name);
        let _ = self.take_tree(&owned);
    }

    /// The names of the trees in code-point order.
    pub fn list_names(&self) -> (r: Vec<String>)
        requires
            self.wf(),
        ensures
            forall|i: int, j: int| 0 <= i < j < r@.len() ==> crate::text::chars_lt(#[trigger] r@[i]@, #[trigger] r@[j]@),
            forall|i: int| 0 <= i < r@.len() ==> self.model().contains_key(#[trigger] r@[i]@),
            forall|n: Seq<char>| self.model().contains_key(n) ==> exists|i: int| 0 <= i < r@.len() && #[trigger] r@[i]@ == n,
    {
        let entries = self.trees.entries();
        proof { self.trees.lemma_entries(); }
        let ghost s = self.trees.entry_seq();
        let mut out: Vec<String> = Vec::new();
        let mut i: usize = 0;
        while i < entries.len()
            invariant
                entries@ == s,
                sorted_entries(s),
                i <= s.len(),
                out@.len() == i,
                forall|j: int| 0 <= j < i ==> (#[trigger] out@[j])@ == s[j].0@,
            decreases s.len() - i,
        {
            out.push(entries[i].0.clone());
            i = i + 1;
        }
        proof {
            assert forall|a: int, b: int| 0 <= a < b < out@.len() implies crate::text::chars_lt(
                #[trigger] out@[a]@,
                #[trigger] out@[b]@,
            ) by {
                assert(out@[a]@ == s[a].0@);
                assert(out@[b]@ == s[b].0@);
            }
            assert forall|a: int| 0 <= a < out@.len() implies self.model().contains_key(#[trigger] out@[a]@) by {
                assert(out@[a]@ == s[a].0@);
            }
            assert forall|n: Seq<char>| self.model().contains_key(n) implies exists|a: int|
                0 <= a < out@.len() && #[trigger] out@[a]@ == n by {
                let j = choose|j: int| 0 <= j < s.len() && #[trigger] s[j].0@ == n;
                assert(out@[j]@ == s[j].0@);
            }
        }
        out
    }
}

impl InMemoryNamedTree {
    /// The value under `key`, where the tree exists.
    pub fn get(&self, store: &InMemoryNamedBTree, key: &Vec<u8>) -> (r: Option<Vec<u8>>)
        requires
            store.wf(),
        ensures
            match r {
                Some(v) => tree_or_empty(store.model(), self.name@).contains_key(key@)
                    && v@ == tree_or_empty(store.model(), self.name@)[key@],
                None => !tree_or_empty(store.model(), self.name@).contains_key(key@),
            },
    {
        match store.trees.get(&self.name) {
            Some(t) => match t.get(key) {
                Some(v) => Some(copy_bytes(v.as_slice())),
                None => None,
            },
            None => None,
        }
    }

    /// The entries of the tree inside `range`, in key order.
    pub fn range(&self, store: &InMemoryNamedBTree, range: &KeyRange<Vec<u8>>) -> (r: Vec<(Vec<u8>, Vec<u8>)>)
        requires
            store.wf(),
        ensures
            range_of(tree_or_empty(store.model(), self.name@), *range, r@),
    {
        let contents = store.tree_contents(self);
        tree_range(&contents, range)
    }

    /// Puts `value` under `key`, creating the tree where there is none.
    pub fn insert(&self, store: &mut InMemoryNamedBTree, key: Vec<u8>, value: Vec<u8>)
        requires
            old(store).wf(),
        ensures
            final(store).wf(),
            final(store).model() == write_model(old(store).model(), self.name@, key@, value@),
    {
        let mut tree = store.take_tree(&self.name);
        let ghost k = key@;
        let ghost v = value@;
        let ghost before = tree_model(tree);
        tree.insert(key, value);
        proof {
            assert(tree_model(tree) =~= before.insert(k, v));
        }
        store.put_tree(self.name.clone(), tree);
        proof {
            assert(store.model() =~= write_model(old(store).model(), self.name@, k, v));
        }
    }

    /// Takes the entry of `key` out of the tree, where the tree exists,
    /// giving back its value.
    pub fn remove(&self, store: &mut InMemoryNamedBTree, key: &Vec<u8>) -> (r: Option<Vec<u8>>)
        requires
            old(store).wf(),
        ensures
            final(store).wf(),
            old(store).model().contains_key(self.name@) ==> final(store).model() == old(store).model().insert(
                self.name@,
                old(store).model()[self.name@].remove(key@),
            ),
            !old(store).model().contains_key(self.name@) ==> final(store).model() == old(store).model(),
            match r {
                Some(v) => tree_or_empty(old(store).model(), self.name@).contains_key(key@)
                    && v@ == tree_or_empty(old(store).model(), self.name@)[key@],
                None => !tree_or_empty(old(store).model(), self.name@).contains_key(key@),
            },
    {
        if store.trees.get(&self.name).is_none() {
            return None;
        }
        let mut tree = store.take_tree(&self.name);
        let ghost before = tree_model(tree);
        let removed = tree.remove(key);
        proof {
            assert(tree_model(tree) =~= before.remove(key@));
        }
        store.put_tree(self.name.clone(), tree);
        proof {
            assert(store.model() =~= old(store).model().insert(self.name@, old(store).model()[self.name@].remove(key@)));
        }
        removed
    }

    /// A transaction on this tree with no changes yet.
    pub fn transaction(&self) -> (r: InMemoryNamedTreeTransaction)
        ensures
            r.tree_name() == self.name@,
            r.wf(),
            r.changes() == Map::<Seq<u8>, Option<Seq<u8>>>::empty(),
    {
        let patch: TreePatch = SortedMap::new();
        let r = InMemoryNamedTreeTransaction { name: self.name.clone(), patch };
        assert(r.changes() =~= Map::<Seq<u8>, Option<Seq<u8>>>::empty());
        r
    }
}

impl InMemoryNamedTreeTransaction {
    pub closed spec fn wf(&self) -> bool {
        self.patch.wf()
    }

    /// The name of the tree the transaction is on.
    pub closed spec fn tree_name(&self) -> Seq<char> {
        self.name@
    }

    /// The name of the tree the transaction is on.
    pub fn name(&self) -> (r: &str)
        ensures
            r@ == self.tree_name(),
    {
        self.name.as_str()
    }

    /// The changes made so far: a value written, or `None` for a key removed.
    pub closed spec fn changes(&self) -> Map<Seq<u8>, Option<Seq<u8>>> {
        patch_model(self.patch)
    }

    /// What the transaction reads of the tree in `store`.
    pub open spec fn seen(&self, store: InMemoryNamedBTree) -> Map<Seq<u8>, Seq<u8>> {
        apply_patch(tree_or_empty(store.model(), self.tree_name()), self.changes())
    }

    /// The value under `key` as this transaction sees it, where the tree
    /// exists.
    pub fn get(&self, store: &InMemoryNamedBTree, key: &Vec<u8>) -> (r: Option<Vec<u8>>)
        requires
            self.wf(),
            store.wf(),
        ensures
            !store.model().contains_key(self.tree_name()) ==> r is None,
            store.model().contains_key(self.tree_name()) ==> match r {
                Some(v) => self.seen(*store).contains_key(key@) && v@ == self.seen(*store)[key@],
                None => !self.seen(*store).contains_key(key@),
            },
    {
        match store.trees.get(&self.name) {
            Some(t) => match self.patch.get(key) {
                Some(Some(v)) => Some(copy_bytes(v.as_slice())),
                Some(None) => None,
                None => match t.get(key) {
                    Some(v) => Some(copy_bytes(v.as_slice())),
                    None => None,
                },
            },
            None => None,
        }
    }

    /// Writes `value` under `key`.
    pub fn insert(&mut self, key: Vec<u8>, value: Vec<u8>)
        requires
            old(self).wf(),
        ensures
            final(self).wf(),
            final(self).tree_name() == old(self).tree_name(),
            final(self).changes() == old(self).changes().insert(key@, Some(value@)),
    {
        let ghost k = key@;
        let ghost v = value@;
        self.patch.insert(key, Some(value));
        proof {
            assert(self.changes() =~= old(self).changes().insert(k, Some(v)));
        }
    }

    /// Removes `key`, giving back the value the transaction saw under it.
    pub fn remove(&mut self, store: &InMemoryNamedBTree, key: &Vec<u8>) -> (r: Option<Vec<u8>>)
        requires
            old(self).wf(),
            store.wf(),
        ensures
            final(self).wf(),
            final(self).tree_name() == old(self).tree_name(),
            final(self).changes() == old(self).changes().insert(key@, None),
            match r {
                Some(v) => old(self).seen(*store).contains_key(key@) && v@ == old(self).seen(*store)[key@],
                None => !old(self).seen(*store).contains_key(key@),
            },
    {
        let previous = match self.patch.get(key) {
            Some(Some(v)) => Some(copy_bytes(v.as_slice())),
            Some(None) => None,
            None => match store.trees.get(&self.name) {
                Some(t) => match t.get(key) {
                    Some(v) => Some(copy_bytes(v.as_slice())),
                    None => None,
                },
                None => None,
            },
        };
        let k = copy_bytes(key.as_slice());
        self.patch.insert(k, None);
        proof {
            assert(self.changes() =~= old(self).changes().insert(key@, None));
        }
        previous
    }

    /// The entries inside `range` as the transaction sees the tree, in key
    /// order.
    pub fn range(&self, store: &InMemoryNamedBTree, range: &KeyRange<Vec<u8>>) -> (r: Vec<(Vec<u8>, Vec<u8>)>)
        requires
            self.wf(),
            store.wf(),
        ensures
            range_of(self.seen(*store), *range, r@),
    {
        let handle = InMemoryNamedTree { name: self.name.clone() };
        let mut contents = store.tree_contents(&handle);
        apply_patch_to(&mut contents, &self.patch);
        tree_range(&contents, range)
    }

    /// Applies the changes to the tree in `store`, creating it where there is
    /// none.
    pub fn commit(self, store: &mut InMemoryNamedBTree)
        requires
            self.wf(),
            old(store).wf(),
        ensures
            final(store).wf(),
            final(store).model() == old(store).model().insert(self.tree_name(), self.seen(*old(store))),
    {
        let ghost seen = self.seen(*store);
        let mut tree = store.take_tree(&self.name);
        apply_patch_to(&mut tree, &self.patch);
        store.put_tree(self.name, tree);
    }

    /// Drops the changes.
    pub fn rollback(self) {
    }
}

} // verus!
verus! {

/// A read gives back what the last write put there: after `value` is written
/// under `key` in the tree called `name`, that tree holds `value` under `key`,
/// its other keys keep their values, and every other tree stays as it was.
pub proof fn law_read_your_write(
    m: Map<Seq<char>, Map<Seq<u8>, Seq<u8>>>,
    name: Seq<char>,
    key: Seq<u8>,
    value: Seq<u8>,
    other_name: Seq<char>,
    other_key: Seq<u8>,
)
    ensures
        tree_or_empty(write_model(m, name, key, value), name).contains_key(key),
        tree_or_empty(write_model(m, name, key, value), name)[key] == value,
        other_key != key ==> (tree_or_empty(write_model(m, name, key, value), name).contains_key(other_key)
            <==> tree_or_empty(m, name).contains_key(other_key)),
        other_key != key ==> tree_or_empty(write_model(m, name, key, value), name)[other_key]
            == tree_or_empty(m, name)[other_key],
        other_name != name ==> tree_or_empty(write_model(m, name, key, value), other_name)
            == tree_or_empty(m, other_name),
{
}

/// A transaction reads its own changes: what it wrote under a key is what it
/// sees there, a key it removed is gone, and with no changes it sees the tree
/// as it is.
pub proof fn law_transaction_reads_its_changes(
    base: Map<Seq<u8>, Seq<u8>>,
    changes: Map<Seq<u8>, Option<Seq<u8>>>,
    key: Seq<u8>,
    value: Seq<u8>,
)
    ensures
        apply_patch(base, changes.insert(key, Some(value))).contains_key(key),
        apply_patch(base, changes.insert(key, Some(value)))[key] == value,
        !apply_patch(base, changes.insert(key, None)).contains_key(key),
        apply_patch(base, Map::empty()) == base,
{
    assert(apply_patch(base, Map::empty()) =~= base);
}

/// Committing a transaction makes the tree what the transaction saw; the
/// other trees stay as they were.
pub proof fn law_commit_publishes_what_was_seen(
    m: Map<Seq<char>, Map<Seq<u8>, Seq<u8>>>,
    name: Seq<char>,
    seen: Map<Seq<u8>, Seq<u8>>,
    other_name: Seq<char>,
)
    ensures
        tree_or_empty(m.insert(name, seen), name) == seen,
        other_name != name ==> tree_or_empty(m.insert(name, seen), other_name) == tree_or_empty(m, other_name),
{
}

} // verus!
