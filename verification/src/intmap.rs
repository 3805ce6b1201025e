//! An integer-keyed map of CBOR values (the `* int => any` extension entries of CoRIM and
//! COSE maps), held in a `BTreeMap` and read back in ascending key order.
use std::collections::BTreeMap;
use vstd::prelude::*;
use vstd::std_specs::iter::IteratorSpec;
use vstd::std_specs::cmp::OrdSpec;
use crate::cbor::{Value, VModel, clone_value};

verus! {

broadcast use {vstd::std_specs::btree::group_btree_axioms, vstd::laws_cmp::group_laws_cmp, vstd::set::group_set_axioms};

/// Integer-keyed CBOR values.
#[derive(Debug, Clone, PartialEq)]
pub struct IntMap {
    map: BTreeMap<i64, Value>,
}

/// The models of keyed entries.
pub open spec fn keyed_model(s: Seq<(i64, Value)>) -> Seq<(i64, VModel)> {
    s.map_values(|e: (i64, Value)| (e.0, e.1@))
}

/// Keys strictly ascending.
pub open spec fn ascending(s: Seq<(i64, VModel)>) -> bool {
    forall|i: int, j: int| 0 <= i < j < s.len() ==> s[i].0 < s[j].0
}

/// The mathematical map of keyed entries.
pub open spec fn as_map(s: Seq<(i64, VModel)>) -> Map<i64, VModel>
    decreases s.len(),
{
    if s.len() == 0 {
        Map::empty()
    } else {
        as_map(s.drop_last()).insert(s.last().0, s.last().1)
    }
}

/// The models of a map's values.
pub open spec fn model_map(m: Map<i64, Value>) -> Map<i64, VModel> {
    m.map_values(|v: Value| v@)
}

/// The keys of a run of keys, ascending.
proof fn lemma_keys_ascending(keys: Seq<i64>)
    requires
        vstd::std_specs::btree::increasing_seq(keys),
    ensures
        forall|i: int, j: int| 0 <= i < j < keys.len() ==> keys[i] < keys[j],
{
    assert forall|i: int, j: int| 0 <= i < j < keys.len() implies keys[i] < keys[j] by {
        vstd::std_specs::btree::axiom_increasing_seq_meaning::<i64>(keys);
        assert(keys[i].cmp_spec(&keys[j]) is Less);
    }
}

impl IntMap {
    /// The entries, in ascending key order.
    pub closed spec fn entries_spec(&self) -> Seq<(i64, VModel)> {
        sorted_entries(model_map(self.map@))
    }

    /// Keys strictly ascending.
    pub open spec fn wf(&self) -> bool {
        ascending(self.entries_spec())
    }

    proof fn lemma_entries(&self)
        ensures
            ascending(self.entries_spec()),
            as_map(self.entries_spec()) == model_map(self.map@),
    {
        assert(model_map(self.map@).dom() =~= self.map@.dom());
        lemma_sorted_entries(model_map(self.map@));
    }

    /// An empty map.
    pub fn new() -> (m: Self)
        ensures
            m.wf(),
            m.entries_spec().len() == 0,
    {
        let m = IntMap { map: BTreeMap::new() };
        proof {
            m.lemma_entries();
            lemma_as_map_len(m.entries_spec());
            assert(model_map(m.map@).dom() =~= Set::empty());
        }
        m
    }

    /// Number of entries.
    pub fn len(&self) -> (n: usize)
        ensures
            n == self.entries_spec().len(),
    {
        proof {
            self.lemma_entries();
            lemma_as_map_len(self.entries_spec());
            assert(model_map(self.map@).dom() =~= self.map@.dom());
            assert(vstd::laws_cmp::obeys_cmp::<i64>());
        }
        self.map.len()
    }

    /// The entries in ascending key order.
    pub fn entries(&self) -> (r: Vec<(i64, Value)>)
        ensures
            keyed_model(r@) == self.entries_spec(),
    {
        let mut out: Vec<(i64, Value)> = Vec::new();
        proof {
            assert(vstd::laws_cmp::obeys_cmp::<i64>());
        }
        let iter0 = self.map.iter();
        let ghost keys = iter0.remaining().map_values(|kv: (&i64, &Value)| *kv.0);
        proof {
            lemma_keys_ascending(keys);
        }
        for kv in it: iter0
            invariant
                forall|i: int, j: int| 0 <= i < j < keys.len() ==> keys[i] < keys[j],
                keys == it.seq().map_values(|kv: (&i64, &Value)| *kv.0),
                out@.len() == it.index(),
                forall|i: int| 0 <= i < out@.len() ==> (#[trigger] out@[i]).0 == *it.seq()[i].0 && out@[i].1@ == (*it.seq()[i].1)@,
        {
            let (k, v) = kv;
            out.push((*k, clone_value(v)));
        }
        proof {
            let r = keyed_model(out@);
            let m = model_map(self.map@);
            assert(ascending(r)) by {
                assert forall|i: int, j: int| 0 <= i < j < r.len() implies r[i].0 < r[j].0 by {
                    assert(out@[i].0 == keys[i]);
                    assert(out@[j].0 == keys[j]);
                }
            }
            lemma_as_map_dom(r);
            lemma_as_map_len(r);
            assert(m.dom() =~= self.map@.dom());
            assert forall|i: int| 0 <= i < r.len() implies m.dom().contains(#[trigger] r[i].0) && m[r[i].0] == r[i].1 by {
                assert(self.map@.contains_key(out@[i].0) && self.map@[out@[i].0]@ == out@[i].1@);
            }
            assert(as_map(r).dom().subset_of(m.dom())) by {
                assert forall|k: i64| #[trigger] as_map(r).dom().contains(k) implies m.dom().contains(k) by {
                    let j = choose|j: int| 0 <= j < r.len() && r[j].0 == k;
                }
            }
            vstd::set_lib::lemma_subset_equality(as_map(r).dom(), m.dom());
            assert forall|k: i64| #[trigger] as_map(r).dom().contains(k) implies as_map(r)[k] == m[k] by {
                let j = choose|j: int| 0 <= j < r.len() && r[j].0 == k;
                lemma_as_map_value(r, j);
            }
            assert(as_map(r) =~= m);
            self.lemma_entries();
            lemma_as_map_unique(r, self.entries_spec());
        }
        out
    }

    /// The value under `key`.
    pub fn get(&self, key: i64) -> (r: Option<&Value>)
        ensures
            r is None <==> !(exists|i: int| 0 <= i < self.entries_spec().len() && #[trigger] self.entries_spec()[i].0 == key),
            r matches Some(v) ==> exists|i: int|
                0 <= i < self.entries_spec().len() && #[trigger] self.entries_spec()[i] == (key, v@),
    {
        proof {
            assert(vstd::laws_cmp::obeys_cmp::<i64>());
            self.lemma_entries();
            lemma_as_map_dom(self.entries_spec());
        }
        let r = self.map.get(&key);
        proof {
            let s = self.entries_spec();
            assert(model_map(self.map@).dom() =~= self.map@.dom());
            if let Some(v) = r {
                assert(as_map(s).dom().contains(key));
                let j = choose|j: int| 0 <= j < s.len() && s[j].0 == key;
                lemma_as_map_value(s, j);
                assert(s[j] == (key, v@));
            }
        }
        r
    }

    /// Insert `value` under `key`, replacing the value there (if any).
    pub fn insert(&mut self, key: i64, value: Value)
        requires
            old(self).wf(),
        ensures
            final(self).wf(),
            final(self).entries_spec() == insert_spec(old(self).entries_spec(), key, value@),
    {
        proof {
            assert(vstd::laws_cmp::obeys_cmp::<i64>());
            self.lemma_entries();
        }
        let ghost before = self.entries_spec();
        let ghost vm = value@;
        let _ = self.map.insert(key, value);
        proof {
            self.lemma_entries();
            lemma_insert_spec(before, key, vm);
            assert(model_map(self.map@) =~= as_map(before).insert(key, vm));
            lemma_as_map_unique(self.entries_spec(), insert_spec(before, key, vm));
        }
    }

    /// A deep copy.
    pub fn clone_map(&self) -> (r: Self)
        ensures
            r.entries_spec() == self.entries_spec(),
            r.wf() == self.wf(),
    {
        IntMap { map: self.map.clone() }
    }
}

/// The keys of a keyed sequence are the keys of its map.
proof fn lemma_as_map_dom(s: Seq<(i64, VModel)>)
    ensures
        forall|k: i64| #[trigger] as_map(s).dom().contains(k) <==> exists|j: int| 0 <= j < s.len() && s[j].0 == k,
        as_map(s).dom().finite(),
    decreases s.len(),
{
    if s.len() > 0 {
        let t = s.drop_last();
        lemma_as_map_dom(t);
        assert forall|k: i64| #[trigger] as_map(s).dom().contains(k) <==> exists|j: int| 0 <= j < s.len() && s[j].0 == k by {
            if as_map(s).dom().contains(k) && k != s.last().0 {
                let j = choose|j: int| 0 <= j < t.len() && t[j].0 == k;
                assert(s[j].0 == k);
            }
            if exists|j: int| 0 <= j < s.len() && s[j].0 == k {
                let j = choose|j: int| 0 <= j < s.len() && s[j].0 == k;
                if j < s.len() - 1 {
                    assert(t[j].0 == k);
                }
            }
        }
    }
}

/// In ascending entries each key maps to its own value.
proof fn lemma_as_map_value(s: Seq<(i64, VModel)>, j: int)
    requires
        ascending(s),
        0 <= j < s.len(),
    ensures
        as_map(s).dom().contains(s[j].0),
        as_map(s)[s[j].0] == s[j].1,
    decreases s.len(),
{
    lemma_as_map_dom(s);
    if j < s.len() - 1 {
        let t = s.drop_last();
        assert(t[j] == s[j]);
        lemma_as_map_value(t, j);
        assert(s[j].0 < s.last().0);
    }
}

/// Ascending entries have as many keys as entries.
proof fn lemma_as_map_len(s: Seq<(i64, VModel)>)
    requires
        ascending(s),
    ensures
        as_map(s).dom().len() == s.len(),
    decreases s.len(),
{
    if s.len() > 0 {
        let t = s.drop_last();
        lemma_as_map_len(t);
        lemma_as_map_dom(t);
        if as_map(t).dom().contains(s.last().0) {
            let j = choose|j: int| 0 <= j < t.len() && t[j].0 == s.last().0;
            assert(s[j].0 < s[s.len() - 1].0);
        }
    }
}

/// Two ascending entry sequences with the same map are the same.
proof fn lemma_as_map_unique(s1: Seq<(i64, VModel)>, s2: Seq<(i64, VModel)>)
    requires
        ascending(s1),
        ascending(s2),
        as_map(s1) == as_map(s2),
    ensures
        s1 == s2,
    decreases s1.len(),
{
    lemma_as_map_len(s1);
    lemma_as_map_len(s2);
    lemma_as_map_dom(s1);
    lemma_as_map_dom(s2);
    if s1.len() > 0 {
        let n = s1.len() - 1;
        let k1 = s1[n].0;
        let k2 = s2[n].0;
        assert(as_map(s1).dom().contains(k1));
        let j2 = choose|j: int| 0 <= j < s2.len() && s2[j].0 == k1;
        assert(as_map(s2).dom().contains(k2));
        let j1 = choose|j: int| 0 <= j < s1.len() && s1[j].0 == k2;
        assert(k1 <= k2) by {
            if j2 < n {
                assert(s2[j2].0 < s2[n].0);
            }
        }
        assert(k2 <= k1) by {
            if j1 < n {
                assert(s1[j1].0 < s1[n].0);
            }
        }
        lemma_as_map_value(s1, n);
        lemma_as_map_value(s2, n);
        let t1 = s1.drop_last();
        let t2 = s2.drop_last();
        lemma_as_map_dom(t1);
        lemma_as_map_dom(t2);
        assert(!as_map(t1).dom().contains(k1)) by {
            if as_map(t1).dom().contains(k1) {
                let j = choose|j: int| 0 <= j < t1.len() && t1[j].0 == k1;
                assert(s1[j].0 < s1[n].0);
            }
        }
        assert(!as_map(t2).dom().contains(k1)) by {
            if as_map(t2).dom().contains(k1) {
                let j = choose|j: int| 0 <= j < t2.len() && t2[j].0 == k1;
                assert(s2[j].0 < s2[n].0);
            }
        }
        assert(as_map(t1) =~= as_map(s1).remove(k1));
        assert(as_map(t2) =~= as_map(s2).remove(k1));
        assert(ascending(t1));
        assert(ascending(t2));
        lemma_as_map_unique(t1, t2);
        assert(s1 =~= t1.push(s1[n]));
        assert(s2 =~= t2.push(s2[n]));
    } else {
        assert(s2.len() == 0);
        assert(s1 =~= s2);
    }
}

proof fn lemma_insert_pos_bounds(s: Seq<(i64, VModel)>, key: i64)
    requires
        ascending(s),
    ensures
        0 <= insert_pos(s, key) <= s.len(),
        forall|j: int| 0 <= j < insert_pos(s, key) ==> #[trigger] s[j].0 < key,
        insert_pos(s, key) < s.len() ==> s[insert_pos(s, key)].0 >= key,
    decreases s.len(),
{
    if s.len() > 0 && s[0].0 < key {
        let t = s.drop_first();
        lemma_insert_pos_bounds(t, key);
        assert forall|j: int| 0 <= j < insert_pos(s, key) implies #[trigger] s[j].0 < key by {
            if j > 0 {
                assert(s[j] == t[j - 1]);
            }
        }
    }
}

/// Putting an entry in key order keeps the keys ascending and adds the entry to the map.
proof fn lemma_insert_spec(s: Seq<(i64, VModel)>, key: i64, v: VModel)
    requires
        ascending(s),
    ensures
        ascending(insert_spec(s, key, v)),
        as_map(insert_spec(s, key, v)) == as_map(s).insert(key, v),
{
    lemma_insert_pos_bounds(s, key);
    let p = insert_pos(s, key);
    let r = insert_spec(s, key, v);
    if p < s.len() && s[p].0 == key {
        assert(r == s.update(p, (key, v)));
        assert(ascending(r)) by {
            assert forall|a: int, b: int| 0 <= a < b < r.len() implies r[a].0 < r[b].0 by {
                assert(s[a].0 < s[b].0);
            }
        }
    } else {
        assert(r == s.insert(p, (key, v)));
        assert(ascending(r)) by {
            assert forall|a: int, b: int| 0 <= a < b < r.len() implies r[a].0 < r[b].0 by {
                if a < p && b == p {
                } else if a == p {
                    assert(s[b - 1].0 >= s[p].0);
                } else if b < p {
                    assert(s[a].0 < s[b].0);
                } else if a < p {
                    assert(s[a].0 < key);
                } else {
                    assert(s[a - 1].0 < s[b - 1].0);
                }
            }
        }
    }
    lemma_as_map_dom(s);
    lemma_as_map_dom(r);
    let m = as_map(s).insert(key, v);
    assert forall|k: i64| #[trigger] as_map(r).dom().contains(k) <==> m.dom().contains(k) by {
        if as_map(r).dom().contains(k) {
            let j = choose|j: int| 0 <= j < r.len() && r[j].0 == k;
            if k != key {
                if p < s.len() && s[p].0 == key {
                    assert(s[j].0 == k);
                } else if j < p {
                    assert(s[j].0 == k);
                } else {
                    assert(s[j - 1].0 == k);
                }
            }
        }
        if m.dom().contains(k) {
            if k == key {
                assert(r[p].0 == key);
            } else {
                let j = choose|j: int| 0 <= j < s.len() && s[j].0 == k;
                if p < s.len() && s[p].0 == key {
                    assert(r[j].0 == k);
                } else if j < p {
                    assert(r[j].0 == k);
                } else {
                    assert(r[j + 1].0 == k);
                }
            }
        }
    }
    assert forall|k: i64| #[trigger] as_map(r).dom().contains(k) implies as_map(r)[k] == m[k] by {
        let j = choose|j: int| 0 <= j < r.len() && r[j].0 == k;
        lemma_as_map_value(r, j);
        if k == key {
            if j != p {
                assert(r[p].0 == key);
                if j < p {
                    assert(r[j].0 < r[p].0);
                } else {
                    assert(r[p].0 < r[j].0);
                }
            }
        } else {
            if p < s.len() && s[p].0 == key {
                lemma_as_map_value(s, j);
            } else if j < p {
                assert(r[j] == s[j]);
                lemma_as_map_value(s, j);
            } else {
                assert(r[j] == s[j - 1]);
                lemma_as_map_value(s, j - 1);
            }
        }
    }
    assert(as_map(r) =~= m);
}

/// The entries of a finite map, in ascending key order.
pub open spec fn sorted_entries(m: Map<i64, VModel>) -> Seq<(i64, VModel)> {
    choose|s: Seq<(i64, VModel)>| ascending(s) && as_map(s) == m
}

/// Every finite map has its entries in ascending key order.
proof fn lemma_sorted_entries(m: Map<i64, VModel>)
    requires
        m.dom().finite(),
    ensures
        ascending(sorted_entries(m)),
        as_map(sorted_entries(m)) == m,
    decreases m.dom().len(),
{
    if m.dom().len() == 0 {
        let e = Seq::<(i64, VModel)>::empty();
        assert(m.dom() =~= Set::empty());
        assert(as_map(e) =~= m);
        assert(ascending(e) && as_map(e) == m);
    } else {
        let k = m.dom().choose();
        let m2 = m.remove(k);
        lemma_sorted_entries(m2);
        let s2 = sorted_entries(m2);
        lemma_insert_spec(s2, k, m[k]);
        let s = insert_spec(s2, k, m[k]);
        assert(as_map(s) =~= m);
        assert(ascending(s) && as_map(s) == m);
    }
}

/// The position at which `key` belongs: the number of keys below it.
pub open spec fn insert_pos(s: Seq<(i64, VModel)>, key: i64) -> int
    decreases s.len(),
{
    if s.len() == 0 || s[0].0 >= key {
        0
    } else {
        1 + insert_pos(s.drop_first(), key)
    }
}

proof fn lemma_insert_pos(s: Seq<(i64, VModel)>, key: i64, i: int)
    requires
        ascending(s),
        0 <= i <= s.len(),
        forall|j: int| 0 <= j < i ==> #[trigger] s[j].0 < key,
        i < s.len() ==> s[i].0 >= key,
    ensures
        insert_pos(s, key) == i,
    decreases s.len(),
{
    if s.len() > 0 && i > 0 {
        assert forall|j: int| 0 <= j < i - 1 implies #[trigger] s.drop_first()[j].0 < key by {
            assert(s[j + 1].0 < key);
        }
        lemma_insert_pos(s.drop_first(), key, i - 1);
    }
}

/// `s` with `(key, v)` put in key order, replacing an entry with the same key.
pub open spec fn insert_spec(s: Seq<(i64, VModel)>, key: i64, v: VModel) -> Seq<(i64, VModel)> {
    let p = insert_pos(s, key);
    if p < s.len() && s[p].0 == key {
        s.update(p, (key, v))
    } else {
        s.insert(p, (key, v))
    }
}


/// Inserting a key above every key appends the entry.
pub proof fn lemma_insert_last(s: Seq<(i64, VModel)>, key: i64, v: VModel)
    requires
        ascending(s),
        forall|j: int| 0 <= j < s.len() ==> #[trigger] s[j].0 < key,
    ensures
        insert_spec(s, key, v) == s.push((key, v)),
{
    lemma_insert_pos(s, key, s.len() as int);
    assert(s.insert(s.len() as int, (key, v)) =~= s.push((key, v)));
}

} // verus!
