//! Labels: an ordered set of key-value pairs with distinct keys.

use vstd::prelude::*;
use crate::base::text::{push_char, push_str, str_equal};

verus! {

/// The pairs of a label set as character sequences.
pub open spec fn pairs_view(entries: Seq<(String, String)>) -> Seq<(Seq<char>, Seq<char>)> {
    entries.map_values(|e: (String, String)| (e.0@, e.1@))
}

/// The map that a sequence of pairs denotes (a later pair wins over an earlier
/// one with the same key).
pub open spec fn pairs_to_map<V>(p: Seq<(Seq<char>, V)>) -> Map<Seq<char>, V>
    decreases p.len(),
{
    if p.len() == 0 {
        Map::empty()
    } else {
        pairs_to_map(p.drop_last()).insert(p.last().0, p.last().1)
    }
}

/// No key occurs twice.
pub open spec fn keys_distinct<V>(p: Seq<(Seq<char>, V)>) -> bool {
    forall|i: int, j: int| 0 <= i < j < p.len() ==> #[trigger] p[i].0 != #[trigger] p[j].0
}

/// The position of the last pair with key `k`, or -1.
pub open spec fn key_position<V>(p: Seq<(Seq<char>, V)>, k: Seq<char>) -> int
    decreases p.len(),
{
    if p.len() == 0 {
        -1
    } else if p.last().0 == k {
        p.len() - 1
    } else {
        key_position(p.drop_last(), k)
    }
}

/// Setting key `k` to `v`: an existing pair keeps its place, a new key goes last.
pub open spec fn pairs_insert<V>(p: Seq<(Seq<char>, V)>, k: Seq<char>, v: V) -> Seq<(Seq<char>, V)> {
    let j = key_position(p, k);
    if j >= 0 {
        p.update(j, (k, v))
    } else {
        p.push((k, v))
    }
}

/// `base` with every pair of `over` set in turn.
pub open spec fn merge_pairs(
    base: Seq<(Seq<char>, Seq<char>)>,
    over: Seq<(Seq<char>, Seq<char>)>,
) -> Seq<(Seq<char>, Seq<char>)>
    decreases over.len(),
{
    if over.len() == 0 {
        base
    } else {
        pairs_insert(merge_pairs(base, over.drop_last()), over.last().0, over.last().1)
    }
}

/// What `<str as Debug>::fmt` writes for `s`: the string in double quotes
/// with its special characters escaped.
pub uninterp spec fn debug_quoted(s: Seq<char>) -> Seq<char>;

/// `format!("{:?}", s)`: the `Debug` text of a string.
#[verifier::external_body]
fn str_debug_text(s: &str) -> (r: String)
    ensures
        r@ == debug_quoted(s@),
{
    format!("{:?}", s)
}

/// `"k": "v", ...` for the pairs.
pub open spec fn debug_pairs(p: Seq<(Seq<char>, Seq<char>)>) -> Seq<char>
    decreases p.len(),
{
    if p.len() == 0 {
        seq![]
    } else {
        let prefix = if p.len() == 1 {
            seq![]
        } else {
            debug_pairs(p.drop_last()) + seq![',', ' ']
        };
        prefix + debug_quoted(p.last().0) + seq![':', ' '] + debug_quoted(p.last().1)
    }
}

/// `{"k": "v", ...}`: the text that identifies a label set in error messages.
pub open spec fn debug_labels(p: Seq<(Seq<char>, Seq<char>)>) -> Seq<char> {
    seq!['{'] + debug_pairs(p) + seq!['}']
}

pub proof fn lemma_map_contains<V>(p: Seq<(Seq<char>, V)>, k: Seq<char>)
    ensures
        pairs_to_map(p).contains_key(k) <==> key_position(p, k) >= 0,
        key_position(p, k) < p.len(),
        key_position(p, k) >= 0 ==> p[key_position(p, k)].0 == k,
        key_position(p, k) < 0 ==> forall|i: int| 0 <= i < p.len() ==> #[trigger] p[i].0 != k,
        key_position(p, k) >= 0 ==> pairs_to_map(p)[k] == p[key_position(p, k)].1,
    decreases p.len(),
{
    if p.len() > 0 {
        lemma_map_contains(p.drop_last(), k);
        if key_position(p, k) < 0 {
            assert forall|i: int| 0 <= i < p.len() implies #[trigger] p[i].0 != k by {
                if i < p.len() - 1 {
                    assert(p.drop_last()[i] == p[i]);
                }
            }
        }
    }
}

pub proof fn lemma_position_of_distinct<V>(p: Seq<(Seq<char>, V)>, i: int)
    requires
        keys_distinct(p),
        0 <= i < p.len(),
    ensures
        key_position(p, p[i].0) == i,
    decreases p.len(),
{
    if i < p.len() - 1 {
        assert(p[i].0 != p[p.len() - 1].0);
        assert(p.drop_last()[i] == p[i]);
        lemma_position_of_distinct(p.drop_last(), i);
    }
}

pub proof fn lemma_map_value<V>(p: Seq<(Seq<char>, V)>, i: int)
    requires
        keys_distinct(p),
        0 <= i < p.len(),
    ensures
        pairs_to_map(p).contains_key(p[i].0),
        pairs_to_map(p)[p[i].0] == p[i].1,
{
    lemma_position_of_distinct(p, i);
    lemma_map_contains(p, p[i].0);
}

pub proof fn lemma_insert_pairs<V>(p: Seq<(Seq<char>, V)>, k: Seq<char>, v: V)
    requires
        keys_distinct(p),
    ensures
        keys_distinct(pairs_insert(p, k, v)),
        pairs_to_map(pairs_insert(p, k, v)) == pairs_to_map(p).insert(k, v),
    decreases p.len(),
{
    lemma_map_contains(p, k);
    let j = key_position(p, k);
    let q = pairs_insert(p, k, v);
    if j < 0 {
        assert(q.drop_last() =~= p);
    } else if j == p.len() - 1 {
        assert(q.drop_last() =~= p.drop_last());
        assert(pairs_to_map(q) =~= pairs_to_map(p).insert(k, v));
    } else {
        let d = p.drop_last();
        assert(keys_distinct(d));
        assert(key_position(d, k) == j);
        lemma_insert_pairs(d, k, v);
        assert(q.drop_last() =~= pairs_insert(d, k, v));
        assert(p.last().0 != k);
        assert(pairs_to_map(q) =~= pairs_to_map(p).insert(k, v));
    }
}

/// `p` without the pair of key `k`.
pub open spec fn pairs_remove<V>(p: Seq<(Seq<char>, V)>, k: Seq<char>) -> Seq<(Seq<char>, V)> {
    let j = key_position(p, k);
    if j >= 0 {
        p.remove(j)
    } else {
        p
    }
}

pub proof fn lemma_remove_pairs<V>(p: Seq<(Seq<char>, V)>, k: Seq<char>)
    requires
        keys_distinct(p),
    ensures
        keys_distinct(pairs_remove(p, k)),
        pairs_to_map(pairs_remove(p, k)) == pairs_to_map(p).remove(k),
    decreases p.len(),
{
    lemma_map_contains(p, k);
    let j = key_position(p, k);
    let q = pairs_remove(p, k);
    if j < 0 {
        assert(pairs_to_map(p).remove(k) =~= pairs_to_map(p));
    } else if j == p.len() - 1 {
        assert(q =~= p.drop_last());
        let d = p.drop_last();
        lemma_map_contains(d, k);
        assert forall|i: int| 0 <= i < d.len() implies #[trigger] d[i].0 != k by {
            assert(d[i] == p[i]);
            assert(p[i].0 != p[j].0);
        }
        assert(key_position(d, k) < 0);
        assert(pairs_to_map(q) =~= pairs_to_map(p).remove(k));
    } else {
        let d = p.drop_last();
        assert(keys_distinct(d));
        assert(key_position(d, k) == j);
        lemma_remove_pairs(d, k);
        assert(q.drop_last() =~= pairs_remove(d, k));
        assert(q.last() == p.last());
        assert(p.last().0 != k);
        assert(keys_distinct(q)) by {
            assert forall|a: int, b: int| 0 <= a < b < q.len() implies #[trigger] q[a].0 != #[trigger] q[b].0 by {
                let oa = if a < j { a } else { a + 1 };
                let ob = if b < j { b } else { b + 1 };
                assert(q[a] == p[oa] && q[b] == p[ob]);
            }
        }
        assert(pairs_to_map(q) =~= pairs_to_map(p).remove(k));
    }
}

pub proof fn lemma_merge_pairs(a: Seq<(Seq<char>, Seq<char>)>, b: Seq<(Seq<char>, Seq<char>)>)
    requires
        keys_distinct(a),
        keys_distinct(b),
    ensures
        keys_distinct(merge_pairs(a, b)),
        pairs_to_map(merge_pairs(a, b)) == pairs_to_map(a).union_prefer_right(pairs_to_map(b)),
    decreases b.len(),
{
    if b.len() == 0 {
        assert(pairs_to_map(a).union_prefer_right(pairs_to_map(b)) =~= pairs_to_map(a));
    } else {
        let d = b.drop_last();
        assert(keys_distinct(d));
        lemma_merge_pairs(a, d);
        lemma_insert_pairs(merge_pairs(a, d), b.last().0, b.last().1);
        assert(pairs_to_map(merge_pairs(a, b)) =~= pairs_to_map(a).union_prefer_right(
            pairs_to_map(b),
        ));
    }
}

/// An ordered set of label pairs with distinct keys.
#[derive(Debug)]
pub struct Labels {
    entries: Vec<(String, String)>,
}

impl View for Labels {
    type V = Map<Seq<char>, Seq<char>>;

    open spec fn view(&self) -> Map<Seq<char>, Seq<char>> {
        pairs_to_map(self.pairs())
    }
}

impl Labels {
    /// The pairs in their order.
    pub closed spec fn pairs(&self) -> Seq<(Seq<char>, Seq<char>)> {
        pairs_view(self.entries@)
    }

    #[verifier::type_invariant]
    closed spec fn inv(&self) -> bool {
        keys_distinct(self.pairs())
    }

    /// Creates an empty label set.
    pub fn new() -> (r: Labels)
        ensures
            r.pairs() == Seq::<(Seq<char>, Seq<char>)>::empty(),
            r@ == Map::<Seq<char>, Seq<char>>::empty(),
    {
        let r = Labels { entries: Vec::new() };
        assert(r.pairs() =~= Seq::<(Seq<char>, Seq<char>)>::empty());
        r
    }

    /// The number of pairs.
    pub fn len(&self) -> (r: usize)
        ensures
            r == self.pairs().len(),
    {
        self.entries.len()
    }

    /// Whether there are no pairs.
    pub fn is_empty(&self) -> (r: bool)
        ensures
            r == (self.pairs().len() == 0),
            r == (self@ == Map::<Seq<char>, Seq<char>>::empty()),
    {
        proof {
            if self.pairs().len() > 0 {
                use_type_invariant(self);
                lemma_map_value(self.pairs(), 0);
            } else {
                assert(self@ =~= Map::<Seq<char>, Seq<char>>::empty());
            }
        }
        self.entries.len() == 0
    }

    /// The entries, in order.
    pub fn entries(&self) -> (r: &Vec<(String, String)>)
        ensures
            pairs_view(r@) == self.pairs(),
    {
        &self.entries
    }

    fn position(&self, key: &str) -> (r: Option<usize>)
        ensures
            r is Some <==> key_position(self.pairs(), key@) >= 0,
            r matches Some(i) ==> i == key_position(self.pairs(), key@),
    {
        let mut i = self.entries.len();
        assert(self.pairs().take(i as int) =~= self.pairs());
        while i > 0
            invariant
                i <= self.entries.len(),
                key_position(self.pairs(), key@) == key_position(self.pairs().take(i as int), key@),
            decreases i,
        {
            let hit = str_equal(self.entries[i - 1].0.as_str(), key);
            assert(self.pairs().take(i as int).drop_last() =~= self.pairs().take(i - 1));
            if hit {
                return Some(i - 1);
            }
            i = i - 1;
        }
        None
    }

    /// Whether `key` has a value.
    pub fn contains_key(&self, key: &str) -> (r: bool)
        ensures
            r == self@.contains_key(key@),
    {
        proof {
            lemma_map_contains(self.pairs(), key@);
        }
        self.position(key).is_some()
    }

    /// The value of `key`.
    pub fn get(&self, key: &str) -> (r: Option<&String>)
        ensures
            r is Some <==> self@.contains_key(key@),
            r matches Some(v) ==> v@ == self@[key@],
    {
        proof {
            lemma_map_contains(self.pairs(), key@);
        }
        match self.position(key) {
            Some(i) => Some(&self.entries[i].1),
            None => None,
        }
    }

    /// Sets `key` to `value`; returns the value it replaced.
    pub fn insert(&mut self, key: String, value: String) -> (r: Option<String>)
        ensures
            final(self).pairs() == pairs_insert(old(self).pairs(), key@, value@),
            final(self)@ == old(self)@.insert(key@, value@),
            r is Some <==> old(self)@.contains_key(key@),
            r matches Some(v) ==> v@ == old(self)@[key@],
    {
        proof {
            use_type_invariant(&*self);
            lemma_map_contains(self.pairs(), key@);
            lemma_insert_pairs(self.pairs(), key@, value@);
        }
        let ghost kv = key@;
        let ghost vv = value@;
        match self.position(key.as_str()) {
            Some(i) => {
                let old_value = self.entries[i].1.clone();
                let mut entries: Vec<(String, String)> = Vec::new();
                std::mem::swap(&mut entries, &mut self.entries);
                entries.set(i, (key, value));
                assert(pairs_view(entries@) =~= pairs_insert(old(self).pairs(), kv, vv));
                self.entries = entries;
                Some(old_value)
            },
            None => {
                let mut entries: Vec<(String, String)> = Vec::new();
                std::mem::swap(&mut entries, &mut self.entries);
                entries.push((key, value));
                assert(pairs_view(entries@) =~= pairs_insert(old(self).pairs(), kv, vv));
                self.entries = entries;
                None
            },
        }
    }

    /// A label set with the same pairs in the same order.
    pub fn duplicate(&self) -> (r: Labels)
        ensures
            r.pairs() == self.pairs(),
            r@ == self@,
    {
        proof {
            use_type_invariant(self);
        }
        let mut entries: Vec<(String, String)> = Vec::new();
        let n = self.entries.len();
        for i in 0..n
            invariant
                n == self.entries.len(),
                pairs_view(entries@) == self.pairs().take(i as int),
        {
            let k = self.entries[i].0.clone();
            let v = self.entries[i].1.clone();
            assert(k@ == self.entries@[i as int].0@);
            assert(v@ == self.entries@[i as int].1@);
            let ghost prev = entries@;
            entries.push((k, v));
            assert(pairs_view(entries@) =~= pairs_view(prev).push(self.pairs()[i as int]));
            assert(pairs_view(entries@) =~= self.pairs().take(i + 1));
        }
        assert(self.pairs().take(n as int) =~= self.pairs());
        Labels { entries }
    }

    /// These labels with every pair of `overrides` set in turn: keys of
    /// `overrides` win.
    pub fn merged(&self, overrides: &Labels) -> (r: Labels)
        ensures
            r.pairs() == merge_pairs(self.pairs(), overrides.pairs()),
            r@ == self@.union_prefer_right(overrides@),
    {
        proof {
            use_type_invariant(self);
            use_type_invariant(overrides);
            lemma_merge_pairs(self.pairs(), overrides.pairs());
        }
        let mut r = self.duplicate();
        let n = overrides.entries.len();
        for i in 0..n
            invariant
                n == overrides.entries.len(),
                r.pairs() == merge_pairs(self.pairs(), overrides.pairs().take(i as int)),
        {
            let k = overrides.entries[i].0.clone();
            let v = overrides.entries[i].1.clone();
            r.insert(k, v);
            assert(overrides.pairs().take(i + 1).drop_last() =~= overrides.pairs().take(i as int));
        }
        assert(overrides.pairs().take(n as int) =~= overrides.pairs());
        r
    }

    /// Whether both label sets map the same keys to the same values.
    pub fn same_as(&self, other: &Labels) -> (r: bool)
        ensures
            r == (self@ == other@),
    {
        proof {
            use_type_invariant(self);
            use_type_invariant(other);
        }
        let n = self.entries.len();
        for i in 0..n
            invariant
                n == self.entries.len(),
                keys_distinct(self.pairs()),
                keys_distinct(other.pairs()),
                forall|j: int|
                    0 <= j < i ==> other@.contains_key(#[trigger] self.pairs()[j].0) && other@[self.pairs()[j].0]
                        == self.pairs()[j].1,
        {
            match other.get(self.entries[i].0.as_str()) {
                Some(v) => {
                    if !str_equal(v.as_str(), self.entries[i].1.as_str()) {
                        proof {
                            lemma_map_value(self.pairs(), i as int);
                        }
                        return false;
                    }
                },
                None => {
                    proof {
                        lemma_map_value(self.pairs(), i as int);
                    }
                    return false;
                },
            }
        }
        let m = other.entries.len();
        for i in 0..m
            invariant
                m == other.entries.len(),
                keys_distinct(other.pairs()),
                forall|j: int|
                    0 <= j < i ==> self@.contains_key(#[trigger] other.pairs()[j].0) && self@[other.pairs()[j].0]
                        == other.pairs()[j].1,
        {
            proof {
                lemma_map_value(other.pairs(), i as int);
            }
            match self.get(other.entries[i].0.as_str()) {
                Some(v) => {
                    if !str_equal(v.as_str(), other.entries[i].1.as_str()) {
                        return false;
                    }
                },
                None => {
                    return false;
                },
            }
        }
        proof {
            assert forall|k: Seq<char>| #[trigger] self@.contains_key(k) implies other@.contains_key(k)
                && other@[k] == self@[k] by {
                lemma_map_contains(self.pairs(), k);
                let j = key_position(self.pairs(), k);
                assert(self.pairs()[j].0 == k);
            }
            assert forall|k: Seq<char>| #[trigger] other@.contains_key(k) implies self@.contains_key(k) by {
                lemma_map_contains(other.pairs(), k);
                let j = key_position(other.pairs(), k);
                assert(other.pairs()[j].0 == k);
            }
            assert(self@ =~= other@);
        }
        true
    }

    /// `{"k": "v", ...}`: the text that names these labels in error messages.
    pub fn debug_text(&self) -> (r: String)
        ensures
            r@ == debug_labels(self.pairs()),
    {
        let mut out = String::new();
        push_char(&mut out, '{');
        let n = self.entries.len();
        for i in 0..n
            invariant
                n == self.entries.len(),
                out@ == seq!['{'] + debug_pairs(self.pairs().take(i as int)),
        {
            let ghost before = out@;
            if i > 0 {
                push_char(&mut out, ',');
                push_char(&mut out, ' ');
            }
            push_debug_quoted(&mut out, self.entries[i].0.as_str());
            push_char(&mut out, ':');
            push_char(&mut out, ' ');
            push_debug_quoted(&mut out, self.entries[i].1.as_str());
            proof {
                let t = self.pairs().take(i + 1);
                assert(t.drop_last() =~= self.pairs().take(i as int));
                if i == 0 {
                    assert(debug_pairs(self.pairs().take(0)) =~= Seq::<char>::empty());
                }
                assert(out@ =~= seq!['{'] + debug_pairs(t));
            }
        }
        push_char(&mut out, '}');
        assert(self.pairs().take(n as int) =~= self.pairs());
        assert(out@ =~= debug_labels(self.pairs()));
        out
    }
}

impl Clone for Labels {
    fn clone(&self) -> (r: Labels)
        ensures
            r.pairs() == self.pairs(),
    {
        self.duplicate()
    }
}

impl Default for Labels {
    fn default() -> (r: Labels)
        ensures
            r@ == Map::<Seq<char>, Seq<char>>::empty(),
    {
        Labels::new()
    }
}

fn push_debug_quoted(out: &mut String, s: &str)
    ensures
        final(out)@ == old(out)@ + debug_quoted(s@),
{
    let text = str_debug_text(s);
    push_str(out, text.as_str());
}

} // verus!
