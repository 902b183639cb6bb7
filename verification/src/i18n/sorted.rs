//! String-keyed maps kept as vectors sorted by key, in the byte order Rust
//! uses for `String` (which, for UTF-8, is the order of code points).

use vstd::prelude::*;
use crate::text::{chars_of, string_of};

verus! {

// ---------------------------------------------------------------------------
// Key order
// ---------------------------------------------------------------------------

/// Lexicographic order on character sequences, by code point.
pub open spec fn key_lt(a: Seq<char>, b: Seq<char>) -> bool
    decreases a.len(),
{
    if a.len() == 0 {
        b.len() > 0
    } else if b.len() == 0 {
        false
    } else if a[0] != b[0] {
        (a[0] as u32) < (b[0] as u32)
    } else {
        key_lt(a.drop_first(), b.drop_first())
    }
}

pub proof fn lemma_key_lt_irreflexive(a: Seq<char>)
    ensures
        !key_lt(a, a),
    decreases a.len(),
{
    if a.len() > 0 {
        lemma_key_lt_irreflexive(a.drop_first());
    }
}

pub proof fn lemma_key_lt_asymmetric(a: Seq<char>, b: Seq<char>)
    ensures
        key_lt(a, b) ==> !key_lt(b, a),
    decreases a.len(),
{
    if a.len() > 0 && b.len() > 0 && a[0] == b[0] {
        lemma_key_lt_asymmetric(a.drop_first(), b.drop_first());
    }
}

pub proof fn lemma_key_lt_total(a: Seq<char>, b: Seq<char>)
    ensures
        a != b ==> key_lt(a, b) || key_lt(b, a),
    decreases a.len(),
{
    if a.len() > 0 && b.len() > 0 && a[0] == b[0] {
        lemma_key_lt_total(a.drop_first(), b.drop_first());
        if a != b {
            assert(a.drop_first() != b.drop_first()) by {
                if a.drop_first() == b.drop_first() {
                    assert(a =~= seq![a[0]] + a.drop_first());
                    assert(b =~= seq![b[0]] + b.drop_first());
                }
            }
        }
    } else if a.len() == 0 && b.len() == 0 {
        assert(a =~= b);
    } else if a.len() > 0 && b.len() > 0 {
        assert((a[0] as u32) != (b[0] as u32)) by {
            vstd::utf8::char_u32_cast(a[0], a[0] as u32);
            vstd::utf8::char_u32_cast(b[0], b[0] as u32);
        }
    }
}

pub proof fn lemma_key_lt_transitive(a: Seq<char>, b: Seq<char>, c: Seq<char>)
    requires
        key_lt(a, b),
        key_lt(b, c),
    ensures
        key_lt(a, c),
    decreases a.len(),
{
    if a.len() > 0 && b.len() > 0 && c.len() > 0 && a[0] == b[0] && b[0] == c[0] {
        lemma_key_lt_transitive(a.drop_first(), b.drop_first(), c.drop_first());
    }
}

/// Exec comparison: `a < b` in key order.
pub fn key_lt_exec(a: &Vec<char>, b: &Vec<char>) -> (r: bool)
    ensures
        r == key_lt(a@, b@),
{
    let mut i: usize = 0;
    assert(a@.skip(0) =~= a@);
    assert(b@.skip(0) =~= b@);
    while i < a.len() && i < b.len() && a[i] == b[i]
        invariant
            i <= a@.len(),
            i <= b@.len(),
            key_lt(a@, b@) == key_lt(a@.skip(i as int), b@.skip(i as int)),
        decreases a@.len() - i,
    {
        assert(a@.skip(i as int).drop_first() =~= a@.skip(i + 1));
        assert(b@.skip(i as int).drop_first() =~= b@.skip(i + 1));
        i = i + 1;
    }
    if i == a.len() {
        i < b.len()
    } else if i == b.len() {
        false
    } else {
        (a[i] as u32) < (b[i] as u32)
    }
}

/// Exec key equality on character vectors.
pub fn key_eq_exec(a: &Vec<char>, b: &Vec<char>) -> (r: bool)
    ensures
        r == (a@ == b@),
{
    if a.len() != b.len() {
        return false;
    }
    let mut i: usize = 0;
    while i < a.len()
        invariant
            i <= a@.len(),
            a@.len() == b@.len(),
            forall|k: int| 0 <= k < i ==> a@[k] == b@[k],
        decreases a@.len() - i,
    {
        if a[i] != b[i] {
            return false;
        }
        i = i + 1;
    }
    assert(a@ =~= b@);
    true
}

// ---------------------------------------------------------------------------
// Sorted entry sequences
// ---------------------------------------------------------------------------

/// Keys strictly increase along `s`.
pub open spec fn keys_sorted<W>(s: Seq<(Seq<char>, W)>) -> bool {
    forall|i: int, j: int| 0 <= i < j < s.len() ==> key_lt(#[trigger] s[i].0, #[trigger] s[j].0)
}

/// The first index at or after `i` whose key is not below `k`.
pub open spec fn position_from<W>(s: Seq<(Seq<char>, W)>, k: Seq<char>, i: int) -> int
    decreases s.len() - i,
{
    if i < 0 || i >= s.len() {
        s.len() as int
    } else if !key_lt(s[i].0, k) {
        i
    } else {
        position_from(s, k, i + 1)
    }
}

/// Where `k` sits (or belongs) in `s`.
pub open spec fn position<W>(s: Seq<(Seq<char>, W)>, k: Seq<char>) -> int {
    position_from(s, k, 0)
}

/// `s` with `k` bound to `v`: the entry for `k` replaced, or a new entry put
/// where it keeps the keys ordered.
pub open spec fn put<W>(s: Seq<(Seq<char>, W)>, k: Seq<char>, v: W) -> Seq<(Seq<char>, W)> {
    let p = position(s, k);
    if p < s.len() && s[p].0 == k {
        s.update(p, (k, v))
    } else {
        s.insert(p, (k, v))
    }
}

/// The value bound to `k` in `s`, if any.
pub open spec fn lookup<W>(s: Seq<(Seq<char>, W)>, k: Seq<char>) -> Option<W> {
    let p = position(s, k);
    if p < s.len() && s[p].0 == k {
        Some(s[p].1)
    } else {
        None
    }
}

/// The keys of `s`, as a set.
pub open spec fn key_set<W>(s: Seq<(Seq<char>, W)>) -> Set<Seq<char>> {
    Set::new(|k: Seq<char>| exists|i: int| 0 <= i < s.len() && s[i].0 == k)
}

pub proof fn lemma_position_bounds<W>(s: Seq<(Seq<char>, W)>, k: Seq<char>, i: int)
    requires
        0 <= i <= s.len(),
    ensures
        i <= position_from(s, k, i) <= s.len(),
        forall|m: int| i <= m < position_from(s, k, i) ==> key_lt(#[trigger] s[m].0, k),
        position_from(s, k, i) < s.len() ==> !key_lt(s[position_from(s, k, i)].0, k),
    decreases s.len() - i,
{
    if i < s.len() && key_lt(s[i].0, k) {
        lemma_position_bounds(s, k, i + 1);
    }
}

/// In a sorted sequence, the entries before `position` have smaller keys and
/// those from it on have keys that are not smaller.
pub proof fn lemma_position<W>(s: Seq<(Seq<char>, W)>, k: Seq<char>)
    requires
        keys_sorted(s),
    ensures
        0 <= position(s, k) <= s.len(),
        forall|m: int| 0 <= m < position(s, k) ==> key_lt(#[trigger] s[m].0, k),
        forall|m: int| position(s, k) <= m < s.len() ==> !key_lt(#[trigger] s[m].0, k),
        forall|m: int| position(s, k) < m < s.len() ==> key_lt(k, #[trigger] s[m].0),
{
    lemma_position_bounds(s, k, 0);
    let p = position(s, k);
    assert forall|m: int| p <= m < s.len() implies !key_lt(#[trigger] s[m].0, k) by {
        if m > p {
            lemma_key_lt_asymmetric(s[m].0, k);
            if key_lt(s[m].0, k) {
                assert(key_lt(s[p].0, s[m].0));
                lemma_key_lt_transitive(s[p].0, s[m].0, k);
            }
        }
    }
    assert forall|m: int| p < m < s.len() implies key_lt(k, #[trigger] s[m].0) by {
        assert(key_lt(s[p].0, s[m].0));
        lemma_key_lt_total(s[p].0, k);
        if s[p].0 == k {
        } else {
            lemma_key_lt_transitive(k, s[p].0, s[m].0);
        }
    }
}

/// A key is in a sorted sequence exactly where `position` points.
pub proof fn lemma_lookup<W>(s: Seq<(Seq<char>, W)>, k: Seq<char>)
    requires
        keys_sorted(s),
    ensures
        forall|i: int| 0 <= i < s.len() && s[i].0 == k ==> i == position(s, k),
        lookup(s, k) is Some <==> key_set(s).contains(k),
{
    lemma_position(s, k);
    let p = position(s, k);
    assert forall|i: int| 0 <= i < s.len() && s[i].0 == k implies i == p by {
        lemma_key_lt_irreflexive(k);
    }
    if key_set(s).contains(k) {
        let i = choose|i: int| 0 <= i < s.len() && s[i].0 == k;
        assert(i == p);
    }
}

/// `put` keeps a sorted sequence sorted, binds `k` to `v`, and leaves every
/// other binding alone.
pub proof fn lemma_put<W>(s: Seq<(Seq<char>, W)>, k: Seq<char>, v: W)
    requires
        keys_sorted(s),
    ensures
        keys_sorted(put(s, k, v)),
        lookup(put(s, k, v), k) == Some(v),
        forall|k2: Seq<char>| k2 != k ==> lookup(put(s, k, v), k2) == lookup(s, k2),
        key_set(put(s, k, v)) == key_set(s).insert(k),
{
    lemma_position(s, k);
    let p = position(s, k);
    let t = put(s, k, v);
    if p < s.len() && s[p].0 == k {
        assert(keys_sorted(t)) by {
            assert forall|i: int, j: int| 0 <= i < j < t.len() implies key_lt(
                #[trigger] t[i].0,
                #[trigger] t[j].0,
            ) by {
                assert(key_lt(s[i].0, s[j].0));
            }
        }
    } else {
        assert(keys_sorted(t)) by {
            assert forall|i: int, j: int| 0 <= i < j < t.len() implies key_lt(
                #[trigger] t[i].0,
                #[trigger] t[j].0,
            ) by {
                if j < p {
                    assert(key_lt(s[i].0, s[j].0));
                } else if j == p {
                    assert(key_lt(s[i].0, k));
                } else if i < p {
                    assert(key_lt(s[i].0, s[j - 1].0));
                } else if i == p {
                    assert(!key_lt(s[j - 1].0, k));
                    lemma_key_lt_total(s[j - 1].0, k);
                    if j - 1 == p {
                    } else {
                        assert(key_lt(s[p].0, s[j - 1].0));
                        lemma_key_lt_total(s[p].0, k);
                        if key_lt(s[p].0, k) {
                        } else {
                            lemma_key_lt_transitive(k, s[p].0, s[j - 1].0);
                        }
                    }
                } else {
                    assert(key_lt(s[i - 1].0, s[j - 1].0));
                }
            }
        }
    }
    lemma_position(t, k);
    assert(t[p].0 == k);
    lemma_lookup(t, k);
    assert forall|k2: Seq<char>| k2 != k implies lookup(t, k2) == lookup(s, k2) by {
        lemma_lookup(s, k2);
        lemma_lookup(t, k2);
        lemma_position(s, k2);
        lemma_position(t, k2);
        if lookup(s, k2) is Some {
            let q = position(s, k2);
            let q2 = if p < s.len() && s[p].0 == k {
                q
            } else if q < p {
                q
            } else {
                q + 1
            };
            assert(t[q2].0 == k2);
            assert(key_set(t).contains(k2));
        } else if lookup(t, k2) is Some {
            let q = position(t, k2);
            assert(t[q].0 == k2);
            let q1 = if p < s.len() && s[p].0 == k {
                q
            } else if q < p {
                q
            } else {
                q - 1
            };
            assert(s[q1].0 == k2);
            assert(key_set(s).contains(k2));
        }
    }
    assert(key_set(t) =~= key_set(s).insert(k)) by {
        assert forall|k2: Seq<char>| key_set(t).contains(k2) implies key_set(s).insert(k).contains(
            k2,
        ) by {
            if k2 != k {
                let i = choose|i: int| 0 <= i < t.len() && t[i].0 == k2;
                if p < s.len() && s[p].0 == k {
                    assert(s[i].0 == k2);
                } else if i < p {
                    assert(s[i].0 == k2);
                } else {
                    assert(s[i - 1].0 == k2);
                }
            }
        }
        assert forall|k2: Seq<char>| key_set(s).insert(k).contains(k2) implies key_set(t).contains(
            k2,
        ) by {
            if k2 == k {
                assert(t[p].0 == k);
            } else {
                let i = choose|i: int| 0 <= i < s.len() && s[i].0 == k2;
                if p < s.len() && s[p].0 == k {
                    assert(t[i].0 == k2);
                } else if i < p {
                    assert(t[i].0 == k2);
                } else {
                    assert(t[i + 1].0 == k2);
                }
            }
        }
    }
}

// ---------------------------------------------------------------------------
// The map type
// ---------------------------------------------------------------------------

/// A map from `String` keys to `V`, iterated in ascending key order.
pub struct SortedMap<V> {
    entries: Vec<(String, V)>,
}

impl<V: DeepView> DeepView for SortedMap<V> {
    type V = Seq<(Seq<char>, V::V)>;

    closed spec fn deep_view(&self) -> Seq<(Seq<char>, V::V)> {
        self.entries.deep_view()
    }
}

impl<V: DeepView> SortedMap<V> {
    /// Keys strictly increase.
    pub open spec fn wf(&self) -> bool {
        keys_sorted(self.deep_view())
    }

    /// An empty map.
    pub fn new() -> (m: Self)
        ensures
            m.deep_view() == Seq::<(Seq<char>, V::V)>::empty(),
            m.wf(),
    {
        let m = SortedMap { entries: Vec::new() };
        assert(m.deep_view() =~= Seq::<(Seq<char>, V::V)>::empty());
        m
    }

    /// Number of entries.
    pub fn len(&self) -> (n: usize)
        ensures
            n == self.deep_view().len(),
    {
        self.entries.len()
    }

    /// The entries, in ascending key order.
    pub fn entries(&self) -> (e: &Vec<(String, V)>)
        ensures
            e.deep_view() == self.deep_view(),
    {
        &self.entries
    }

    /// Where `key` sits or belongs: `(index, present)`.
    fn locate(&self, key: &Vec<char>) -> (r: (usize, bool))
        ensures
            r.0 == position(self.deep_view(), key@),
            r.0 <= self.deep_view().len(),
            r.1 == (r.0 < self.deep_view().len() && self.deep_view()[r.0 as int].0 == key@),
    {
        let ghost s = self.deep_view();
        proof {
            lemma_position_bounds(s, key@, 0);
        }
        let mut i: usize = 0;
        while i < self.entries.len()
            invariant
                s == self.deep_view(),
                i <= s.len(),
                position(s, key@) == position_from(s, key@, i as int),
            decreases s.len() - i,
        {
            let k = chars_of(self.entries[i].0.as_str());
            assert(k@ == s[i as int].0);
            if !key_lt_exec(&k, key) {
                let same = key_eq_exec(&k, key);
                return (i, same);
            }
            i = i + 1;
        }
        (i, false)
    }

    /// Appends an entry at the end, for callers that add keys in ascending order.
    pub(crate) fn push_last(&mut self, key: String, value: V)
        ensures
            final(self).deep_view() == old(self).deep_view().push((key@, value.deep_view())),
    {
        let ghost before = self.entries.deep_view();
        self.entries.push((key, value));
        assert(self.entries.deep_view() =~= before.push((key@, value.deep_view())));
    }

    /// The value stored under `key`.
    pub fn get(&self, key: &str) -> (r: Option<&V>)
        ensures
            match r {
                Some(v) => lookup(self.deep_view(), key@) == Some(v.deep_view()),
                None => lookup(self.deep_view(), key@) is None,
            },
    {
        let k = chars_of(key);
        let (p, found) = self.locate(&k);
        if found {
            Some(&self.entries[p].1)
        } else {
            None
        }
    }

    /// Binds `key` to `value`, replacing any earlier binding.
    pub fn insert(&mut self, key: String, value: V)
        ensures
            final(self).deep_view() == put(old(self).deep_view(), key@, value.deep_view()),
            old(self).wf() ==> final(self).wf(),
    {
        proof {
            if self.wf() {
                lemma_put(self.deep_view(), key@, value.deep_view());
            }
        }
        let k = chars_of(key.as_str());
        let (p, found) = self.locate(&k);
        let ghost before = self.entries.deep_view();
        if found {
            self.entries.set(p, (key, value));
        } else {
            self.entries.insert(p, (key, value));
        }
        proof {
            let after = self.entries.deep_view();
            if found {
                assert(after =~= before.update(p as int, (k@, value.deep_view())));
            } else {
                assert(after =~= before.insert(p as int, (k@, value.deep_view())));
            }
        }
    }
}

} // verus!
