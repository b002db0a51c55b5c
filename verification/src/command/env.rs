//! Ordered environment-variable maps, as commands and scripts receive them.
use vstd::prelude::*;

verus! {

/// The view of a list of string pairs.
pub open spec fn pairs_view(v: Seq<(String, String)>) -> Seq<(Seq<char>, Seq<char>)> {
    v.map_values(|p: (String, String)| (p.0@, p.1@))
}

/// `m` without any entry whose key is `k`, in their order.
pub open spec fn without_key(m: Seq<(Seq<char>, Seq<char>)>, k: Seq<char>) -> Seq<(Seq<char>, Seq<char>)>
    decreases m.len(),
{
    if m.len() == 0 {
        m
    } else {
        let r = without_key(m.drop_last(), k);
        if m.last().0 == k {
            r
        } else {
            r.push(m.last())
        }
    }
}

/// Inserting into an insertion-ordered map: an existing entry for the key is
/// dropped and the new entry goes to the back.
pub open spec fn env_insert(m: Seq<(Seq<char>, Seq<char>)>, k: Seq<char>, v: Seq<char>) -> Seq<(Seq<char>, Seq<char>)> {
    without_key(m, k).push((k, v))
}

/// No key occurs twice.
pub open spec fn unique_keys(m: Seq<(Seq<char>, Seq<char>)>) -> bool {
    forall|i: int, j: int| 0 <= i < m.len() && 0 <= j < m.len() && i != j ==> m[i].0 != m[j].0
}

/// Whether some entry has key `k`.
pub open spec fn has_key(m: Seq<(Seq<char>, Seq<char>)>, k: Seq<char>) -> bool {
    exists|i: int| 0 <= i < m.len() && m[i].0 == k
}

/// The value stored for `k`, if any.
pub open spec fn lookup(m: Seq<(Seq<char>, Seq<char>)>, k: Seq<char>) -> Option<Seq<char>>
    decreases m.len(),
{
    if m.len() == 0 {
        None
    } else if m.last().0 == k {
        Some(m.last().1)
    } else {
        lookup(m.drop_last(), k)
    }
}

/// An entry survives the removal of key `k` exactly when it was there and has another key.
pub proof fn lemma_without_key_member(m: Seq<(Seq<char>, Seq<char>)>, k: Seq<char>, e: (Seq<char>, Seq<char>))
    ensures
        without_key(m, k).contains(e) <==> (m.contains(e) && e.0 != k),
    decreases m.len(),
{
    if m.len() > 0 {
        let d = m.drop_last();
        lemma_without_key_member(d, k, e);
        let r = without_key(d, k);
        if m.contains(e) && e.0 != k {
            let i = choose|i: int| 0 <= i < m.len() && m[i] == e;
            if i < m.len() - 1 {
                assert(d[i] == e);
                assert(d.contains(e));
                let j = choose|j: int| 0 <= j < r.len() && r[j] == e;
                if m.last().0 != k {
                    assert(r.push(m.last())[j] == e);
                }
            } else {
                assert(m.last() == e);
                assert(r.push(m.last())[r.len() as int] == e);
            }
        }
        if without_key(m, k).contains(e) {
            let i = choose|i: int| 0 <= i < without_key(m, k).len() && without_key(m, k)[i] == e;
            if m.last().0 == k {
                assert(r[i] == e);
                assert(r.contains(e));
                let j = choose|j: int| 0 <= j < d.len() && d[j] == e;
                assert(m[j] == e);
            } else if i < r.len() {
                assert(r.push(m.last())[i] == r[i]);
                assert(r.contains(e));
                let j = choose|j: int| 0 <= j < d.len() && d[j] == e;
                assert(m[j] == e);
            } else {
                assert(e == m.last());
                assert(m[m.len() - 1] == e);
            }
        }
    }
}

/// Removing a key keeps exactly the entries with other keys.
pub proof fn lemma_without_key(m: Seq<(Seq<char>, Seq<char>)>, k: Seq<char>)
    ensures
        !has_key(without_key(m, k), k),
        forall|e: (Seq<char>, Seq<char>)| #[trigger] without_key(m, k).contains(e) <==> (m.contains(e) && e.0 != k),
        unique_keys(m) ==> unique_keys(without_key(m, k)),
        !has_key(m, k) ==> without_key(m, k) == m,
    decreases m.len(),
{
    assert forall|e: (Seq<char>, Seq<char>)| #[trigger] without_key(m, k).contains(e) <==> (m.contains(e) && e.0 != k) by {
        lemma_without_key_member(m, k, e);
    }
    let w = without_key(m, k);
    assert(!has_key(w, k)) by {
        if has_key(w, k) {
            let i = choose|i: int| 0 <= i < w.len() && w[i].0 == k;
            assert(w.contains(w[i]));
        }
    }
    if m.len() > 0 {
        lemma_without_key(m.drop_last(), k);
        let d = m.drop_last();
        let r = without_key(d, k);
        if unique_keys(m) {
            assert(unique_keys(d));
            if m.last().0 != k {
                assert forall|i: int, j: int| 0 <= i < w.len() && 0 <= j < w.len() && i != j implies w[i].0 != w[j].0 by {
                    if i < r.len() && j == r.len() {
                        assert(w[i] == r[i]);
                        assert(r.contains(r[i]));
                        let t = choose|t: int| 0 <= t < d.len() && d[t] == r[i];
                        assert(m[t] == r[i]);
                        assert(w[j] == m[m.len() - 1]);
                    } else if j < r.len() && i == r.len() {
                        assert(w[j] == r[j]);
                        assert(r.contains(r[j]));
                        let t = choose|t: int| 0 <= t < d.len() && d[t] == r[j];
                        assert(m[t] == r[j]);
                        assert(w[i] == m[m.len() - 1]);
                    } else if i < r.len() && j < r.len() {
                        assert(w[i] == r[i]);
                        assert(w[j] == r[j]);
                    }
                }
            }
        }
        if !has_key(m, k) {
            assert(!has_key(d, k)) by {
                if has_key(d, k) {
                    let i = choose|i: int| 0 <= i < d.len() && d[i].0 == k;
                    assert(m[i].0 == k);
                }
            }
            assert(m.last().0 != k) by {
                assert(m[m.len() - 1].0 == m.last().0);
            }
            assert(d.push(m.last()) =~= m);
        }
    }
}

/// An insertion-ordered map from variable names to values.
#[derive(Debug, Clone)]
pub struct EnvVars {
    entries: Vec<(String, String)>,
}

impl View for EnvVars {
    type V = Seq<(Seq<char>, Seq<char>)>;

    closed spec fn view(&self) -> Seq<(Seq<char>, Seq<char>)> {
        pairs_view(self.entries@)
    }
}

/// Copies the entries of `v` without those keyed `k`.
fn copy_without_key(v: &Vec<(String, String)>, k: &String) -> (out: Vec<(String, String)>)
    ensures
        pairs_view(out@) == without_key(pairs_view(v@), k@),
{
    let mut out: Vec<(String, String)> = Vec::new();
    let n = v.len();
    let mut i: usize = 0;
    while i < n
        invariant
            n == v.len(),
            i <= n,
            pairs_view(out@) == without_key(pairs_view(v@).take(i as int), k@),
        decreases n - i,
    {
        let ghost before = pairs_view(v@).take(i as int);
        assert(pairs_view(v@).take((i + 1) as int).drop_last() =~= before);
        assert(pairs_view(v@).take((i + 1) as int).last() == (v@[i as int].0@, v@[i as int].1@));
        if v[i].0 != *k {
            let e = (v[i].0.clone(), v[i].1.clone());
            out.push(e);
            assert(pairs_view(out@) =~= without_key(before, k@).push((v@[i as int].0@, v@[i as int].1@)));
        }
        i = i + 1;
    }
    assert(pairs_view(v@).take(n as int) =~= pairs_view(v@));
    out
}

impl EnvVars {
    /// An empty map.
    pub fn new() -> (m: EnvVars)
        ensures
            m@ == Seq::<(Seq<char>, Seq<char>)>::empty(),
    {
        let m = EnvVars { entries: Vec::new() };
        assert(m@ =~= Seq::<(Seq<char>, Seq<char>)>::empty());
        m
    }

    /// Inserts `value` under `key`; an entry already stored under `key` is
    /// dropped and the new one goes to the back.
    pub fn insert(&mut self, key: String, value: String)
        ensures
            final(self)@ == env_insert(old(self)@, key@, value@),
    {
        let mut entries = copy_without_key(&self.entries, &key);
        let ghost kv = key@;
        let ghost vv = value@;
        entries.push((key, value));
        assert(pairs_view(entries@) =~= pairs_view(entries@.drop_last()).push((kv, vv)));
        self.entries = entries;
    }

    /// The number of entries.
    pub fn len(&self) -> (n: usize)
        ensures
            n == self@.len(),
    {
        self.entries.len()
    }

    /// Whether the map holds no entry.
    pub fn is_empty(&self) -> (b: bool)
        ensures
            b == (self@.len() == 0),
    {
        self.entries.len() == 0
    }

    /// The entries in insertion order.
    pub fn entries(&self) -> (e: &Vec<(String, String)>)
        ensures
            pairs_view(e@) == self@,
    {
        &self.entries
    }

    /// The value stored under `key`, if any.
    pub fn get(&self, key: &str) -> (r: Option<&String>)
        ensures
            match r {
                Some(v) => lookup(self@, key@) == Some(v@),
                None => lookup(self@, key@) is None,
            },
    {
        let n = self.entries.len();
        let mut i: usize = n;
        assert(self@.take(n as int) =~= self@);
        while i > 0
            invariant
                i <= n,
                n == self.entries@.len(),
                lookup(self@, key@) == lookup(self@.take(i as int), key@),
            decreases i,
        {
            let ghost t = self@.take(i as int);
            assert(t.drop_last() =~= self@.take(i - 1));
            assert(t.last() == self@[i - 1]);
            assert(self@[i - 1] == (self.entries@[i - 1].0@, self.entries@[i - 1].1@));
            if crate::text::str_equal(self.entries[i - 1].0.as_str(), key) {
                return Some(&self.entries[i - 1].1);
            }
            i = i - 1;
        }
        None
    }
}

/// Inserting keeps keys unique, a read of the inserted key gives the
/// inserted value back, and the length grows by one only for a new key.
pub proof fn law_env_insert(m: Seq<(Seq<char>, Seq<char>)>, k: Seq<char>, v: Seq<char>)
    requires
        unique_keys(m),
    ensures
        unique_keys(env_insert(m, k, v)),
        lookup(env_insert(m, k, v), k) == Some(v),
        env_insert(m, k, v).len() == if has_key(m, k) { m.len() } else { m.len() + 1 },
{
    lemma_without_key(m, k);
    let r = without_key(m, k);
    assert(env_insert(m, k, v).drop_last() =~= r);
    assert forall|i: int, j: int| 0 <= i < r.push((k, v)).len() && 0 <= j < r.push((k, v)).len() && i != j implies r.push((k, v))[i].0 != r.push((k, v))[j].0 by {
        if i == r.len() && j < r.len() {
            assert(r[j].0 != k);
        } else if j == r.len() && i < r.len() {
            assert(r[i].0 != k);
        }
    }
    lemma_without_key_len(m, k);
}

proof fn lemma_without_key_len(m: Seq<(Seq<char>, Seq<char>)>, k: Seq<char>)
    requires
        unique_keys(m),
    ensures
        without_key(m, k).len() == if has_key(m, k) { m.len() - 1 } else { m.len() as int },
    decreases m.len(),
{
    if m.len() > 0 {
        assert(unique_keys(m.drop_last()));
        lemma_without_key_len(m.drop_last(), k);
        if m.last().0 == k {
            assert(!has_key(m.drop_last(), k)) by {
                if has_key(m.drop_last(), k) {
                    let i = choose|i: int| 0 <= i < m.drop_last().len() && m.drop_last()[i].0 == k;
                    assert(m[i].0 == m[m.len() - 1].0);
                }
            }
        } else {
            assert(has_key(m, k) == has_key(m.drop_last(), k)) by {
                if has_key(m, k) {
                    let i = choose|i: int| 0 <= i < m.len() && m[i].0 == k;
                    assert(i != m.len() - 1);
                    assert(m.drop_last()[i].0 == k);
                }
                if has_key(m.drop_last(), k) {
                    let i = choose|i: int| 0 <= i < m.drop_last().len() && m.drop_last()[i].0 == k;
                    assert(m[i].0 == k);
                }
            }
        }
    }
}

} // verus!
