use vstd::prelude::*;

verus! {

/// An association vector: entries kept in insertion order, with pairwise
/// distinct string keys.
///
/// The contract state needs maps from account ids and drop ids to records,
/// with a stable iteration order for paginated views. A plain vector of
/// key-value pairs keeps every operation fully verifiable; the spec functions
/// below give contracts a way to speak about membership and the value bound
/// to a key.
pub struct KeyedVec<V> {
    pub entries: Vec<(String, V)>,
}

/// No two entries share a key.
pub open spec fn distinct_keys<V>(s: Seq<(String, V)>) -> bool {
    forall|i: int, j: int| 0 <= i < j < s.len() ==> s[i].0@ != s[j].0@
}

/// Some entry carries the key `k`.
pub open spec fn has_key<V>(s: Seq<(String, V)>, k: Seq<char>) -> bool {
    exists|i: int| 0 <= i < s.len() && s[i].0@ == k
}

/// The index of the entry carrying `k` (meaningful when keys are distinct
/// and `has_key(s, k)` holds).
pub open spec fn key_index<V>(s: Seq<(String, V)>, k: Seq<char>) -> int {
    choose|i: int| 0 <= i < s.len() && s[i].0@ == k
}

/// The value bound to `k` (meaningful when keys are distinct and
/// `has_key(s, k)` holds).
pub open spec fn value_of<V>(s: Seq<(String, V)>, k: Seq<char>) -> V {
    s[key_index(s, k)].1
}

/// An entry with key `k` sits at index `i`, so `i` is the index `key_index`
/// picks and `value_of` reads.
pub proof fn lemma_key_at<V>(s: Seq<(String, V)>, k: Seq<char>, i: int)
    requires
        distinct_keys(s),
        0 <= i < s.len(),
        s[i].0@ == k,
    ensures
        has_key(s, k),
        key_index(s, k) == i,
        value_of(s, k) == s[i].1,
{
    assert(has_key(s, k));
    let j = key_index(s, k);
    if j != i {
        assert(s[i].0@ != s[j].0@);
    }
}

/// Appending an entry under a fresh key keeps the keys distinct, binds the
/// new key to the new value, and leaves every other key untouched.
pub proof fn lemma_push_effects<V>(s: Seq<(String, V)>, e: (String, V))
    requires
        distinct_keys(s),
        !has_key(s, e.0@),
    ensures
        distinct_keys(s.push(e)),
        has_key(s.push(e), e.0@),
        value_of(s.push(e), e.0@) == e.1,
        forall|k: Seq<char>| k != e.0@ ==> #[trigger] has_key(s.push(e), k) == has_key(s, k),
        forall|k: Seq<char>|
            k != e.0@ && has_key(s, k) ==> #[trigger] value_of(s.push(e), k) == value_of(s, k),
{
    let s2 = s.push(e);
    assert forall|i: int, j: int| 0 <= i < j < s2.len() implies s2[i].0@ != s2[j].0@ by {
        if j == s.len() {
            assert(s2[i] == s[i]);
            if s[i].0@ == e.0@ {
                assert(has_key(s, e.0@));
            }
        }
    }
    lemma_key_at(s2, e.0@, s.len() as int);
    assert forall|k: Seq<char>| k != e.0@ implies #[trigger] has_key(s2, k) == has_key(s, k) by {
        if has_key(s2, k) {
            let i = choose|i: int| 0 <= i < s2.len() && s2[i].0@ == k;
            assert(i < s.len());
            assert(s[i].0@ == k);
        }
        if has_key(s, k) {
            let i = choose|i: int| 0 <= i < s.len() && s[i].0@ == k;
            assert(s2[i].0@ == k);
        }
    }
    assert forall|k: Seq<char>| k != e.0@ && has_key(s, k) implies #[trigger] value_of(s2, k)
        == value_of(s, k) by {
        let i = key_index(s, k);
        lemma_key_at(s, k, i);
        assert(s2[i].0@ == k);
        lemma_key_at(s2, k, i);
    }
}

/// Replacing the value at index `i` (key unchanged) keeps the keys distinct,
/// rebinds that entry's key to the new value, and leaves every other key
/// untouched.
pub proof fn lemma_update_effects<V>(s: Seq<(String, V)>, i: int, v: V)
    requires
        distinct_keys(s),
        0 <= i < s.len(),
    ensures
        distinct_keys(s.update(i, (s[i].0, v))),
        forall|k: Seq<char>| #[trigger]
            has_key(s.update(i, (s[i].0, v)), k) == has_key(s, k),
        value_of(s.update(i, (s[i].0, v)), s[i].0@) == v,
        forall|k: Seq<char>|
            k != s[i].0@ && has_key(s, k) ==> #[trigger] value_of(s.update(i, (s[i].0, v)), k)
                == value_of(s, k),
{
    let s2 = s.update(i, (s[i].0, v));
    assert(forall|m: int| 0 <= m < s.len() ==> s2[m].0@ == s[m].0@);
    assert forall|k: Seq<char>| #[trigger] has_key(s2, k) == has_key(s, k) by {
        if has_key(s2, k) {
            let m = choose|m: int| 0 <= m < s2.len() && s2[m].0@ == k;
            assert(s[m].0@ == k);
        }
        if has_key(s, k) {
            let m = choose|m: int| 0 <= m < s.len() && s[m].0@ == k;
            assert(s2[m].0@ == k);
        }
    }
    lemma_key_at(s2, s[i].0@, i);
    assert forall|k: Seq<char>| k != s[i].0@ && has_key(s, k) implies #[trigger] value_of(s2, k)
        == value_of(s, k) by {
        let m = key_index(s, k);
        lemma_key_at(s, k, m);
        assert(s2[m].0@ == k);
        lemma_key_at(s2, k, m);
    }
}

/// Removing the entry at index `i` keeps the keys distinct, drops that
/// entry's key, and leaves every other key untouched.
pub proof fn lemma_remove_effects<V>(s: Seq<(String, V)>, i: int)
    requires
        distinct_keys(s),
        0 <= i < s.len(),
    ensures
        distinct_keys(s.remove(i)),
        !has_key(s.remove(i), s[i].0@),
        forall|k: Seq<char>|
            k != s[i].0@ ==> #[trigger] has_key(s.remove(i), k) == has_key(s, k),
        forall|k: Seq<char>|
            k != s[i].0@ && has_key(s, k) ==> #[trigger] value_of(s.remove(i), k) == value_of(
                s,
                k,
            ),
{
    let s2 = s.remove(i);
    assert forall|m: int| 0 <= m < s2.len() implies s2[m] == (if m < i {
        s[m]
    } else {
        s[m + 1]
    }) by {}
    assert forall|m: int, n: int| 0 <= m < n < s2.len() implies s2[m].0@ != s2[n].0@ by {
        let m0 = if m < i { m } else { m + 1 };
        let n0 = if n < i { n } else { n + 1 };
        assert(s[m0].0@ != s[n0].0@);
    }
    if has_key(s2, s[i].0@) {
        let m = choose|m: int| 0 <= m < s2.len() && s2[m].0@ == s[i].0@;
        let m0 = if m < i { m } else { m + 1 };
        assert(s[m0].0@ == s[i].0@);
        assert(m0 != i);
    }
    assert forall|k: Seq<char>| k != s[i].0@ implies #[trigger] has_key(s2, k) == has_key(s, k) by {
        if has_key(s2, k) {
            let m = choose|m: int| 0 <= m < s2.len() && s2[m].0@ == k;
            let m0 = if m < i { m } else { m + 1 };
            assert(s[m0].0@ == k);
        }
        if has_key(s, k) {
            let m = choose|m: int| 0 <= m < s.len() && s[m].0@ == k;
            let m2 = if m < i { m } else { m - 1 };
            assert(s2[m2].0@ == k);
        }
    }
    assert forall|k: Seq<char>| k != s[i].0@ && has_key(s, k) implies #[trigger] value_of(s2, k)
        == value_of(s, k) by {
        let m = key_index(s, k);
        lemma_key_at(s, k, m);
        let m2 = if m < i { m } else { m - 1 };
        assert(s2[m2].0@ == k);
        lemma_key_at(s2, k, m2);
    }
}

impl<V> KeyedVec<V> {
    /// The keys of this store are pairwise distinct.
    pub open spec fn wf(&self) -> bool {
        distinct_keys(self.entries@)
    }

    /// An empty store.
    pub fn new() -> (r: Self)
        ensures
            r.entries@.len() == 0,
            r.wf(),
    {
        KeyedVec { entries: Vec::new() }
    }

    /// The number of entries.
    pub fn len(&self) -> (n: usize)
        ensures
            n == self.entries@.len(),
    {
        self.entries.len()
    }

    /// The index of the entry keyed by `k`, if one exists.
    pub fn find(&self, k: &String) -> (r: Option<usize>)
        ensures
            match r {
                Some(i) => i < self.entries@.len() && self.entries@[i as int].0@ == k@,
                None => !has_key(self.entries@, k@),
            },
    {
        let n = self.entries.len();
        let mut i: usize = 0;
        while i < n
            invariant
                n == self.entries@.len(),
                i <= n,
                forall|j: int| 0 <= j < i ==> self.entries@[j].0@ != k@,
            decreases n - i,
        {
            if self.entries[i].0 == *k {
                return Some(i);
            }
            i = i + 1;
        }
        None
    }

    /// A borrow of the value keyed by `k`, if one exists.
    pub fn get(&self, k: &String) -> (r: Option<&V>)
        requires
            self.wf(),
        ensures
            match r {
                Some(v) => has_key(self.entries@, k@) && *v == value_of(self.entries@, k@),
                None => !has_key(self.entries@, k@),
            },
    {
        match self.find(k) {
            Some(i) => {
                proof {
                    lemma_key_at(self.entries@, k@, i as int);
                }
                Some(&self.entries[i].1)
            },
            None => None,
        }
    }

    /// True when some entry carries the key `k`.
    pub fn contains(&self, k: &String) -> (r: bool)
        ensures
            r == has_key(self.entries@, k@),
    {
        match self.find(k) {
            Some(_) => true,
            None => false,
        }
    }

    /// Appends an entry under a key not yet present.
    pub fn insert_new(&mut self, k: String, v: V)
        requires
            old(self).wf(),
            !has_key(old(self).entries@, k@),
        ensures
            final(self).entries@ == old(self).entries@.push((k, v)),
            final(self).wf(),
    {
        proof {
            lemma_push_effects(self.entries@, (k, v));
        }
        self.entries.push((k, v));
    }

    /// Replaces the value at index `i`; the key stays.
    pub fn set_at(&mut self, i: usize, v: V)
        requires
            i < old(self).entries@.len(),
        ensures
            final(self).entries@ == old(self).entries@.update(
                i as int,
                (old(self).entries@[i as int].0, v),
            ),
            old(self).wf() ==> final(self).wf(),
    {
        proof {
            if distinct_keys(self.entries@) {
                lemma_update_effects(self.entries@, i as int, v);
            }
        }
        self.entries[i].1 = v;
        proof {
            assert(self.entries@ =~= old(self).entries@.update(
                i as int,
                (old(self).entries@[i as int].0, v),
            ));
        }
    }

    /// Removes and returns the entry at index `i`.
    pub fn remove_at(&mut self, i: usize) -> (r: (String, V))
        requires
            i < old(self).entries@.len(),
        ensures
            r == old(self).entries@[i as int],
            final(self).entries@ == old(self).entries@.remove(i as int),
            old(self).wf() ==> final(self).wf(),
    {
        proof {
            if distinct_keys(self.entries@) {
                lemma_remove_effects(self.entries@, i as int);
            }
        }
        self.entries.remove(i)
    }

    /// A borrow of the entry at index `i`.
    pub fn at(&self, i: usize) -> (r: &(String, V))
        requires
            i < self.entries@.len(),
        ensures
            *r == self.entries@[i as int],
    {
        &self.entries[i]
    }
}

} // verus!
