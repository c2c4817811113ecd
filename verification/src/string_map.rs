//! A string-to-string mapping with unique keys, used for resource labels
//! and annotations. Entries are stored as a vector of key/value pairs and
//! viewed as a `Map<Seq<char>, Seq<char>>`.

use vstd::prelude::*;

verus! {

/// The map described by a sequence of key/value entries, later entries
/// taking precedence.
pub open spec fn entries_map(s: Seq<(String, String)>) -> Map<Seq<char>, Seq<char>>
    decreases s.len(),
{
    if s.len() == 0 {
        Map::empty()
    } else {
        entries_map(s.drop_last()).insert(s.last().0@, s.last().1@)
    }
}

/// Some entry of `s` has key `k`.
pub open spec fn has_key(s: Seq<(String, String)>, k: Seq<char>) -> bool {
    exists|j: int| 0 <= j < s.len() && s[j].0@ == k
}

/// No two entries of `s` share a key.
pub open spec fn unique_keys(s: Seq<(String, String)>) -> bool {
    forall|i: int, j: int| 0 <= i < j < s.len() ==> s[i].0@ != s[j].0@
}

proof fn lemma_drop_last_index(s: Seq<(String, String)>)
    requires
        s.len() > 0,
    ensures
        s.drop_last().len() == s.len() - 1,
        forall|j: int| 0 <= j < s.len() - 1 ==> s.drop_last()[j] == s[j],
{
    assert forall|j: int| 0 <= j < s.len() - 1 implies s.drop_last()[j] == s[j] by {
        assert(s.drop_last()[j] == s.subrange(0, s.len() - 1)[j]);
    }
}

proof fn lemma_entries_map_dom(s: Seq<(String, String)>)
    ensures
        entries_map(s).dom().finite(),
        forall|k: Seq<char>| #[trigger] entries_map(s).contains_key(k) ==> has_key(s, k),
        forall|k: Seq<char>| #[trigger] has_key(s, k) ==> entries_map(s).contains_key(k),
    decreases s.len(),
{
    if s.len() == 0 {
        assert(entries_map(s).dom() =~= Set::<Seq<char>>::empty());
    } else {
        let dl = s.drop_last();
        lemma_drop_last_index(s);
        lemma_entries_map_dom(dl);
        assert forall|k: Seq<char>| #[trigger] entries_map(s).contains_key(k) implies has_key(
            s,
            k,
        ) by {
            if k == s.last().0@ {
                assert(s[s.len() - 1].0@ == k);
            } else {
                assert(entries_map(dl).contains_key(k));
                assert(has_key(dl, k));
                let j = choose|j: int| 0 <= j < dl.len() && dl[j].0@ == k;
                assert(s[j].0@ == k);
            }
        }
        assert forall|k: Seq<char>| #[trigger] has_key(s, k) implies entries_map(s).contains_key(
            k,
        ) by {
            let j = choose|j: int| 0 <= j < s.len() && s[j].0@ == k;
            if j < s.len() - 1 {
                assert(dl[j].0@ == k);
                assert(has_key(dl, k));
            } else {
                assert(k == s.last().0@);
            }
        }
    }
}

proof fn lemma_entries_map_get(s: Seq<(String, String)>, j: int)
    requires
        unique_keys(s),
        0 <= j < s.len(),
    ensures
        entries_map(s).contains_key(s[j].0@),
        entries_map(s)[s[j].0@] == s[j].1@,
    decreases s.len(),
{
    if j == s.len() - 1 {
        assert(entries_map(s).contains_key(s[j].0@));
    } else {
        let dl = s.drop_last();
        lemma_drop_last_index(s);
        assert forall|a: int, b: int| 0 <= a < b < dl.len() implies dl[a].0@ != dl[b].0@ by {
            assert(dl[a] == s[a]);
            assert(dl[b] == s[b]);
        }
        assert(dl[j] == s[j]);
        lemma_entries_map_get(dl, j);
        assert(s[j].0@ != s[s.len() - 1].0@);
    }
}

proof fn lemma_entries_map_len(s: Seq<(String, String)>)
    requires
        unique_keys(s),
    ensures
        entries_map(s).dom().finite(),
        entries_map(s).dom().len() == s.len(),
    decreases s.len(),
{
    lemma_entries_map_dom(s);
    if s.len() > 0 {
        let dl = s.drop_last();
        lemma_drop_last_index(s);
        assert forall|a: int, b: int| 0 <= a < b < dl.len() implies dl[a].0@ != dl[b].0@ by {
            assert(dl[a] == s[a]);
            assert(dl[b] == s[b]);
        }
        lemma_entries_map_len(dl);
        lemma_entries_map_dom(dl);
        assert(!has_key(dl, s.last().0@)) by {
            if has_key(dl, s.last().0@) {
                let j = choose|j: int| 0 <= j < dl.len() && dl[j].0@ == s.last().0@;
                assert(dl[j] == s[j]);
                assert(s[j].0@ == s[s.len() - 1].0@);
            }
        }
        assert(!entries_map(dl).contains_key(s.last().0@));
        assert(entries_map(s).dom() =~= entries_map(dl).dom().insert(s.last().0@));
        vstd::set::axiom_set_insert_len(entries_map(dl).dom(), s.last().0@);
    }
}

proof fn lemma_entries_map_update_value(s: Seq<(String, String)>, i: int, e: (String, String))
    requires
        unique_keys(s),
        0 <= i < s.len(),
        e.0@ == s[i].0@,
    ensures
        unique_keys(s.update(i, e)),
        entries_map(s.update(i, e)) == entries_map(s).insert(e.0@, e.1@),
{
    let s2 = s.update(i, e);
    assert(s2.len() == s.len());
    assert(forall|j: int| 0 <= j < s.len() && j != i ==> s2[j] == s[j]);
    assert(s2[i] == e);
    assert forall|a: int, b: int| 0 <= a < b < s2.len() implies s2[a].0@ != s2[b].0@ by {
        assert(s2[a].0@ == s[a].0@);
        assert(s2[b].0@ == s[b].0@);
    }
    lemma_entries_map_dom(s);
    lemma_entries_map_dom(s2);
    let m1 = entries_map(s2);
    let m2 = entries_map(s).insert(e.0@, e.1@);
    assert forall|k: Seq<char>| #[trigger] m1.contains_key(k) implies m2.contains_key(k) && m1[k]
        == m2[k] by {
        assert(has_key(s2, k));
        let j = choose|j: int| 0 <= j < s2.len() && s2[j].0@ == k;
        lemma_entries_map_get(s2, j);
        if k == e.0@ {
            if j != i {
                assert(s[j].0@ == s[i].0@);
                assert(false);
            }
            assert(m1[k] == e.1@);
        } else {
            assert(j != i);
            assert(s2[j] == s[j]);
            assert(has_key(s, k));
            lemma_entries_map_get(s, j);
        }
    }
    assert forall|k: Seq<char>| #[trigger] m2.contains_key(k) implies m1.contains_key(k) by {
        if k == e.0@ {
            assert(s2[i].0@ == k);
            assert(has_key(s2, k));
        } else {
            assert(entries_map(s).contains_key(k));
            assert(has_key(s, k));
            let j = choose|j: int| 0 <= j < s.len() && s[j].0@ == k;
            assert(j != i);
            assert(s2[j].0@ == k);
            assert(has_key(s2, k));
        }
    }
    assert(m1 =~= m2);
}

proof fn lemma_entries_map_remove(s: Seq<(String, String)>, i: int)
    requires
        unique_keys(s),
        0 <= i < s.len(),
    ensures
        unique_keys(s.remove(i)),
        entries_map(s.remove(i)) == entries_map(s).remove(s[i].0@),
{
    let s2 = s.remove(i);
    assert(s2.len() == s.len() - 1);
    assert forall|j: int| 0 <= j < i implies s2[j] == s[j] by {
        assert(s2[j] == s.subrange(0, i)[j]);
    }
    assert forall|j: int| i <= j < s2.len() implies s2[j] == s[j + 1] by {
        assert(s2[j] == s.subrange(i + 1, s.len() as int)[j - i]);
    }
    assert forall|a: int, b: int| 0 <= a < b < s2.len() implies s2[a].0@ != s2[b].0@ by {
        let a0 = if a < i {
            a
        } else {
            a + 1
        };
        let b0 = if b < i {
            b
        } else {
            b + 1
        };
        assert(s2[a] == s[a0]);
        assert(s2[b] == s[b0]);
    }
    lemma_entries_map_dom(s);
    lemma_entries_map_dom(s2);
    let m1 = entries_map(s2);
    let m2 = entries_map(s).remove(s[i].0@);
    assert forall|k: Seq<char>| #[trigger] m1.contains_key(k) implies m2.contains_key(k) && m1[k]
        == m2[k] by {
        assert(has_key(s2, k));
        let j = choose|j: int| 0 <= j < s2.len() && s2[j].0@ == k;
        lemma_entries_map_get(s2, j);
        let j0 = if j < i {
            j
        } else {
            j + 1
        };
        assert(s2[j] == s[j0]);
        assert(has_key(s, k));
        lemma_entries_map_get(s, j0);
        assert(k != s[i].0@);
    }
    assert forall|k: Seq<char>| #[trigger] m2.contains_key(k) implies m1.contains_key(k) by {
        assert(entries_map(s).contains_key(k));
        assert(has_key(s, k));
        let j = choose|j: int| 0 <= j < s.len() && s[j].0@ == k;
        assert(j != i);
        let j2 = if j < i {
            j
        } else {
            j - 1
        };
        assert(s2[j2] == s[j]);
        assert(has_key(s2, k));
    }
    assert(m1 =~= m2);
}

/// A mapping from string keys to string values; keys are unique, order is
/// irrelevant.
pub struct StringMap {
    entries: Vec<(String, String)>,
}

impl View for StringMap {
    type V = Map<Seq<char>, Seq<char>>;

    closed spec fn view(&self) -> Map<Seq<char>, Seq<char>> {
        entries_map(self.entries@)
    }
}

/// Relies on str's `PartialEq`, which compares the underlying character
/// data of the two slices.
#[verifier::external_body]
fn str_eq(a: &str, b: &str) -> (r: bool)
    ensures
        r == (a@ == b@),
{
    a == b
}

impl StringMap {
    #[verifier::type_invariant]
    spec fn wf(&self) -> bool {
        unique_keys(self.entries@)
    }

    /// An empty mapping.
    pub fn new() -> (r: Self)
        ensures
            r@ == Map::<Seq<char>, Seq<char>>::empty(),
    {
        StringMap { entries: Vec::new() }
    }

    /// The number of entries.
    pub fn len(&self) -> (n: usize)
        ensures
            n == self@.dom().len(),
    {
        proof {
            use_type_invariant(&*self);
            lemma_entries_map_len(self.entries@);
        }
        self.entries.len()
    }

    /// Whether the mapping has no entries.
    pub fn is_empty(&self) -> (r: bool)
        ensures
            r == (self@ == Map::<Seq<char>, Seq<char>>::empty()),
    {
        proof {
            use_type_invariant(&*self);
            lemma_entries_map_dom(self.entries@);
            if self.entries@.len() > 0 {
                assert(self.entries@[self.entries@.len() - 1].0@ == self.entries@.last().0@);
                assert(has_key(self.entries@, self.entries@.last().0@));
                assert(self@.contains_key(self.entries@.last().0@));
            } else {
                assert(self@ =~= Map::<Seq<char>, Seq<char>>::empty());
            }
        }
        self.entries.len() == 0
    }

    /// The value stored under `key`, if any.
    pub fn get(&self, key: &str) -> (r: Option<&String>)
        ensures
            match r {
                Some(v) => self@.contains_key(key@) && v@ == self@[key@],
                None => !self@.contains_key(key@),
            },
    {
        proof {
            use_type_invariant(&*self);
            lemma_entries_map_dom(self.entries@);
        }
        let mut i: usize = 0;
        while i < self.entries.len()
            invariant
                i <= self.entries@.len(),
                forall|j: int| 0 <= j < i ==> self.entries@[j].0@ != key@,
                unique_keys(self.entries@),
                forall|k: Seq<char>| #[trigger] entries_map(self.entries@).contains_key(k)
                    ==> has_key(self.entries@, k),
            decreases self.entries@.len() - i,
        {
            if str_eq(self.entries[i].0.as_str(), key) {
                proof {
                    lemma_entries_map_get(self.entries@, i as int);
                }
                return Some(&self.entries[i].1);
            }
            i += 1;
        }
        proof {
            if self@.contains_key(key@) {
                assert(has_key(self.entries@, key@));
            }
        }
        None
    }

    /// Whether `key` is present.
    pub fn contains_key(&self, key: &str) -> (r: bool)
        ensures
            r == self@.contains_key(key@),
    {
        self.get(key).is_some()
    }

    /// Stores `value` under `key`, replacing any previous value.
    pub fn insert(&mut self, key: String, value: String)
        ensures
            final(self)@ == old(self)@.insert(key@, value@),
    {
        proof {
            use_type_invariant(&*self);
        }
        let mut entries: Vec<(String, String)> = Vec::new();
        core::mem::swap(&mut entries, &mut self.entries);
        let ghost s0 = entries@;
        let mut i: usize = 0;
        while i < entries.len()
            invariant
                i <= entries@.len(),
                entries@ == s0,
                old(self).entries@ == s0,
                forall|j: int| 0 <= j < i ==> entries@[j].0@ != key@,
                unique_keys(s0),
            decreases entries@.len() - i,
        {
            if str_eq(entries[i].0.as_str(), key.as_str()) {
                let e = &mut entries[i];
                e.1 = value;
                proof {
                    assert(entries@ =~= s0.update(i as int, entries@[i as int]));
                    assert(entries@[i as int].0@ == key@);
                    assert(entries@[i as int].1 == value);
                    lemma_entries_map_update_value(s0, i as int, entries@[i as int]);
                }
                self.entries = entries;
                proof {
                    assert(self@ == entries_map(s0).insert(key@, value@));
                    assert(self@ == old(self)@.insert(key@, value@));
                }
                return;
            }
            i += 1;
        }
        entries.push((key, value));
        proof {
            assert(entries@.drop_last() =~= s0);
            assert(entries@.last().0@ == key@);
            assert forall|a: int, b: int| 0 <= a < b < entries@.len() implies entries@[a].0@
                != entries@[b].0@ by {
                if b < s0.len() {
                    assert(entries@[a] == s0[a]);
                    assert(entries@[b] == s0[b]);
                } else {
                    assert(entries@[a] == s0[a]);
                    assert(entries@[b].0@ == key@);
                }
            }
        }
        self.entries = entries;
    }

    /// The entries as a vector of key/value pairs; keys are unique, and
    /// the pairs describe exactly this mapping.
    pub fn to_vec(&self) -> (r: Vec<(String, String)>)
        ensures
            unique_keys(r@),
            entries_map(r@) == self@,
    {
        proof {
            use_type_invariant(&*self);
        }
        let mut r: Vec<(String, String)> = Vec::new();
        let mut i: usize = 0;
        while i < self.entries.len()
            invariant
                i <= self.entries@.len(),
                r@ == self.entries@.subrange(0, i as int),
                unique_keys(self.entries@),
            decreases self.entries@.len() - i,
        {
            let k = self.entries[i].0.clone();
            let v = self.entries[i].1.clone();
            r.push((k, v));
            proof {
                assert(r@ =~= self.entries@.subrange(0, i + 1));
            }
            i += 1;
        }
        proof {
            assert(r@ =~= self.entries@);
        }
        r
    }

    /// Removes `key`, returning the value that was stored under it, if any.
    pub fn remove(&mut self, key: &str) -> (r: Option<String>)
        ensures
            final(self)@ == old(self)@.remove(key@),
            match r {
                Some(v) => old(self)@.contains_key(key@) && v@ == old(self)@[key@],
                None => !old(self)@.contains_key(key@),
            },
    {
        proof {
            use_type_invariant(&*self);
            lemma_entries_map_dom(self.entries@);
        }
        let mut entries: Vec<(String, String)> = Vec::new();
        core::mem::swap(&mut entries, &mut self.entries);
        let ghost s0 = entries@;
        let mut i: usize = 0;
        while i < entries.len()
            invariant
                i <= entries@.len(),
                entries@ == s0,
                old(self).entries@ == s0,
                forall|j: int| 0 <= j < i ==> entries@[j].0@ != key@,
                unique_keys(s0),
            decreases entries@.len() - i,
        {
            if str_eq(entries[i].0.as_str(), key) {
                proof {
                    assert(s0[i as int].0@ == key@);
                    lemma_entries_map_get(s0, i as int);
                    lemma_entries_map_remove(s0, i as int);
                    assert(old(self)@ == entries_map(s0));
                    assert(entries_map(s0).contains_key(key@));
                }
                let (_k, v) = entries.remove(i);
                proof {
                    assert(v == s0[i as int].1);
                    assert(v@ == old(self)@[key@]);
                    assert(entries@ == s0.remove(i as int));
                }
                self.entries = entries;
                proof {
                    assert(self@ == entries_map(s0).remove(key@));
                    assert(self@ == old(self)@.remove(key@));
                }
                return Some(v);
            }
            i += 1;
        }
        self.entries = entries;
        proof {
            if old(self)@.contains_key(key@) {
                assert(has_key(s0, key@));
            }
            assert(self@ =~= old(self)@.remove(key@));
        }
        None
    }
}

} // verus!
