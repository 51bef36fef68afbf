use vstd::prelude::*;

verus! {

/// The value stored under key `k` in the entry sequence `s`: the first entry
/// whose key reads `k`, scanning from the front.
pub open spec fn keyed_lookup<V>(s: Seq<(String, V)>, k: Seq<char>) -> Option<V>
    decreases s.len(),
{
    if s.len() == 0 {
        None
    } else if s[0].0@ == k {
        Some(s[0].1)
    } else {
        keyed_lookup(s.drop_first(), k)
    }
}

/// No two entries of `s` share a key.
pub open spec fn unique_keys<V>(s: Seq<(String, V)>) -> bool {
    forall|i: int, j: int| 0 <= i < j < s.len() ==> s[i].0@ != s[j].0@
}

pub proof fn lemma_lookup_first_hit<V>(s: Seq<(String, V)>, k: Seq<char>, i: int)
    requires
        0 <= i < s.len(),
        s[i].0@ == k,
        forall|j: int| 0 <= j < i ==> s[j].0@ != k,
    ensures
        keyed_lookup(s, k) == Some(s[i].1),
    decreases i,
{
    if i > 0 {
        assert(s[0].0@ != k);
        assert forall|j: int| 0 <= j < i - 1 implies s.drop_first()[j].0@ != k by {
            assert(s.drop_first()[j] == s[j + 1]);
        }
        assert(s.drop_first()[i - 1] == s[i]);
        lemma_lookup_first_hit(s.drop_first(), k, i - 1);
    }
}

pub proof fn lemma_lookup_none<V>(s: Seq<(String, V)>, k: Seq<char>)
    requires
        forall|j: int| 0 <= j < s.len() ==> s[j].0@ != k,
    ensures
        keyed_lookup(s, k) is None,
    decreases s.len(),
{
    if s.len() > 0 {
        assert forall|j: int| 0 <= j < s.drop_first().len() implies s.drop_first()[j].0@ != k by {
            assert(s.drop_first()[j] == s[j + 1]);
        }
        lemma_lookup_none(s.drop_first(), k);
    }
}

/// Overwriting the first entry that carries key `e.0@` changes the lookup of
/// that key alone.
pub proof fn lemma_lookup_update<V>(s: Seq<(String, V)>, i: int, e: (String, V))
    requires
        0 <= i < s.len(),
        s[i].0@ == e.0@,
        forall|j: int| 0 <= j < i ==> s[j].0@ != e.0@,
    ensures
        forall|k2: Seq<char>|
            #[trigger] keyed_lookup(s.update(i, e), k2) == (if k2 == e.0@ {
                Some(e.1)
            } else {
                keyed_lookup(s, k2)
            }),
    decreases i,
{
    let t = s.update(i, e);
    if i == 0 {
        assert(t.drop_first() =~= s.drop_first());
        assert(t[0] == e);
        assert forall|k2: Seq<char>|
            #[trigger] keyed_lookup(t, k2) == (if k2 == e.0@ {
                Some(e.1)
            } else {
                keyed_lookup(s, k2)
            }) by {
            if k2 != e.0@ {
                assert(keyed_lookup(t, k2) == keyed_lookup(t.drop_first(), k2));
                assert(keyed_lookup(s, k2) == keyed_lookup(s.drop_first(), k2));
            }
        }
    } else {
        assert(s[0].0@ != e.0@);
        assert forall|j: int| 0 <= j < i - 1 implies s.drop_first()[j].0@ != e.0@ by {
            assert(s.drop_first()[j] == s[j + 1]);
        }
        assert(s.drop_first()[i - 1] == s[i]);
        lemma_lookup_update(s.drop_first(), i - 1, e);
        assert(t.drop_first() =~= s.drop_first().update(i - 1, e));
        assert(t[0] == s[0]);
        assert forall|k2: Seq<char>|
            #[trigger] keyed_lookup(t, k2) == (if k2 == e.0@ {
                Some(e.1)
            } else {
                keyed_lookup(s, k2)
            }) by {
            if s[0].0@ == k2 {
                assert(keyed_lookup(t, k2) == Some(s[0].1));
                assert(keyed_lookup(s, k2) == Some(s[0].1));
            } else {
                assert(keyed_lookup(t, k2) == keyed_lookup(t.drop_first(), k2));
                assert(keyed_lookup(s, k2) == keyed_lookup(s.drop_first(), k2));
                assert(keyed_lookup(s.drop_first().update(i - 1, e), k2) == (if k2 == e.0@ {
                    Some(e.1)
                } else {
                    keyed_lookup(s.drop_first(), k2)
                }));
            }
        }
    }
}

/// Appending an entry leaves every key that was already bound unchanged and
/// binds the appended key only where it was absent.
pub proof fn lemma_lookup_push<V>(s: Seq<(String, V)>, e: (String, V))
    ensures
        forall|k2: Seq<char>|
            #[trigger] keyed_lookup(s.push(e), k2) == (if keyed_lookup(s, k2) is Some {
                keyed_lookup(s, k2)
            } else if e.0@ == k2 {
                Some(e.1)
            } else {
                None::<V>
            }),
    decreases s.len(),
{
    let t = s.push(e);
    if s.len() == 0 {
        assert(t[0] == e);
        assert(t.drop_first() =~= Seq::<(String, V)>::empty());
        assert forall|k2: Seq<char>|
            #[trigger] keyed_lookup(t, k2) == (if keyed_lookup(s, k2) is Some {
                keyed_lookup(s, k2)
            } else if e.0@ == k2 {
                Some(e.1)
            } else {
                None::<V>
            }) by {
            if e.0@ != k2 {
                assert(keyed_lookup(t, k2) == keyed_lookup(t.drop_first(), k2));
            }
        }
    } else {
        lemma_lookup_push(s.drop_first(), e);
        assert(t.drop_first() =~= s.drop_first().push(e));
        assert(t[0] == s[0]);
        assert forall|k2: Seq<char>|
            #[trigger] keyed_lookup(t, k2) == (if keyed_lookup(s, k2) is Some {
                keyed_lookup(s, k2)
            } else if e.0@ == k2 {
                Some(e.1)
            } else {
                None::<V>
            }) by {
            if s[0].0@ != k2 {
                assert(keyed_lookup(t, k2) == keyed_lookup(t.drop_first(), k2));
                assert(keyed_lookup(s, k2) == keyed_lookup(s.drop_first(), k2));
            }
        }
    }
}

/// Removing the entry that carries a key unbinds that key alone, provided the
/// keys of `s` are unique.
pub proof fn lemma_lookup_remove_at<V>(s: Seq<(String, V)>, i: int)
    requires
        unique_keys(s),
        0 <= i < s.len(),
    ensures
        keyed_lookup(s.remove(i), s[i].0@) is None,
        forall|k2: Seq<char>|
            k2 != s[i].0@ ==> #[trigger] keyed_lookup(s.remove(i), k2) == keyed_lookup(s, k2),
    decreases i,
{
    let t = s.remove(i);
    let ki = s[i].0@;
    if i == 0 {
        assert(t =~= s.drop_first());
        assert forall|j: int| 0 <= j < t.len() implies t[j].0@ != ki by {
            assert(t[j] == s[j + 1]);
        }
        lemma_lookup_none(t, ki);
        assert forall|k2: Seq<char>|
            k2 != ki implies #[trigger] keyed_lookup(t, k2) == keyed_lookup(s, k2) by {
            assert(keyed_lookup(s, k2) == keyed_lookup(s.drop_first(), k2));
        }
    } else {
        assert forall|x: int, y: int|
            0 <= x < y < s.drop_first().len() implies s.drop_first()[x].0@
                != s.drop_first()[y].0@ by {
            assert(s.drop_first()[x] == s[x + 1]);
            assert(s.drop_first()[y] == s[y + 1]);
        }
        assert(s.drop_first()[i - 1] == s[i]);
        lemma_lookup_remove_at(s.drop_first(), i - 1);
        assert(t.drop_first() =~= s.drop_first().remove(i - 1));
        assert(t[0] == s[0]);
        assert(s[0].0@ != ki);
        assert(keyed_lookup(t, ki) == keyed_lookup(t.drop_first(), ki));
        assert forall|k2: Seq<char>|
            k2 != ki implies #[trigger] keyed_lookup(t, k2) == keyed_lookup(s, k2) by {
            if s[0].0@ != k2 {
                assert(keyed_lookup(t, k2) == keyed_lookup(t.drop_first(), k2));
                assert(keyed_lookup(s, k2) == keyed_lookup(s.drop_first(), k2));
            }
        }
    }
}

/// A key is bound exactly when some entry carries it.
pub proof fn lemma_lookup_some_index<V>(s: Seq<(String, V)>, k: Seq<char>)
    ensures
        keyed_lookup(s, k) is Some <==> exists|i: int| 0 <= i < s.len() && s[i].0@ == k,
    decreases s.len(),
{
    if s.len() > 0 && s[0].0@ != k {
        lemma_lookup_some_index(s.drop_first(), k);
        if keyed_lookup(s, k) is Some {
            let i = choose|i: int|
                0 <= i < s.drop_first().len() && s.drop_first()[i].0@ == k;
            assert(s[i + 1] == s.drop_first()[i]);
        }
        if exists|i: int| 0 <= i < s.len() && s[i].0@ == k {
            let i = choose|i: int| 0 <= i < s.len() && s[i].0@ == k;
            assert(s.drop_first()[i - 1] == s[i]);
        }
    }
}

/// A bound key is bound to the value of some entry that carries it.
pub proof fn lemma_lookup_value_index<V>(s: Seq<(String, V)>, k: Seq<char>)
    requires
        keyed_lookup(s, k) is Some,
    ensures
        exists|i: int| 0 <= i < s.len() && s[i].0@ == k && keyed_lookup(s, k) == Some(s[i].1),
    decreases s.len(),
{
    if s.len() > 0 && s[0].0@ != k {
        lemma_lookup_value_index(s.drop_first(), k);
        let i = choose|i: int|
            0 <= i < s.drop_first().len() && s.drop_first()[i].0@ == k && keyed_lookup(
                s.drop_first(),
                k,
            ) == Some(s.drop_first()[i].1);
        assert(s[i + 1] == s.drop_first()[i]);
    }
}

/// A durable table of values keyed by strings: insert-or-replace lookup
/// semantics with last-writer-wins per key, and idempotent removal. This is
/// the common shape of every persistent table in the system: workspace
/// records, global settings, key-value entries, asset records and asset
/// blobs.
pub struct Table<V> {
    entries: Vec<(String, V)>,
}

impl<V> View for Table<V> {
    type V = Seq<(String, V)>;

    closed spec fn view(&self) -> Seq<(String, V)> {
        self.entries@
    }
}

impl<V> Table<V> {
    /// Every key names at most one entry.
    pub open spec fn wf(&self) -> bool {
        unique_keys(self@)
    }

    /// The value currently bound to `k`, if any.
    pub open spec fn spec_get(&self, k: Seq<char>) -> Option<V> {
        keyed_lookup(self@, k)
    }

    pub open spec fn contains_key(&self, k: Seq<char>) -> bool {
        self.spec_get(k) is Some
    }

    pub fn new() -> (t: Self)
        ensures
            t@ =~= Seq::<(String, V)>::empty(),
            t.wf(),
    {
        Table { entries: Vec::new() }
    }

    fn find(&self, k: &String) -> (r: Option<usize>)
        ensures
            match r {
                Some(i) => i < self@.len() && self@[i as int].0@ == k@ && (forall|j: int|
                    0 <= j < i ==> self@[j].0@ != k@),
                None => forall|j: int| 0 <= j < self@.len() ==> self@[j].0@ != k@,
            },
    {
        let n = self.entries.len();
        let mut i: usize = 0;
        while i < n
            invariant
                n == self@.len(),
                i <= n,
                forall|j: int| 0 <= j < i ==> self@[j].0@ != k@,
            decreases n - i,
        {
            let e = &self.entries[i];
            if e.0 == *k {
                return Some(i);
            }
            i = i + 1;
        }
        None
    }

    pub fn get(&self, k: &String) -> (r: Option<&V>)
        ensures
            match r {
                Some(v) => self.spec_get(k@) == Some(*v),
                None => self.spec_get(k@) is None,
            },
    {
        match self.find(k) {
            Some(i) => {
                proof {
                    lemma_lookup_first_hit(self@, k@, i as int);
                }
                Some(&self.entries[i].1)
            },
            None => {
                proof {
                    lemma_lookup_none(self@, k@);
                }
                None
            },
        }
    }

    /// Insert-or-replace: afterwards `k` is bound to `v` and every other key
    /// is bound as before. A replaced entry keeps its position; a new entry
    /// goes to the end.
    pub fn put(&mut self, k: String, v: V)
        requires
            old(self).wf(),
        ensures
            final(self).wf(),
            final(self).spec_get(k@) == Some(v),
            forall|k2: Seq<char>|
                k2 != k@ ==> #[trigger] final(self).spec_get(k2) == old(self).spec_get(k2),
            old(self).contains_key(k@) ==> final(self)@.len() == old(self)@.len(),
            !old(self).contains_key(k@) ==> final(self)@ == old(self)@.push((k, v)),
            old(self).contains_key(k@) ==> exists|i: int|
                0 <= i < old(self)@.len() && old(self)@[i].0@ == k@
                    && final(self)@ == old(self)@.update(i, (k, v)),
            forall|j: int|
                0 <= j < old(self)@.len() && old(self)@[j].0@ != k@
                    ==> #[trigger] final(self)@[j] == old(self)@[j],
    {
        match self.find(&k) {
            Some(i) => {
                proof {
                    lemma_lookup_first_hit(self@, k@, i as int);
                    lemma_lookup_update(self@, i as int, (k, v));
                }
                self.entries[i] = (k, v);
                proof {
                    assert(self@ == old(self)@.update(i as int, (k, v)));
                    assert forall|x: int, y: int|
                        0 <= x < y < self@.len() implies self@[x].0@ != self@[y].0@ by {
                        assert(old(self)@[x].0@ != old(self)@[y].0@);
                    }
                }
            },
            None => {
                proof {
                    lemma_lookup_none(self@, k@);
                    lemma_lookup_push(self@, (k, v));
                }
                self.entries.push((k, v));
                proof {
                    assert forall|x: int, y: int|
                        0 <= x < y < self@.len() implies self@[x].0@ != self@[y].0@ by {
                        if y < self@.len() - 1 {
                            assert(old(self)@[x].0@ != old(self)@[y].0@);
                        }
                    }
                }
            },
        }
    }

    /// Remove the entry bound to `k`, if any: afterwards `k` is unbound and
    /// every other key is bound as before. Removing an absent key changes
    /// nothing.
    pub fn remove(&mut self, k: &String)
        requires
            old(self).wf(),
        ensures
            final(self).wf(),
            final(self).spec_get(k@) is None,
            forall|k2: Seq<char>|
                k2 != k@ ==> #[trigger] final(self).spec_get(k2) == old(self).spec_get(k2),
            !old(self).contains_key(k@) ==> final(self)@ == old(self)@,
            old(self).contains_key(k@) ==> exists|i: int|
                0 <= i < old(self)@.len() && old(self)@[i].0@ == k@
                    && final(self)@ == old(self)@.remove(i),
    {
        let _ = self.take(k);
    }

    /// Remove the entry bound to `k` and hand its value back.
    pub fn take(&mut self, k: &String) -> (r: Option<V>)
        requires
            old(self).wf(),
        ensures
            r == old(self).spec_get(k@),
            final(self).wf(),
            final(self).spec_get(k@) is None,
            forall|k2: Seq<char>|
                k2 != k@ ==> #[trigger] final(self).spec_get(k2) == old(self).spec_get(k2),
            !old(self).contains_key(k@) ==> final(self)@ == old(self)@,
            old(self).contains_key(k@) ==> exists|i: int|
                0 <= i < old(self)@.len() && old(self)@[i].0@ == k@
                    && final(self)@ == old(self)@.remove(i),
    {
        match self.find(k) {
            Some(i) => {
                proof {
                    lemma_lookup_first_hit(self@, k@, i as int);
                    lemma_lookup_remove_at(self@, i as int);
                }
                let e = self.entries.remove(i);
                proof {
                    assert(self@ == old(self)@.remove(i as int));
                    assert forall|x: int, y: int|
                        0 <= x < y < self@.len() implies self@[x].0@ != self@[y].0@ by {
                        let ox: int = if x < i { x } else { x + 1 };
                        let oy: int = if y < i { y } else { y + 1 };
                        assert(self@[x] == old(self)@[ox]);
                        assert(self@[y] == old(self)@[oy]);
                        assert(old(self)@[ox].0@ != old(self)@[oy].0@);
                    }
                }
                Some(e.1)
            },
            None => {
                proof {
                    lemma_lookup_none(self@, k@);
                }
                None
            },
        }
    }

    pub fn len(&self) -> (n: usize)
        ensures
            n == self@.len(),
    {
        self.entries.len()
    }

    pub fn at(&self, i: usize) -> (e: &(String, V))
        requires
            i < self@.len(),
        ensures
            *e == self@[i as int],
    {
        &self.entries[i]
    }
}

} // verus!
