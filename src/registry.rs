use vstd::prelude::*;

verus! {

/// A store keyed by string ids, one value per key, kept in insertion order.
#[derive(Debug)]
pub struct Registry<V> {
    pub(crate) entries: Vec<(String, V)>,
}

/// No key occurs twice.
pub open spec fn keys_unique<V>(s: Seq<(String, V)>) -> bool {
    forall|i: int, j: int| 0 <= i < j < s.len() ==> s[i].0@ != s[j].0@
}

/// The entries as a map from key text to value.
pub open spec fn map_of<V>(s: Seq<(String, V)>) -> Map<Seq<char>, V> {
    Map::new(
        |k: Seq<char>| exists|i: int| 0 <= i < s.len() && s[i].0@ == k,
        |k: Seq<char>| s[choose|i: int| 0 <= i < s.len() && s[i].0@ == k].1,
    )
}

/// `after` is `before` with `value` stored under `key`: in place where the
/// key was already present, else at the end.
pub open spec fn entries_inserted<V>(
    before: Seq<(String, V)>,
    after: Seq<(String, V)>,
    key: String,
    value: V,
) -> bool {
    if exists|i: int| 0 <= i < before.len() && #[trigger] before[i].0@ == key@ {
        exists|i: int|
            0 <= i < before.len() && #[trigger] before[i].0@ == key@ && after == before.update(
                i,
                (key, value),
            )
    } else {
        after == before.push((key, value))
    }
}

pub(crate) proof fn lemma_map_of_at<V>(s: Seq<(String, V)>, i: int)
    requires
        keys_unique(s),
        0 <= i < s.len(),
    ensures
        map_of(s).dom().contains(s[i].0@),
        map_of(s)[s[i].0@] == s[i].1,
{
    let k = s[i].0@;
    assert(exists|j: int| 0 <= j < s.len() && s[j].0@ == k);
    let j = choose|j: int| 0 <= j < s.len() && s[j].0@ == k;
    assert(j == i);
}

pub(crate) proof fn lemma_map_of_update<V>(s: Seq<(String, V)>, i: int, key: String, v: V)
    requires
        keys_unique(s),
        0 <= i < s.len(),
        s[i].0@ == key@,
    ensures
        keys_unique(s.update(i, (key, v))),
        map_of(s.update(i, (key, v))) == map_of(s).insert(key@, v),
{
    let t = s.update(i, (key, v));
    assert forall|k: Seq<char>| #[trigger] map_of(t).dom().contains(k) == map_of(s).insert(key@, v).dom().contains(k) by {
        if map_of(s).dom().contains(k) {
            let j = choose|j: int| 0 <= j < s.len() && s[j].0@ == k;
            assert(t[j].0@ == k);
        }
        if map_of(t).dom().contains(k) {
            let j = choose|j: int| 0 <= j < t.len() && t[j].0@ == k;
            assert(s[j].0@ == k);
        }
    }
    assert forall|k: Seq<char>| #[trigger] map_of(t).dom().contains(k) implies map_of(t)[k] == map_of(s).insert(key@, v)[k] by {
        let j = choose|j: int| 0 <= j < t.len() && t[j].0@ == k;
        lemma_map_of_at(t, j);
        if j != i {
            lemma_map_of_at(s, j);
        }
    }
    assert(map_of(t) =~= map_of(s).insert(key@, v));
}

pub(crate) proof fn lemma_map_of_push<V>(s: Seq<(String, V)>, key: String, v: V)
    requires
        keys_unique(s),
        !map_of(s).dom().contains(key@),
    ensures
        keys_unique(s.push((key, v))),
        map_of(s.push((key, v))) == map_of(s).insert(key@, v),
{
    let t = s.push((key, v));
    assert forall|i: int, j: int| 0 <= i < j < t.len() implies t[i].0@ != t[j].0@ by {
        if j == s.len() {
            assert(s[i].0@ == t[i].0@);
        }
    }
    assert forall|k: Seq<char>| #[trigger] map_of(t).dom().contains(k) == map_of(s).insert(key@, v).dom().contains(k) by {
        if map_of(s).dom().contains(k) {
            let j = choose|j: int| 0 <= j < s.len() && s[j].0@ == k;
            assert(t[j].0@ == k);
        }
        if k == key@ {
            assert(t[s.len() as int].0@ == k);
        }
        if map_of(t).dom().contains(k) && k != key@ {
            let j = choose|j: int| 0 <= j < t.len() && t[j].0@ == k;
            assert(s[j].0@ == k);
        }
    }
    assert forall|k: Seq<char>| #[trigger] map_of(t).dom().contains(k) implies map_of(t)[k] == map_of(s).insert(key@, v)[k] by {
        let j = choose|j: int| 0 <= j < t.len() && t[j].0@ == k;
        lemma_map_of_at(t, j);
        if j < s.len() {
            lemma_map_of_at(s, j);
        }
    }
    assert(map_of(t) =~= map_of(s).insert(key@, v));
}

pub(crate) proof fn lemma_map_of_remove<V>(s: Seq<(String, V)>, i: int)
    requires
        keys_unique(s),
        0 <= i < s.len(),
    ensures
        keys_unique(s.remove(i)),
        map_of(s.remove(i)) == map_of(s).remove(s[i].0@),
{
    let t = s.remove(i);
    let key = s[i].0@;
    assert forall|a: int, b: int| 0 <= a < b < t.len() implies t[a].0@ != t[b].0@ by {
        let a0 = if a < i { a } else { a + 1 };
        let b0 = if b < i { b } else { b + 1 };
        assert(t[a] == s[a0] && t[b] == s[b0]);
    }
    assert forall|k: Seq<char>| #[trigger] map_of(t).dom().contains(k) == map_of(s).remove(key).dom().contains(k) by {
        if map_of(s).dom().contains(k) && k != key {
            let j = choose|j: int| 0 <= j < s.len() && s[j].0@ == k;
            let j2 = if j < i { j } else { j - 1 };
            assert(t[j2].0@ == k);
        }
        if map_of(t).dom().contains(k) {
            let j = choose|j: int| 0 <= j < t.len() && t[j].0@ == k;
            let j0 = if j < i { j } else { j + 1 };
            assert(s[j0].0@ == k);
        }
    }
    assert forall|k: Seq<char>| #[trigger] map_of(t).dom().contains(k) implies map_of(t)[k] == map_of(s).remove(key)[k] by {
        let j = choose|j: int| 0 <= j < t.len() && t[j].0@ == k;
        let j0 = if j < i { j } else { j + 1 };
        lemma_map_of_at(t, j);
        lemma_map_of_at(s, j0);
    }
    assert(map_of(t) =~= map_of(s).remove(key));
}

pub(crate) proof fn lemma_map_of_len<V>(s: Seq<(String, V)>)
    requires
        keys_unique(s),
    ensures
        map_of(s).dom().finite(),
        map_of(s).len() == s.len(),
    decreases s.len(),
{
    if s.len() == 0 {
        assert(map_of(s).dom() =~= Set::<Seq<char>>::empty());
    } else {
        let p = s.drop_last();
        let last = s[s.len() - 1];
        assert(keys_unique(p));
        lemma_map_of_len(p);
        assert(!map_of(p).dom().contains(last.0@)) by {
            if map_of(p).dom().contains(last.0@) {
                let j = choose|j: int| 0 <= j < p.len() && p[j].0@ == last.0@;
                assert(s[j].0@ == s[s.len() - 1].0@);
            }
        }
        lemma_map_of_push(p, last.0, last.1);
        assert(p.push((last.0, last.1)) =~= s);
    }
}

impl<V> Registry<V> {
    /// Keys are unique.
    pub open(crate) spec fn wf(&self) -> bool {
        keys_unique(self.entries@)
    }

    /// What the registry holds, by key.
    pub open(crate) spec fn view(&self) -> Map<Seq<char>, V> {
        map_of(self.entries@)
    }

    /// The entries in insertion order.
    pub open(crate) spec fn entries_view(&self) -> Seq<(String, V)> {
        self.entries@
    }

    pub fn new() -> (r: Self)
        ensures
            r.wf(),
            r@ == Map::<Seq<char>, V>::empty(),
            r.entries_view() == Seq::<(String, V)>::empty(),
    {
        let r = Registry { entries: Vec::new() };
        assert(r@ =~= Map::<Seq<char>, V>::empty());
        assert(r.entries@ =~= Seq::<(String, V)>::empty());
        r
    }

    /// The position of `key`, if present.
    pub(crate) fn index_of(&self, key: &str) -> (r: Option<usize>)
        requires
            self.wf(),
        ensures
            r.is_none() <==> !self@.dom().contains(key@),
            r matches Some(i) ==> i < self.entries_view().len() && self.entries_view()[i as int].0@ == key@,
    {
        let wanted: String = key.to_owned();
        let mut i: usize = 0;
        while i < self.entries.len()
            invariant
                self.wf(),
                wanted@ == key@,
                0 <= i <= self.entries@.len(),
                forall|j: int| 0 <= j < i ==> self.entries@[j].0@ != key@,
            decreases self.entries@.len() - i,
        {
            if self.entries[i].0 == wanted {
                proof {
                    lemma_map_of_at(self.entries@, i as int);
                }
                return Some(i);
            }
            i = i + 1;
        }
        None
    }

    /// Whether `key` is present.
    pub fn contains_key(&self, key: &str) -> (r: bool)
        requires
            self.wf(),
        ensures
            r == self@.dom().contains(key@),
    {
        self.index_of(key).is_some()
    }

    /// The value under `key`, if present.
    pub fn get(&self, key: &str) -> (r: Option<&V>)
        requires
            self.wf(),
        ensures
            r.is_none() <==> !self@.dom().contains(key@),
            r matches Some(v) ==> *v == self@[key@],
    {
        match self.index_of(key) {
            Some(i) => {
                proof {
                    lemma_map_of_at(self.entries@, i as int);
                }
                Some(&self.entries[i].1)
            },
            None => None,
        }
    }

    /// Stores `value` under `key`, replacing what was there.
    pub fn insert(&mut self, key: String, value: V)
        requires
            old(self).wf(),
        ensures
            final(self).wf(),
            final(self)@ == old(self)@.insert(key@, value),
            entries_inserted(old(self).entries_view(), final(self).entries_view(), key, value),
    {
        match self.index_of(key.as_str()) {
            Some(i) => {
                proof {
                    lemma_map_of_update(self.entries@, i as int, key, value);
                }
                self.entries.set(i, (key, value));
            },
            None => {
                proof {
                    lemma_map_of_push(self.entries@, key, value);
                    if exists|i: int| 0 <= i < self.entries@.len() && #[trigger] self.entries@[i].0@ == key@ {
                        let i = choose|i: int| 0 <= i < self.entries@.len() && #[trigger] self.entries@[i].0@ == key@;
                        lemma_map_of_at(self.entries@, i);
                    }
                }
                self.entries.push((key, value));
            },
        }
    }

    /// Drops the entry under `key`, if any, keeping the others in order.
    pub fn remove(&mut self, key: &str)
        requires
            old(self).wf(),
        ensures
            final(self).wf(),
            final(self)@ == old(self)@.remove(key@),
            !old(self)@.dom().contains(key@) ==> final(self).entries_view() == old(
                self,
            ).entries_view(),
            old(self)@.dom().contains(key@) ==> exists|i: int|
                0 <= i < old(self).entries_view().len() && #[trigger] old(
                    self,
                ).entries_view()[i].0@ == key@ && final(self).entries_view() == old(
                    self,
                ).entries_view().remove(i),
    {
        match self.index_of(key) {
            Some(i) => {
                proof {
                    lemma_map_of_remove(self.entries@, i as int);
                }
                self.entries.remove(i);
            },
            None => {
                assert(self@.remove(key@) =~= self@);
            },
        }
    }

    /// How many keys are stored.
    pub fn len(&self) -> (r: usize)
        requires
            self.wf(),
        ensures
            r == self@.len(),
            r == self.entries_view().len(),
    {
        proof {
            lemma_map_of_len(self.entries@);
        }
        self.entries.len()
    }
}

} // verus!
