//! The string-to-string extension fields that a frame header carries.
use vstd::prelude::*;

verus! {

/// The keys of a list of pairs, in order.
pub open spec fn key_seq(entries: Seq<(String, String)>) -> Seq<Seq<char>> {
    entries.map_values(|p: (String, String)| p.0@)
}

/// The map that a list of pairs with distinct keys stands for.
pub open spec fn pairs_view(entries: Seq<(String, String)>) -> Map<Seq<char>, Seq<char>> {
    Map::new(
        |k: Seq<char>| key_seq(entries).contains(k),
        |k: Seq<char>| entries[key_seq(entries).index_of(k)].1@,
    )
}

/// A mapping from string keys to string values, each key present once.
pub struct ExtFields {
    entries: Vec<(String, String)>,
}

impl View for ExtFields {
    type V = Map<Seq<char>, Seq<char>>;

    closed spec fn view(&self) -> Map<Seq<char>, Seq<char>> {
        pairs_view(self.entries@)
    }
}

proof fn lemma_view_at(entries: Seq<(String, String)>, i: int)
    requires
        key_seq(entries).no_duplicates(),
        0 <= i < entries.len(),
    ensures
        pairs_view(entries).contains_key(entries[i].0@),
        pairs_view(entries)[entries[i].0@] == entries[i].1@,
{
    let ks = key_seq(entries);
    assert(ks[i] == entries[i].0@);
    let j = ks.index_of(entries[i].0@);
    assert(0 <= j < ks.len() && ks[j] == entries[i].0@);
}

proof fn lemma_view_push(entries: Seq<(String, String)>, k: String, v: String)
    requires
        key_seq(entries).no_duplicates(),
        !key_seq(entries).contains(k@),
    ensures
        key_seq(entries.push((k, v))).no_duplicates(),
        pairs_view(entries.push((k, v))) == pairs_view(entries).insert(k@, v@),
{
    let e2 = entries.push((k, v));
    let ks = key_seq(entries);
    let ks2 = key_seq(e2);
    assert(ks2 =~= ks.push(k@));
    assert forall|x: Seq<char>| pairs_view(e2).contains_key(x) implies pairs_view(e2)[x]
        == pairs_view(entries).insert(k@, v@)[x] by {
        let j = ks2.index_of(x);
        assert(0 <= j < ks2.len() && ks2[j] == x);
        if x == k@ {
            assert(j == entries.len());
        } else {
            assert(ks[j] == x);
            lemma_view_at(entries, j);
        }
    }
    assert forall|x: Seq<char>| #[trigger]
        pairs_view(entries).insert(k@, v@).contains_key(x) implies pairs_view(e2).contains_key(
        x,
    ) by {
        if x != k@ {
            let j = ks.index_of(x);
            assert(ks2[j] == x);
        } else {
            assert(ks2[entries.len() as int] == x);
        }
    }
    assert(pairs_view(e2) =~= pairs_view(entries).insert(k@, v@));
}

proof fn lemma_view_update(entries: Seq<(String, String)>, i: int, v: String)
    requires
        key_seq(entries).no_duplicates(),
        0 <= i < entries.len(),
    ensures
        key_seq(entries.update(i, (entries[i].0, v))) == key_seq(entries),
        pairs_view(entries.update(i, (entries[i].0, v))) == pairs_view(entries).insert(
            entries[i].0@,
            v@,
        ),
{
    let k = entries[i].0;
    let e2 = entries.update(i, (k, v));
    let ks = key_seq(entries);
    assert(key_seq(e2) =~= ks);
    lemma_view_at(entries, i);
    assert forall|x: Seq<char>| pairs_view(e2).contains_key(x) implies pairs_view(e2)[x]
        == pairs_view(entries).insert(k@, v@)[x] by {
        let j = ks.index_of(x);
        assert(0 <= j < ks.len() && ks[j] == x);
        if x == k@ {
            assert(ks[i] == k@);
            assert(j == i);
        } else {
            lemma_view_at(entries, j);
        }
    }
    assert(pairs_view(e2) =~= pairs_view(entries).insert(k@, v@));
}

impl ExtFields {
    /// Each key is present once.
    pub closed spec fn wf(&self) -> bool {
        key_seq(self.entries@).no_duplicates()
    }

    /// An empty mapping.
    pub fn new() -> (r: ExtFields)
        ensures
            r.wf(),
            r@ == Map::<Seq<char>, Seq<char>>::empty(),
    {
        let r = ExtFields { entries: Vec::new() };
        assert(r@ =~= Map::<Seq<char>, Seq<char>>::empty());
        r
    }

    /// The position of `key` among the entries, if it is there.
    fn find(&self, key: &String) -> (r: Option<usize>)
        requires
            self.wf(),
        ensures
            r matches Some(i) ==> i < self.entries@.len() && self.entries@[i as int].0@ == key@,
            r is None ==> !key_seq(self.entries@).contains(key@),
    {
        let mut i: usize = 0;
        while i < self.entries.len()
            invariant
                i <= self.entries@.len(),
                forall|j: int| 0 <= j < i ==> self.entries@[j].0@ != key@,
            decreases self.entries@.len() - i,
        {
            if self.entries[i].0 == *key {
                return Some(i);
            }
            i = i + 1;
        }
        assert forall|j: int| 0 <= j < key_seq(self.entries@).len() implies key_seq(
            self.entries@,
        )[j] != key@ by {}
        None
    }

    /// The number of keys.
    pub fn len(&self) -> (r: usize)
        requires
            self.wf(),
        ensures
            r == self@.len(),
    {
        proof {
            let ks = key_seq(self.entries@);
            ks.unique_seq_to_set();
            assert(self@.dom() =~= ks.to_set());
        }
        self.entries.len()
    }

    /// Whether no key is present.
    pub fn is_empty(&self) -> (r: bool)
        requires
            self.wf(),
        ensures
            r == (self@.len() == 0),
    {
        self.len() == 0
    }

    /// The value under `key`, if any.
    pub fn get(&self, key: &str) -> (r: Option<&String>)
        requires
            self.wf(),
        ensures
            r matches Some(v) ==> self@.contains_key(key@) && v@ == self@[key@],
            r is None ==> !self@.contains_key(key@),
    {
        let k = key.to_owned();
        match self.find(&k) {
            Some(i) => {
                proof {
                    lemma_view_at(self.entries@, i as int);
                }
                Some(&self.entries[i].1)
            },
            None => None,
        }
    }

    /// Sets `key` to `value`, replacing any value that the key had.
    pub fn insert(&mut self, key: String, value: String)
        requires
            old(self).wf(),
        ensures
            final(self).wf(),
            final(self)@ == old(self)@.insert(key@, value@),
    {
        match self.find(&key) {
            Some(i) => {
                proof {
                    lemma_view_update(self.entries@, i as int, value);
                }
                let k = self.entries[i].0.clone();
                self.entries.set(i, (k, value));
            },
            None => {
                proof {
                    lemma_view_push(self.entries@, key, value);
                }
                self.entries.push((key, value));
            },
        }
    }

    /// Copies every entry of `other` into this mapping; on a shared key the
    /// value of `other` wins.
    pub fn extend(&mut self, other: &ExtFields)
        requires
            old(self).wf(),
            other.wf(),
        ensures
            final(self).wf(),
            final(self)@ == old(self)@.union_prefer_right(other@),
    {
        let ghost start = self@;
        let mut i: usize = 0;
        while i < other.entries.len()
            invariant
                i <= other.entries@.len(),
                key_seq(other.entries@).no_duplicates(),
                self.wf(),
                self@ == start.union_prefer_right(pairs_view(other.entries@.take(i as int))),
            decreases other.entries@.len() - i,
        {
            let k = other.entries[i].0.clone();
            let v = other.entries[i].1.clone();
            proof {
                let t = other.entries@.take(i as int);
                let t2 = other.entries@.take(i as int + 1);
                assert(t2 =~= t.push(other.entries@[i as int]));
                assert(key_seq(t2) =~= key_seq(other.entries@).take(i as int + 1));
                assert(key_seq(t) =~= key_seq(other.entries@).take(i as int));
                assert(!key_seq(t).contains(k@)) by {
                    if key_seq(t).contains(k@) {
                        let j = key_seq(t).index_of(k@);
                        assert(key_seq(other.entries@)[j] == key_seq(other.entries@)[i as int]);
                    }
                }
                lemma_view_push(t, k, v);
                assert(t.push((k, v)) == t2);
                assert(start.union_prefer_right(pairs_view(t2)) =~= start.union_prefer_right(
                    pairs_view(t),
                ).insert(k@, v@));
            }
            self.insert(k, v);
            i = i + 1;
        }
        assert(other.entries@.take(i as int) =~= other.entries@);
    }

    /// The entries, each key once, in no particular order.
    pub fn pairs(&self) -> (r: &Vec<(String, String)>)
        requires
            self.wf(),
        ensures
            r@.len() == self@.len(),
            forall|i: int|
                0 <= i < r@.len() ==> self@.contains_key(#[trigger] r@[i].0@) && self@[r@[i].0@]
                    == r@[i].1@,
            forall|k: Seq<char>| #[trigger]
                self@.contains_key(k) ==> exists|i: int| 0 <= i < r@.len() && r@[i].0@ == k,
    {
        proof {
            assert forall|i: int| 0 <= i < self.entries@.len() implies self@.contains_key(
                #[trigger] self.entries@[i].0@,
            ) && self@[self.entries@[i].0@] == self.entries@[i].1@ by {
                lemma_view_at(self.entries@, i);
            }
            assert forall|k: Seq<char>| #[trigger] self@.contains_key(k) implies exists|i: int|
                0 <= i < self.entries@.len() && self.entries@[i].0@ == k by {
                let j = key_seq(self.entries@).index_of(k);
                assert(key_seq(self.entries@)[j] == k);
            }
        }
        proof {
            let ks = key_seq(self.entries@);
            ks.unique_seq_to_set();
            assert(self@.dom() =~= ks.to_set());
        }
        &self.entries
    }
}

} // verus!
