use vstd::prelude::*;

verus! {

/// The last-wins reading of an association list as a map: a later
/// pair with the same key overrides an earlier one.
pub open spec fn map_of_pairs(pairs: Seq<(Seq<char>, Seq<char>)>) -> Map<Seq<char>, Seq<char>>
    decreases pairs.len(),
{
    if pairs.len() == 0 {
        Map::empty()
    } else {
        map_of_pairs(pairs.drop_last()).insert(pairs.last().0, pairs.last().1)
    }
}

/// No two pairs of the list share a key.
pub open spec fn keys_unique(pairs: Seq<(Seq<char>, Seq<char>)>) -> bool {
    forall|i: int, j: int| 0 <= i < j < pairs.len() ==> pairs[i].0 != pairs[j].0
}

/// A key is in the map's domain exactly when some pair lists it.
proof fn lemma_map_of_pairs_dom(pairs: Seq<(Seq<char>, Seq<char>)>, k: Seq<char>)
    ensures
        map_of_pairs(pairs).dom().contains(k) <==> exists|i: int|
            0 <= i < pairs.len() && pairs[i].0 == k,
    decreases pairs.len(),
{
    if pairs.len() > 0 {
        lemma_map_of_pairs_dom(pairs.drop_last(), k);
        if pairs.last().0 == k {
            assert(pairs[pairs.len() - 1].0 == k);
        } else {
            if exists|i: int| 0 <= i < pairs.len() && pairs[i].0 == k {
                let i = choose|i: int| 0 <= i < pairs.len() && pairs[i].0 == k;
                assert(pairs.drop_last()[i].0 == k);
            }
        }
    }
}

/// With unique keys, the map sends each listed key to its listed value.
proof fn lemma_map_of_pairs_get(pairs: Seq<(Seq<char>, Seq<char>)>, i: int)
    requires
        keys_unique(pairs),
        0 <= i < pairs.len(),
    ensures
        map_of_pairs(pairs).dom().contains(pairs[i].0),
        map_of_pairs(pairs)[pairs[i].0] == pairs[i].1,
    decreases pairs.len(),
{
    if i < pairs.len() - 1 {
        assert(pairs.drop_last()[i] == pairs[i]);
        lemma_map_of_pairs_get(pairs.drop_last(), i);
        assert(pairs.last().0 != pairs[i].0);
    }
}

/// Replacing the value of a listed key reads back as a map insert.
proof fn lemma_map_of_pairs_update(pairs: Seq<(Seq<char>, Seq<char>)>, i: int, v: Seq<char>)
    requires
        keys_unique(pairs),
        0 <= i < pairs.len(),
    ensures
        map_of_pairs(pairs.update(i, (pairs[i].0, v))) == map_of_pairs(pairs).insert(
            pairs[i].0,
            v,
        ),
    decreases pairs.len(),
{
    let k = pairs[i].0;
    let updated = pairs.update(i, (k, v));
    if i == pairs.len() - 1 {
        assert(updated.drop_last() =~= pairs.drop_last());
        assert(updated.last() == (k, v));
        assert(map_of_pairs(pairs.drop_last()).insert(k, pairs.last().1).insert(k, v)
            =~= map_of_pairs(pairs.drop_last()).insert(k, v));
    } else {
        assert(updated.drop_last() =~= pairs.drop_last().update(i, (k, v)));
        assert(updated.last() == pairs.last());
        assert(pairs.drop_last()[i] == pairs[i]);
        lemma_map_of_pairs_update(pairs.drop_last(), i, v);
        let last = pairs.last();
        assert(last.0 != k);
        assert(map_of_pairs(pairs.drop_last()).insert(k, v).insert(last.0, last.1)
            =~= map_of_pairs(pairs.drop_last()).insert(last.0, last.1).insert(k, v));
    }
}

/// With unique keys, the map has exactly one entry per pair.
proof fn lemma_map_of_pairs_len(pairs: Seq<(Seq<char>, Seq<char>)>)
    requires
        keys_unique(pairs),
    ensures
        map_of_pairs(pairs).dom().finite(),
        map_of_pairs(pairs).dom().len() == pairs.len(),
    decreases pairs.len(),
{
    broadcast use vstd::set::axiom_set_insert_len;

    if pairs.len() > 0 {
        lemma_map_of_pairs_len(pairs.drop_last());
        lemma_map_of_pairs_dom(pairs.drop_last(), pairs.last().0);
        assert(forall|j: int| 0 <= j < pairs.len() - 1 ==> pairs.drop_last()[j] == pairs[j]);
        assert(!map_of_pairs(pairs.drop_last()).dom().contains(pairs.last().0));
    }
}

/// Mapping from a browser profile's display name to its on-disk
/// directory identifier (e.g. "Profile 3"), as discovered by the
/// profile scan.
pub struct ProfileMap {
    pairs: Vec<(String, String)>,
}

impl View for ProfileMap {
    type V = Map<Seq<char>, Seq<char>>;

    closed spec fn view(&self) -> Map<Seq<char>, Seq<char>> {
        map_of_pairs(self.pairs.deep_view())
    }
}

impl ProfileMap {
    /// Each display name occurs at most once in the backing list.
    pub closed spec fn wf(&self) -> bool {
        keys_unique(self.pairs.deep_view())
    }

    /// An empty mapping.
    pub fn new() -> (r: ProfileMap)
        ensures
            r@ == Map::<Seq<char>, Seq<char>>::empty(),
            r.wf(),
    {
        let r = ProfileMap { pairs: Vec::new() };
        proof {
            assert(r.pairs.deep_view() =~= Seq::<(Seq<char>, Seq<char>)>::empty());
        }
        r
    }

    /// Add an entry; an entry already present under the same display
    /// name is overwritten.
    pub fn insert(&mut self, name: String, dir: String)
        requires
            old(self).wf(),
        ensures
            final(self)@ == old(self)@.insert(name@, dir@),
            final(self).wf(),
    {
        let n = self.pairs.len();
        let mut i: usize = 0;
        let mut found: Option<usize> = None;
        while i < n
            invariant
                *self == *old(self),
                n == self.pairs.len(),
                i <= n,
                match found {
                    Some(k) => k < i && self.pairs.deep_view()[k as int].0 == name@,
                    None => forall|j: int| 0 <= j < i ==> self.pairs.deep_view()[j].0 != name@,
                },
            decreases n - i,
        {
            if found.is_none() && self.pairs[i].0 == name {
                found = Some(i);
            }
            i += 1;
        }
        let ghost before = self.pairs.deep_view();
        match found {
            Some(k) => {
                self.pairs[k] = (name, dir);
                proof {
                    assert(self.pairs.deep_view() =~= before.update(k as int, (name@, dir@)));
                    lemma_map_of_pairs_update(before, k as int, dir@);
                    assert(forall|a: int, b: int|
                        0 <= a < b < self.pairs.deep_view().len() ==> self.pairs.deep_view()[a].0
                            != self.pairs.deep_view()[b].0);
                }
            },
            None => {
                self.pairs.push((name, dir));
                proof {
                    assert(self.pairs.deep_view() =~= before.push((name@, dir@)));
                    assert(self.pairs.deep_view().drop_last() =~= before);
                }
            },
        }
    }

    /// Look a display name up, returning the directory identifier the
    /// most recent insert recorded for it.
    pub fn get(&self, name: &String) -> (r: Option<&String>)
        requires
            self.wf(),
        ensures
            match r {
                Some(dir) => self@.dom().contains(name@) && dir@ == self@[name@],
                None => !self@.dom().contains(name@),
            },
    {
        let mut i: usize = 0;
        while i < self.pairs.len()
            invariant
                self.wf(),
                i <= self.pairs.len(),
                forall|j: int| 0 <= j < i ==> self.pairs.deep_view()[j].0 != name@,
            decreases self.pairs.len() - i,
        {
            if self.pairs[i].0 == *name {
                proof {
                    lemma_map_of_pairs_get(self.pairs.deep_view(), i as int);
                }
                return Some(&self.pairs[i].1);
            }
            i += 1;
        }
        proof {
            lemma_map_of_pairs_dom(self.pairs.deep_view(), name@);
        }
        None
    }

    /// The number of display names the mapping holds.
    pub fn len(&self) -> (r: usize)
        requires
            self.wf(),
        ensures
            self@.dom().finite(),
            r == self@.dom().len(),
    {
        proof {
            lemma_map_of_pairs_len(self.pairs.deep_view());
        }
        self.pairs.len()
    }
}

} // verus!
