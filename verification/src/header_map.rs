//! A string-keyed map of header values, held as a list of pairs with
//! distinct keys.
use vstd::prelude::*;

verus! {

/// Header keys and their values, each key at most once.
pub struct HeaderMap {
    entries: Vec<(String, String)>,
}

/// The key of a pair, as characters.
pub open spec fn pair_key(p: (String, String)) -> Seq<char> {
    p.0@
}

/// The value of a pair, as characters.
pub open spec fn pair_value(p: (String, String)) -> Seq<char> {
    p.1@
}

/// No key occurs twice among `entries`.
pub open spec fn keys_distinct(entries: Seq<(String, String)>) -> bool {
    forall|i: int, j: int|
        0 <= i < entries.len() && 0 <= j < entries.len() && i != j ==> pair_key(
            #[trigger] entries[i],
        ) != pair_key(#[trigger] entries[j])
}

/// Whether `k` is the key of some pair of `entries`.
pub open spec fn has_key(entries: Seq<(String, String)>, k: Seq<char>) -> bool {
    exists|i: int| 0 <= i < entries.len() && pair_key(#[trigger] entries[i]) == k
}

/// The index of the pair with key `k`.
pub open spec fn index_of_key(entries: Seq<(String, String)>, k: Seq<char>) -> int {
    choose|i: int| 0 <= i < entries.len() && pair_key(#[trigger] entries[i]) == k
}

/// The map that a list of pairs with distinct keys stands for.
pub open spec fn pairs_map(entries: Seq<(String, String)>) -> Map<Seq<char>, Seq<char>> {
    Map::new(
        |k: Seq<char>| has_key(entries, k),
        |k: Seq<char>| pair_value(entries[index_of_key(entries, k)]),
    )
}

impl View for HeaderMap {
    type V = Map<Seq<char>, Seq<char>>;

    closed spec fn view(&self) -> Map<Seq<char>, Seq<char>> {
        pairs_map(self.entries@)
    }
}

proof fn lemma_index_unique(entries: Seq<(String, String)>, i: int)
    requires
        keys_distinct(entries),
        0 <= i < entries.len(),
    ensures
        has_key(entries, pair_key(entries[i])),
        index_of_key(entries, pair_key(entries[i])) == i,
{
    let k = pair_key(entries[i]);
    assert(has_key(entries, k));
}

impl HeaderMap {
    /// Keys are distinct.
    #[verifier::type_invariant]
    spec fn well_formed(self) -> bool {
        keys_distinct(self.entries@)
    }

    /// The pairs, in insertion order.
    pub closed spec fn pairs(self) -> Seq<(String, String)> {
        self.entries@
    }

    /// An empty map.
    pub fn new() -> (m: Self)
        ensures
            m@ == Map::<Seq<char>, Seq<char>>::empty(),
            m.pairs().len() == 0,
    {
        let m = HeaderMap { entries: Vec::new() };
        assert(m@ =~= Map::<Seq<char>, Seq<char>>::empty());
        m
    }

    /// Sets `key` to `value`, replacing any earlier value of `key`.
    pub fn insert(&mut self, key: String, value: String)
        ensures
            final(self)@ == old(self)@.insert(key@, value@),
    {
        proof {
            use_type_invariant(&*self);
        }
        let ghost old_entries = self.entries@;
        let mut i: usize = 0;
        while i < self.entries.len()
            invariant
                i <= self.entries@.len(),
                self.entries@ == old_entries,
                old_entries == old(self).entries@,
                keys_distinct(old_entries),
                forall|j: int| 0 <= j < i ==> pair_key(#[trigger] old_entries[j]) != key@,
            decreases self.entries.len() - i,
        {
            if self.entries[i].0 == key {
                let ghost k = key@;
                let ghost v = value@;
                let mut entries: Vec<(String, String)> = Vec::new();
                std::mem::swap(&mut entries, &mut self.entries);
                entries.set(i, (key, value));
                proof {
                    let e = entries@;
                    assert(e == old_entries.update(i as int, e[i as int]));
                    assert(keys_distinct(e)) by {
                        assert forall|a: int, b: int|
                            0 <= a < e.len() && 0 <= b < e.len() && a != b implies pair_key(
                            #[trigger] e[a],
                        ) != pair_key(#[trigger] e[b]) by {
                            if a != i && b != i {
                                assert(e[a] == old_entries[a]);
                                assert(e[b] == old_entries[b]);
                            } else if a == i {
                                assert(e[b] == old_entries[b]);
                                assert(pair_key(old_entries[i as int]) == k);
                            } else {
                                assert(e[a] == old_entries[a]);
                                assert(pair_key(old_entries[i as int]) == k);
                            }
                        }
                    }
                    assert(pairs_map(e) =~= pairs_map(old_entries).insert(k, v)) by {
                        lemma_index_unique(old_entries, i as int);
                        lemma_index_unique(e, i as int);
                        assert forall|q: Seq<char>| #[trigger]
                            pairs_map(e).dom().contains(q) == pairs_map(old_entries).insert(
                                k,
                                v,
                            ).dom().contains(q) by {
                            if has_key(e, q) {
                                let j = choose|j: int|
                                    0 <= j < e.len() && pair_key(#[trigger] e[j]) == q;
                                if j != i {
                                    assert(pair_key(old_entries[j]) == q);
                                }
                            }
                            if has_key(old_entries, q) {
                                let j = choose|j: int|
                                    0 <= j < old_entries.len() && pair_key(
                                        #[trigger] old_entries[j],
                                    ) == q;
                                if j != i {
                                    assert(pair_key(e[j]) == q);
                                }
                            }
                        }
                        assert forall|q: Seq<char>| #[trigger]
                            pairs_map(e).dom().contains(q) implies pairs_map(e)[q] == pairs_map(
                            old_entries,
                        ).insert(k, v)[q] by {
                            let j = choose|j: int|
                                0 <= j < e.len() && pair_key(#[trigger] e[j]) == q;
                            lemma_index_unique(e, j);
                            if j != i {
                                assert(e[j] == old_entries[j]);
                                lemma_index_unique(old_entries, j);
                            }
                        }
                    }
                }
                self.entries = entries;
                return ;
            }
            i = i + 1;
        }
        let ghost k = key@;
        let ghost v = value@;
        let mut entries: Vec<(String, String)> = Vec::new();
        std::mem::swap(&mut entries, &mut self.entries);
        entries.push((key, value));
        proof {
            let e = entries@;
            let n = old_entries.len() as int;
            assert(e == old_entries.push(e[n]));
            assert(keys_distinct(e)) by {
                assert forall|a: int, b: int|
                    0 <= a < e.len() && 0 <= b < e.len() && a != b implies pair_key(
                    #[trigger] e[a],
                ) != pair_key(#[trigger] e[b]) by {
                    if a < n && b < n {
                        assert(e[a] == old_entries[a]);
                        assert(e[b] == old_entries[b]);
                    } else if a == n {
                        assert(e[b] == old_entries[b]);
                    } else {
                        assert(e[a] == old_entries[a]);
                    }
                }
            }
            assert(pairs_map(e) =~= pairs_map(old_entries).insert(k, v)) by {
                lemma_index_unique(e, n);
                assert forall|q: Seq<char>| #[trigger]
                    pairs_map(e).dom().contains(q) == pairs_map(old_entries).insert(
                        k,
                        v,
                    ).dom().contains(q) by {
                    if has_key(e, q) {
                        let j = choose|j: int| 0 <= j < e.len() && pair_key(#[trigger] e[j]) == q;
                        if j != n {
                            assert(pair_key(old_entries[j]) == q);
                        }
                    }
                    if has_key(old_entries, q) {
                        let j = choose|j: int|
                            0 <= j < old_entries.len() && pair_key(#[trigger] old_entries[j]) == q;
                        assert(pair_key(e[j]) == q);
                    }
                }
                assert forall|q: Seq<char>| #[trigger]
                    pairs_map(e).dom().contains(q) implies pairs_map(e)[q] == pairs_map(
                    old_entries,
                ).insert(k, v)[q] by {
                    let j = choose|j: int| 0 <= j < e.len() && pair_key(#[trigger] e[j]) == q;
                    lemma_index_unique(e, j);
                    if j != n {
                        assert(e[j] == old_entries[j]);
                        lemma_index_unique(old_entries, j);
                    }
                }
            }
        }
        self.entries = entries;
    }

    /// The value of `key`, if the map holds it.
    pub fn get(&self, key: &str) -> (r: Option<String>)
        ensures
            r matches Some(v) ==> self@.contains_key(key@) && v@ == self@[key@],
            r is None ==> !self@.contains_key(key@),
    {
        proof {
            use_type_invariant(self);
        }
        let k = String::from_str(key);
        let mut i: usize = 0;
        while i < self.entries.len()
            invariant
                i <= self.entries@.len(),
                keys_distinct(self.entries@),
                k@ == key@,
                forall|j: int| 0 <= j < i ==> pair_key(#[trigger] self.entries@[j]) != key@,
            decreases self.entries.len() - i,
        {
            if self.entries[i].0 == k {
                proof {
                    lemma_index_unique(self.entries@, i as int);
                }
                return Some(self.entries[i].1.clone());
            }
            i = i + 1;
        }
        None
    }

    /// The number of keys.
    pub fn len(&self) -> (n: usize)
        ensures
            n == self@.len(),
    {
        proof {
            use_type_invariant(self);
            lemma_pairs_map_len(self.entries@);
        }
        self.entries.len()
    }

    /// The pairs, each key once, in the order the keys were first inserted.
    pub fn entries(&self) -> (e: &Vec<(String, String)>)
        ensures
            e@ == self.pairs(),
            keys_distinct(e@),
            pairs_map(e@) == self@,
    {
        proof {
            use_type_invariant(self);
        }
        &self.entries
    }
}

proof fn lemma_pairs_map_len(entries: Seq<(String, String)>)
    requires
        keys_distinct(entries),
    ensures
        pairs_map(entries).dom().finite(),
        pairs_map(entries).len() == entries.len(),
    decreases entries.len(),
{
    let m = pairs_map(entries);
    if entries.len() == 0 {
        assert(m.dom() =~= Set::empty());
    } else {
        let n = entries.len() - 1;
        let rest = entries.drop_last();
        assert(keys_distinct(rest)) by {
            assert forall|a: int, b: int|
                0 <= a < rest.len() && 0 <= b < rest.len() && a != b implies pair_key(
                #[trigger] rest[a],
            ) != pair_key(#[trigger] rest[b]) by {
                assert(rest[a] == entries[a]);
                assert(rest[b] == entries[b]);
            }
        }
        lemma_pairs_map_len(rest);
        let k = pair_key(entries[n]);
        assert(!has_key(rest, k)) by {
            if has_key(rest, k) {
                let j = choose|j: int| 0 <= j < rest.len() && pair_key(#[trigger] rest[j]) == k;
                assert(rest[j] == entries[j]);
            }
        }
        assert(m.dom() =~= pairs_map(rest).dom().insert(k)) by {
            assert forall|q: Seq<char>| #[trigger] m.dom().contains(q) == pairs_map(
                rest,
            ).dom().insert(k).contains(q) by {
                if has_key(entries, q) {
                    let j = choose|j: int| 0 <= j < entries.len() && pair_key(#[trigger] entries[j]) == q;
                    if j != n {
                        assert(rest[j] == entries[j]);
                    }
                }
                if has_key(rest, q) {
                    let j = choose|j: int| 0 <= j < rest.len() && pair_key(#[trigger] rest[j]) == q;
                    assert(rest[j] == entries[j]);
                }
            }
        }
    }
}

/// The map of the first `i + 1` pairs is that of the first `i` with pair
/// `i` inserted.
proof fn lemma_pairs_map_take(entries: Seq<(String, String)>, i: int)
    requires
        keys_distinct(entries),
        0 <= i < entries.len(),
    ensures
        pairs_map(entries.take(i + 1)) == pairs_map(entries.take(i)).insert(
            pair_key(entries[i]),
            pair_value(entries[i]),
        ),
{
    let a = entries.take(i);
    let b = entries.take(i + 1);
    let k = pair_key(entries[i]);
    assert(keys_distinct(b)) by {
        assert forall|x: int, y: int|
            0 <= x < b.len() && 0 <= y < b.len() && x != y implies pair_key(#[trigger] b[x])
            != pair_key(#[trigger] b[y]) by {
            assert(b[x] == entries[x]);
            assert(b[y] == entries[y]);
        }
    }
    assert(keys_distinct(a)) by {
        assert forall|x: int, y: int|
            0 <= x < a.len() && 0 <= y < a.len() && x != y implies pair_key(#[trigger] a[x])
            != pair_key(#[trigger] a[y]) by {
            assert(a[x] == entries[x]);
            assert(a[y] == entries[y]);
        }
    }
    assert(pairs_map(b) =~= pairs_map(a).insert(k, pair_value(entries[i]))) by {
        lemma_index_unique(b, i);
        assert forall|q: Seq<char>| #[trigger]
            pairs_map(b).dom().contains(q) == pairs_map(a).insert(
                k,
                pair_value(entries[i]),
            ).dom().contains(q) by {
            if has_key(b, q) {
                let j = choose|j: int| 0 <= j < b.len() && pair_key(#[trigger] b[j]) == q;
                if j != i {
                    assert(a[j] == b[j]);
                }
            }
            if has_key(a, q) {
                let j = choose|j: int| 0 <= j < a.len() && pair_key(#[trigger] a[j]) == q;
                assert(b[j] == a[j]);
            }
        }
        assert forall|q: Seq<char>| #[trigger]
            pairs_map(b).dom().contains(q) implies pairs_map(b)[q] == pairs_map(a).insert(
            k,
            pair_value(entries[i]),
        )[q] by {
            let j = choose|j: int| 0 <= j < b.len() && pair_key(#[trigger] b[j]) == q;
            lemma_index_unique(b, j);
            if j != i {
                assert(a[j] == b[j]);
                lemma_index_unique(a, j);
            }
        }
    }
}

impl HeaderMap {
    /// Inserts every pair of `other`, its values replacing those of `self`
    /// under the same keys.
    pub fn extend_from(&mut self, other: &HeaderMap)
        ensures
            final(self)@ == old(self)@.union_prefer_right(other@),
    {
        let entries = other.entries();
        let ghost start = self@;
        let mut i: usize = 0;
        assert(entries@.take(0) =~= Seq::<(String, String)>::empty());
        assert(pairs_map(entries@.take(0)) =~= Map::<Seq<char>, Seq<char>>::empty());
        assert(start.union_prefer_right(Map::empty()) =~= start);
        while i < entries.len()
            invariant
                i <= entries@.len(),
                keys_distinct(entries@),
                pairs_map(entries@) == other@,
                self@ == start.union_prefer_right(pairs_map(entries@.take(i as int))),
            decreases entries.len() - i,
        {
            proof {
                lemma_pairs_map_take(entries@, i as int);
            }
            let ghost before = pairs_map(entries@.take(i as int));
            let k = entries[i].0.clone();
            let v = entries[i].1.clone();
            self.insert(k, v);
            assert(start.union_prefer_right(before).insert(k@, v@) =~= start.union_prefer_right(
                before.insert(k@, v@),
            ));
            i = i + 1;
        }
        assert(entries@.take(entries@.len() as int) == entries@);
    }
}

} // verus!
