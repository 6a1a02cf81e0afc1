//! A table from string keys (addresses, names, denominations) to
//! values, kept in insertion order. Its contents are the map from each
//! key to the value stored under it.
use crate::key_order::{key_less, key_lt, lemma_key_asymmetric, lemma_key_irreflexive, lemma_key_total, lemma_key_transitive};
use vstd::prelude::*;
use vstd::set_lib::lemma_len_subset;

verus! {

/// The value stored under `k` in a list of entries: that of the first
/// entry with key `k`.
pub open spec fn lookup<V>(s: Seq<(String, V)>, k: Seq<char>) -> Option<V>
    decreases s.len(),
{
    if s.len() == 0 {
        None
    } else if s[0].0@ == k {
        Some(s[0].1)
    } else {
        lookup(s.drop_first(), k)
    }
}

proof fn lemma_lookup_update<V>(s: Seq<(String, V)>, i: int, kk: String, v: V, k2: Seq<char>)
    requires
        0 <= i < s.len(),
        s[i].0@ == kk@,
        forall|j: int| 0 <= j < i ==> s[j].0@ != kk@,
    ensures
        lookup(s.update(i, (kk, v)), k2) == if k2 == kk@ {
            Some(v)
        } else {
            lookup(s, k2)
        },
    decreases s.len(),
{
    reveal_with_fuel(lookup, 2);
    if i > 0 {
        assert(s.update(i, (kk, v)).drop_first() =~= s.drop_first().update(i - 1, (kk, v)));
        lemma_lookup_update(s.drop_first(), i - 1, kk, v, k2);
    } else {
        assert(s.update(i, (kk, v)).drop_first() =~= s.drop_first());
    }
}

proof fn lemma_lookup_push<V>(s: Seq<(String, V)>, kk: String, v: V, k2: Seq<char>)
    requires
        lookup(s, kk@) is None,
    ensures
        lookup(s.push((kk, v)), k2) == if k2 == kk@ {
            Some(v)
        } else {
            lookup(s, k2)
        },
    decreases s.len(),
{
    reveal_with_fuel(lookup, 2);
    if s.len() > 0 {
        assert(s.push((kk, v)).drop_first() =~= s.drop_first().push((kk, v)));
        lemma_lookup_push(s.drop_first(), kk, v, k2);
    }
}

proof fn lemma_lookup_append<V>(s: Seq<(String, V)>, e: (String, V), k: Seq<char>)
    ensures
        lookup(s.push(e), k) == match lookup(s, k) {
            Some(v) => Some(v),
            None => if e.0@ == k {
                Some(e.1)
            } else {
                None
            },
        },
    decreases s.len(),
{
    reveal_with_fuel(lookup, 2);
    if s.len() > 0 {
        assert(s.push(e).drop_first() =~= s.drop_first().push(e));
        lemma_lookup_append(s.drop_first(), e, k);
    }
}

proof fn lemma_lookup_remove<V>(s: Seq<(String, V)>, i: int, k2: Seq<char>)
    requires
        0 <= i < s.len(),
        s[i].0@ != k2,
    ensures
        lookup(s.remove(i), k2) == lookup(s, k2),
    decreases s.len(),
{
    reveal_with_fuel(lookup, 2);
    if i == 0 {
        assert(s.remove(0) =~= s.drop_first());
    } else {
        assert(s.remove(i).drop_first() =~= s.drop_first().remove(i - 1));
        assert(s.remove(i)[0] == s[0]);
        lemma_lookup_remove(s.drop_first(), i - 1, k2);
    }
}

/// Values that can be copied exactly.
pub trait Duplicate: Sized {
    /// An exact copy of the value.
    fn duplicate(&self) -> (r: Self)
        ensures
            r == *self,
    ;
}

impl Duplicate for u128 {
    fn duplicate(&self) -> (r: u128) {
        *self
    }
}

impl Duplicate for bool {
    fn duplicate(&self) -> (r: bool) {
        *self
    }
}

impl Duplicate for String {
    fn duplicate(&self) -> (r: String) {
        self.clone()
    }
}

/// A table from string keys to values.
#[derive(Clone, Debug)]
pub struct StrMap<V> {
    pub entries: Vec<(String, V)>,
}

impl<V> StrMap<V> {
    /// The value stored under `k`, if any.
    pub open spec fn get_spec(&self, k: Seq<char>) -> Option<V> {
        lookup(self.entries@, k)
    }

    pub open spec fn contains_spec(&self, k: Seq<char>) -> bool {
        self.get_spec(k) is Some
    }

    /// The empty table.
    pub fn new() -> (m: StrMap<V>)
        ensures
            forall|k: Seq<char>| #[trigger] m.get_spec(k) is None,
            m.entries@.len() == 0,
    {
        StrMap { entries: Vec::new() }
    }

    /// The position of the entry that holds the value stored under `k`.
    pub fn find(&self, k: &String) -> (r: Option<usize>)
        ensures
            match r {
                Some(i) => i < self.entries@.len() && self.entries@[i as int].0@ == k@
                    && self.get_spec(k@) == Some(self.entries@[i as int].1) && forall|j: int|
                    0 <= j < i ==> self.entries@[j].0@ != k@,
                None => self.get_spec(k@) is None,
            },
    {
        let mut i: usize = 0;
        proof {
            assert(self.entries@.subrange(0, self.entries@.len() as int) =~= self.entries@);
        }
        while i < self.entries.len()
            invariant
                i <= self.entries@.len(),
                forall|j: int| 0 <= j < i ==> self.entries@[j].0@ != k@,
                lookup(self.entries@, k@) == lookup(
                    self.entries@.subrange(i as int, self.entries@.len() as int),
                    k@,
                ),
            decreases self.entries.len() - i,
        {
            let ghost rest = self.entries@.subrange(i as int, self.entries@.len() as int);
            if self.entries[i].0 == *k {
                return Some(i);
            }
            proof {
                assert(rest.drop_first() =~= self.entries@.subrange(
                    i + 1,
                    self.entries@.len() as int,
                ));
            }
            i = i + 1;
        }
        None
    }

    /// A reference to the value stored under `k`, if any.
    pub fn get_ref(&self, k: &String) -> (r: Option<&V>)
        ensures
            r is Some == self.get_spec(k@) is Some,
            r matches Some(v) ==> self.get_spec(k@) == Some(*v),
    {
        match self.find(k) {
            Some(i) => Some(&self.entries[i].1),
            None => None,
        }
    }

    /// Whether a value is stored under `k`.
    pub fn contains(&self, k: &String) -> (b: bool)
        ensures
            b == self.contains_spec(k@),
    {
        self.find(k).is_some()
    }

    /// Stores `v` under `k`, replacing any value stored there.
    pub fn insert(&mut self, k: String, v: V)
        ensures
            forall|k2: Seq<char>| #[trigger]
                final(self).get_spec(k2) == if k2 == k@ {
                    Some(v)
                } else {
                    old(self).get_spec(k2)
                },
            old(self).get_spec(k@) is None ==> final(self).entries@ == old(self).entries@.push(
                (k, v),
            ),
            old(self).get_spec(k@) is Some ==> exists|i: int|
                0 <= i < old(self).entries@.len() && old(self).entries@[i].0@ == k@ && old(self).get_spec(k@) == Some(old(self).entries@[i].1) && final(self).entries@ == old(self).entries@.update(i, (k, v)),
    {
        match self.find(&k) {
            Some(i) => {
                let ghost s = self.entries@;
                let ghost kk = k;
                self.entries.set(i, (k, v));
                proof {
                    assert forall|k2: Seq<char>| #[trigger]
                        lookup(self.entries@, k2) == if k2 == kk@ {
                            Some(v)
                        } else {
                            lookup(s, k2)
                        } by {
                        lemma_lookup_update(s, i as int, kk, v, k2);
                    }
                }
            },
            None => {
                let ghost s = self.entries@;
                let ghost kk = k;
                self.entries.push((k, v));
                proof {
                    assert forall|k2: Seq<char>| #[trigger]
                        lookup(self.entries@, k2) == if k2 == kk@ {
                            Some(v)
                        } else {
                            lookup(s, k2)
                        } by {
                        lemma_lookup_push(s, kk, v, k2);
                    }
                }
            },
        }
    }

    /// Removes whatever is stored under `k`.
    pub fn remove(&mut self, k: &String)
        ensures
            forall|k2: Seq<char>| #[trigger]
                final(self).get_spec(k2) == if k2 == k@ {
                    None
                } else {
                    old(self).get_spec(k2)
                },
    {
        let ghost orig = self.entries@;
        let mut found = self.find(k);
        while found.is_some()
            invariant
                forall|k2: Seq<char>| k2 != k@ ==> #[trigger] lookup(self.entries@, k2) == lookup(orig, k2),
                found matches Some(i) ==> i < self.entries@.len() && self.entries@[i as int].0@ == k@,
                found is None ==> lookup(self.entries@, k@) is None,
            decreases self.entries@.len(),
        {
            let i = found.unwrap();
            let ghost before = self.entries@;
            self.entries.remove(i);
            proof {
                assert forall|k2: Seq<char>| k2 != k@ implies #[trigger] lookup(self.entries@, k2) == lookup(orig, k2) by {
                    lemma_lookup_remove(before, i as int, k2);
                }
            }
            found = self.find(k);
        }
    }

    /// The number of entries.
    pub fn len(&self) -> (n: usize)
        ensures
            n == self.entries@.len(),
    {
        self.entries.len()
    }
}

impl<V: Duplicate> StrMap<V> {
    /// The value stored under `k`, if any.
    pub fn get(&self, k: &String) -> (r: Option<V>)
        ensures
            r == self.get_spec(k@),
    {
        match self.find(k) {
            Some(i) => Some(self.entries[i].1.duplicate()),
            None => None,
        }
    }

    /// A copy of the table, entry for entry.
    pub fn copy(&self) -> (r: StrMap<V>)
        ensures
            r.entries@ == self.entries@,
    {
        let mut entries: Vec<(String, V)> = Vec::new();
        let mut i: usize = 0;
        while i < self.entries.len()
            invariant
                i <= self.entries@.len(),
                entries@ == self.entries@.subrange(0, i as int),
            decreases self.entries.len() - i,
        {
            entries.push((self.entries[i].0.clone(), self.entries[i].1.duplicate()));
            proof {
                assert(entries@ =~= self.entries@.subrange(0, i + 1));
            }
            i = i + 1;
        }
        proof {
            assert(self.entries@.subrange(0, i as int) =~= self.entries@);
        }
        StrMap { entries }
    }
}

/// The contents of an optional owned key.
pub open spec fn opt_string(o: Option<String>) -> Option<Seq<char>> {
    match o {
        Some(s) => Some(s@),
        None => None,
    }
}

/// The contents of an optional key.
pub open spec fn opt_view(o: Option<&String>) -> Option<Seq<char>> {
    match o {
        Some(s) => Some(s@),
        None => None,
    }
}

/// `k` is at or above the lower bound `min`, if there is one.
pub open spec fn at_or_above(k: Seq<char>, min: Option<Seq<char>>) -> bool {
    match min {
        None => true,
        Some(m) => !key_lt(k, m),
    }
}

/// `k` is strictly below `bound`, if there is one.
pub open spec fn below(k: Seq<char>, bound: Option<Seq<char>>) -> bool {
    match bound {
        None => true,
        Some(b) => key_lt(k, b),
    }
}

proof fn lemma_lookup_some_has_entry<V>(s: Seq<(String, V)>, k: Seq<char>)
    requires
        lookup(s, k) is Some,
    ensures
        exists|j: int| 0 <= j < s.len() && (#[trigger] s[j]).0@ == k && lookup(s, k) == Some(s[j].1),
    decreases s.len(),
{
    if s[0].0@ == k {
        assert(s[0].0@ == k);
    } else {
        lemma_lookup_some_has_entry(s.drop_first(), k);
        let j = choose|j: int| 0 <= j < s.drop_first().len() && (#[trigger] s.drop_first()[j]).0@ == k && lookup(s.drop_first(), k) == Some(s.drop_first()[j].1);
        assert(s[j + 1] == s.drop_first()[j]);
    }
}

proof fn lemma_entry_key_found<V>(s: Seq<(String, V)>, j: int)
    requires
        0 <= j < s.len(),
    ensures
        lookup(s, s[j].0@) is Some,
    decreases s.len(),
{
    if j > 0 && s[0].0@ != s[j].0@ {
        assert(s.drop_first()[j - 1] == s[j]);
        lemma_entry_key_found(s.drop_first(), j - 1);
    }
}

/// A list of entries with strictly descending keys, each found among
/// `e`, is no longer than `e`.
proof fn lemma_distinct_keys_bound<V>(r: Seq<(String, V)>, e: Seq<(String, V)>)
    requires
        forall|i: int, j: int| 0 <= i < j < r.len() ==> key_lt(#[trigger] r[j].0@, #[trigger] r[i].0@),
        forall|i: int| 0 <= i < r.len() ==> exists|j: int| 0 <= j < e.len() && (#[trigger] e[j]).0@ == (#[trigger] r[i]).0@,
    ensures
        r.len() <= e.len(),
{
    broadcast use vstd::seq_lib::seq_to_set_is_finite;
    let rk = r.map_values(|x: (String, V)| x.0@);
    let ek = e.map_values(|x: (String, V)| x.0@);
    assert forall|i: int, j: int| 0 <= i < rk.len() && 0 <= j < rk.len() && i != j implies rk[i] != rk[j] by {
        if i < j {
            assert(key_lt(r[j].0@, r[i].0@));
            lemma_key_irreflexive(r[i].0@);
        } else {
            assert(key_lt(r[i].0@, r[j].0@));
            lemma_key_irreflexive(r[i].0@);
        }
    }
    assert(rk.no_duplicates());
    rk.unique_seq_to_set();
    ek.lemma_cardinality_of_set();
    assert forall|x: Seq<char>| rk.to_set().contains(x) implies ek.to_set().contains(x) by {
        assert(rk.contains(x));
        let i = choose|i: int| 0 <= i < rk.len() && rk[i] == x;
        assert(r[i].0@ == x);
        let j = choose|j: int| 0 <= j < e.len() && (#[trigger] e[j]).0@ == r[i].0@;
        assert(ek[j] == x);
    }
    lemma_len_subset(rk.to_set(), ek.to_set());
}

impl<V> StrMap<V> {
    /// `r` lists, in descending key order, the entries whose keys are at
    /// or above `min`, as many as `limit` allows, starting from the
    /// greatest key.
    pub open spec fn desc_listing(&self, min: Option<Seq<char>>, limit: Option<usize>, r: Seq<(String, V)>) -> bool {
        &&& limit matches Some(l) ==> r.len() <= l
        &&& forall|i: int|
            0 <= i < r.len() ==> self.get_spec(#[trigger] r[i].0@) == Some(r[i].1) && at_or_above(
                r[i].0@,
                min,
            )
        &&& forall|i: int, j: int| 0 <= i < j < r.len() ==> key_lt(#[trigger] r[j].0@, #[trigger] r[i].0@)
        &&& forall|k: Seq<char>|
            #[trigger] self.get_spec(k) is Some && at_or_above(k, min) ==> (exists|i: int|
                0 <= i < r.len() && (#[trigger] r[i]).0@ == k) || (limit matches Some(l) && r.len() == l
                && (l == 0 || key_lt(k, r.last().0@)))
    }

    /// The position of an entry with the greatest key at or above `min`
    /// and strictly below `bound`, if any.
    pub fn max_key_below(&self, min: Option<&String>, bound: Option<&String>) -> (r: Option<usize>)
        ensures
            match r {
                Some(b) => {
                    &&& b < self.entries@.len()
                    &&& at_or_above(self.entries@[b as int].0@, opt_view(min))
                    &&& below(self.entries@[b as int].0@, opt_view(bound))
                    &&& forall|j: int|
                        0 <= j < self.entries@.len() && at_or_above(
                            (#[trigger] self.entries@[j]).0@,
                            opt_view(min),
                        ) && below(self.entries@[j].0@, opt_view(bound)) ==> !key_lt(
                            self.entries@[b as int].0@,
                            self.entries@[j].0@,
                        )
                },
                None => forall|j: int|
                    0 <= j < self.entries@.len() ==> !(at_or_above(
                        (#[trigger] self.entries@[j]).0@,
                        opt_view(min),
                    ) && below(self.entries@[j].0@, opt_view(bound))),
            },
    {
        let ghost mn = opt_view(min);
        let ghost bd = opt_view(bound);
        let mut best: Option<usize> = None;
        let mut i: usize = 0;
        while i < self.entries.len()
            invariant
                mn == opt_view(min),
                bd == opt_view(bound),
                i <= self.entries@.len(),
                match best {
                    Some(b) => {
                        &&& b < i
                        &&& at_or_above(self.entries@[b as int].0@, mn)
                        &&& below(self.entries@[b as int].0@, bd)
                        &&& forall|j: int|
                            0 <= j < i && at_or_above((#[trigger] self.entries@[j]).0@, mn) && below(
                                self.entries@[j].0@,
                                bd,
                            ) ==> !key_lt(self.entries@[b as int].0@, self.entries@[j].0@)
                    },
                    None => forall|j: int|
                        0 <= j < i ==> !(at_or_above((#[trigger] self.entries@[j]).0@, mn) && below(
                            self.entries@[j].0@,
                            bd,
                        )),
                },
            decreases self.entries.len() - i,
        {
            let k = &self.entries[i].0;
            let ok_min = match min {
                None => true,
                Some(m) => !key_less(k, m),
            };
            let ok_bound = match bound {
                None => true,
                Some(b) => key_less(k, b),
            };
            if ok_min && ok_bound {
                match best {
                    None => {
                        proof {
                            lemma_key_irreflexive(self.entries@[i as int].0@);
                        }
                        best = Some(i);
                    },
                    Some(b) => {
                        if key_less(&self.entries[b].0, k) {
                            proof {
                                assert forall|j: int|
                                    0 <= j < i + 1 && at_or_above((#[trigger] self.entries@[j]).0@, mn) && below(
                                        self.entries@[j].0@,
                                        bd,
                                    ) implies !key_lt(self.entries@[i as int].0@, self.entries@[j].0@) by {
                                    if j < i {
                                        assert(!key_lt(self.entries@[b as int].0@, self.entries@[j].0@));
                                        if key_lt(self.entries@[i as int].0@, self.entries@[j].0@) {
                                            lemma_key_transitive(
                                                self.entries@[b as int].0@,
                                                self.entries@[i as int].0@,
                                                self.entries@[j].0@,
                                            );
                                        }
                                    } else {
                                        lemma_key_irreflexive(self.entries@[i as int].0@);
                                    }
                                }
                            }
                            best = Some(i);
                        } else {
                            proof {
                                assert forall|j: int|
                                    0 <= j < i + 1 && at_or_above((#[trigger] self.entries@[j]).0@, mn) && below(
                                        self.entries@[j].0@,
                                        bd,
                                    ) implies !key_lt(self.entries@[b as int].0@, self.entries@[j].0@) by {
                                    if j < i {
                                    } else {
                                        assert(j == i);
                                    }
                                }
                            }
                        }
                    },
                }
            }
            i = i + 1;
        }
        best
    }
}

proof fn lemma_lookup_same_keys<V, W>(s: Seq<(String, V)>, t: Seq<(String, W)>, k: Seq<char>)
    requires
        s.len() == t.len(),
        forall|i: int| 0 <= i < s.len() ==> (#[trigger] s[i]).0@ == t[i].0@,
    ensures
        (lookup(s, k) is Some) == (lookup(t, k) is Some),
    decreases s.len(),
{
    if s.len() > 0 {
        assert forall|i: int| 0 <= i < s.drop_first().len() implies (#[trigger] s.drop_first()[i]).0@ == t.drop_first()[i].0@ by {
            assert(s[i + 1].0@ == t[i + 1].0@);
        }
        lemma_lookup_same_keys(s.drop_first(), t.drop_first(), k);
    }
}

impl<V> StrMap<V> {
    /// A table with the same keys, each holding `true`.
    pub fn key_set(&self) -> (r: StrMap<bool>)
        ensures
            forall|k: Seq<char>| (#[trigger] r.get_spec(k) is Some) == (self.get_spec(k) is Some),
            forall|k: Seq<char>| #[trigger] r.get_spec(k) is Some ==> r.get_spec(k) == Some(true),
    {
        let mut entries: Vec<(String, bool)> = Vec::new();
        let mut i: usize = 0;
        while i < self.entries.len()
            invariant
                i <= self.entries@.len(),
                entries@.len() == i,
                forall|j: int| 0 <= j < i ==> (#[trigger] entries@[j]).0@ == self.entries@[j].0@ && entries@[j].1,
            decreases self.entries.len() - i,
        {
            entries.push((self.entries[i].0.clone(), true));
            i = i + 1;
        }
        let r = StrMap { entries };
        proof {
            assert forall|k: Seq<char>| (#[trigger] r.get_spec(k) is Some) == (self.get_spec(k) is Some) by {
                lemma_lookup_same_keys(r.entries@, self.entries@, k);
            }
            assert forall|k: Seq<char>| #[trigger] r.get_spec(k) is Some implies r.get_spec(k) == Some(true) by {
                lemma_lookup_some_has_entry(r.entries@, k);
            }
        }
        r
    }
}

impl<V: Duplicate> StrMap<V> {
    /// The entries whose keys are at or above `min`, in descending key
    /// order from the greatest, at most `limit` of them.
    pub fn list_desc(&self, min: Option<&String>, limit: Option<usize>) -> (r: Vec<(String, V)>)
        ensures
            self.desc_listing(opt_view(min), limit, r@),
    {
        let ghost mn = opt_view(min);
        let mut r: Vec<(String, V)> = Vec::new();
        let mut last: Option<String> = None;
        loop
            invariant_except_break
                mn == opt_view(min),
                r@.len() <= self.entries@.len(),
                last matches Some(l) ==> r@.len() > 0 && l@ == r@.last().0@,
                last is None ==> r@.len() == 0,
                limit matches Some(l) ==> r@.len() <= l,
                forall|i: int|
                    0 <= i < r@.len() ==> self.get_spec(#[trigger] r@[i].0@) == Some(r@[i].1) && at_or_above(
                        r@[i].0@,
                        mn,
                    ),
                forall|i: int, j: int| 0 <= i < j < r@.len() ==> key_lt(#[trigger] r@[j].0@, #[trigger] r@[i].0@),
                forall|k: Seq<char>|
                    #[trigger] self.get_spec(k) is Some && at_or_above(k, mn) && r@.len() > 0 && !key_lt(
                        k,
                        r@.last().0@,
                    ) ==> exists|i: int| 0 <= i < r@.len() && (#[trigger] r@[i]).0@ == k,
            ensures
                self.desc_listing(mn, limit, r@),
            decreases self.entries@.len() - r@.len(),
        {
            if let Some(l) = limit {
                if r.len() >= l {
                    proof {
                        assert forall|k: Seq<char>|
                            #[trigger] self.get_spec(k) is Some && at_or_above(k, mn) implies (exists|i: int|
                                0 <= i < r@.len() && (#[trigger] r@[i]).0@ == k) || (limit matches Some(l) && r@.len()
                                == l && (l == 0 || key_lt(k, r@.last().0@))) by {
                            if r@.len() > 0 && !key_lt(k, r@.last().0@) {
                            }
                        }
                    }
                    break;
                }
            }
            let found = match &last {
                None => self.max_key_below(min, None),
                Some(l) => self.max_key_below(min, Some(l)),
            };
            let ghost bd: Option<Seq<char>> = match last {
                None => None,
                Some(l) => Some(l@),
            };
            match found {
                None => {
                    proof {
                        assert forall|k: Seq<char>|
                            #[trigger] self.get_spec(k) is Some && at_or_above(k, mn) implies (exists|i: int|
                                0 <= i < r@.len() && (#[trigger] r@[i]).0@ == k) || (limit matches Some(l) && r@.len()
                                == l && (l == 0 || key_lt(k, r@.last().0@))) by {
                            lemma_lookup_some_has_entry(self.entries@, k);
                            let j = choose|j: int| 0 <= j < self.entries@.len() && (#[trigger] self.entries@[j]).0@ == k && lookup(self.entries@, k) == Some(self.entries@[j].1);
                            assert(!(at_or_above(self.entries@[j].0@, mn) && below(self.entries@[j].0@, bd)));
                        }
                    }
                    break;
                },
                Some(b) => {
                    let key = self.entries[b].0.clone();
                    let ghost kv = key@;
                    let val = match self.get(&key) {
                        Some(v) => v,
                        None => {
                            proof {
                                lemma_entry_key_found(self.entries@, b as int);
                            }
                            break;
                        },
                    };
                    let ghost old_r = r@;
                    r.push((key, val));
                    proof {
                        lemma_entry_key_found(self.entries@, b as int);
                        assert(r@.last().0@ == kv);
                        assert forall|i: int, j: int| 0 <= i < j < r@.len() implies key_lt(
                            #[trigger] r@[j].0@,
                            #[trigger] r@[i].0@,
                        ) by {
                            if j == r@.len() - 1 {
                                let n = old_r.len() - 1;
                                assert(key_lt(kv, old_r[n].0@));
                                if i < n {
                                    assert(key_lt(old_r[n].0@, old_r[i].0@));
                                    lemma_key_transitive(kv, old_r[n].0@, old_r[i].0@);
                                }
                            } else {
                                assert(r@[i] == old_r[i] && r@[j] == old_r[j]);
                            }
                        }
                        assert forall|k: Seq<char>|
                            #[trigger] self.get_spec(k) is Some && at_or_above(k, mn) && r@.len() > 0 && !key_lt(
                                k,
                                r@.last().0@,
                            ) implies exists|i: int| 0 <= i < r@.len() && (#[trigger] r@[i]).0@ == k by {
                            if k == kv {
                                assert(r@[old_r.len() as int].0@ == k);
                            } else if old_r.len() > 0 && !key_lt(k, old_r.last().0@) {
                                let i = choose|i: int| 0 <= i < old_r.len() && (#[trigger] old_r[i]).0@ == k;
                                assert(r@[i] == old_r[i]);
                            } else {
                                lemma_lookup_some_has_entry(self.entries@, k);
                                let j = choose|j: int| 0 <= j < self.entries@.len() && (#[trigger] self.entries@[j]).0@ == k && lookup(self.entries@, k) == Some(self.entries@[j].1);
                                assert(below(k, bd));
                                assert(!key_lt(kv, k));
                                lemma_key_total(kv, k);
                            }
                        }
                        assert forall|i: int| 0 <= i < r@.len() implies exists|j: int|
                            0 <= j < self.entries@.len() && (#[trigger] self.entries@[j]).0@ == (#[trigger] r@[i]).0@ by {
                            lemma_lookup_some_has_entry(self.entries@, r@[i].0@);
                        }
                        lemma_distinct_keys_bound(r@, self.entries@);
                    }
                    last = Some(self.entries[b].0.clone());
                },
            }
        }
        r
    }
}

/// `k` is strictly above `bound`, if there is one.
pub open spec fn above(k: Seq<char>, bound: Option<Seq<char>>) -> bool {
    match bound {
        None => true,
        Some(b) => key_lt(b, k),
    }
}

impl<V> StrMap<V> {
    /// `r` lists, in ascending key order, the entries whose keys are
    /// strictly above `after`, as many as `limit` allows, starting from
    /// the least key.
    pub open spec fn asc_listing(&self, after: Option<Seq<char>>, limit: Option<usize>, r: Seq<(String, V)>) -> bool {
        &&& limit matches Some(l) ==> r.len() <= l
        &&& forall|i: int|
            0 <= i < r.len() ==> self.get_spec(#[trigger] r[i].0@) == Some(r[i].1) && above(r[i].0@, after)
        &&& forall|i: int, j: int| 0 <= i < j < r.len() ==> key_lt(#[trigger] r[i].0@, #[trigger] r[j].0@)
        &&& forall|k: Seq<char>|
            #[trigger] self.get_spec(k) is Some && above(k, after) ==> (exists|i: int|
                0 <= i < r.len() && (#[trigger] r[i]).0@ == k) || (limit matches Some(l) && r.len() == l
                && (l == 0 || key_lt(r.last().0@, k)))
    }

    /// The position of an entry with the least key strictly above both
    /// bounds, if any.
    pub fn min_key_above(&self, b1: Option<&String>, b2: Option<&String>) -> (r: Option<usize>)
        ensures
            match r {
                Some(b) => {
                    &&& b < self.entries@.len()
                    &&& above(self.entries@[b as int].0@, opt_view(b1))
                    &&& above(self.entries@[b as int].0@, opt_view(b2))
                    &&& forall|j: int|
                        0 <= j < self.entries@.len() && above((#[trigger] self.entries@[j]).0@, opt_view(b1))
                            && above(self.entries@[j].0@, opt_view(b2)) ==> !key_lt(
                            self.entries@[j].0@,
                            self.entries@[b as int].0@,
                        )
                },
                None => forall|j: int|
                    0 <= j < self.entries@.len() ==> !(above((#[trigger] self.entries@[j]).0@, opt_view(b1))
                        && above(self.entries@[j].0@, opt_view(b2))),
            },
    {
        let ghost v1 = opt_view(b1);
        let ghost v2 = opt_view(b2);
        let mut best: Option<usize> = None;
        let mut i: usize = 0;
        while i < self.entries.len()
            invariant
                v1 == opt_view(b1),
                v2 == opt_view(b2),
                i <= self.entries@.len(),
                match best {
                    Some(b) => {
                        &&& b < i
                        &&& above(self.entries@[b as int].0@, v1)
                        &&& above(self.entries@[b as int].0@, v2)
                        &&& forall|j: int|
                            0 <= j < i && above((#[trigger] self.entries@[j]).0@, v1) && above(self.entries@[j].0@, v2)
                                ==> !key_lt(self.entries@[j].0@, self.entries@[b as int].0@)
                    },
                    None => forall|j: int|
                        0 <= j < i ==> !(above((#[trigger] self.entries@[j]).0@, v1) && above(self.entries@[j].0@, v2)),
                },
            decreases self.entries.len() - i,
        {
            let k = &self.entries[i].0;
            let ok1 = match b1 {
                None => true,
                Some(b) => key_less(b, k),
            };
            let ok2 = match b2 {
                None => true,
                Some(b) => key_less(b, k),
            };
            if ok1 && ok2 {
                match best {
                    None => {
                        proof {
                            lemma_key_irreflexive(self.entries@[i as int].0@);
                        }
                        best = Some(i);
                    },
                    Some(b) => {
                        if key_less(k, &self.entries[b].0) {
                            proof {
                                assert forall|j: int|
                                    0 <= j < i + 1 && above((#[trigger] self.entries@[j]).0@, v1) && above(self.entries@[j].0@, v2)
                                        implies !key_lt(self.entries@[j].0@, self.entries@[i as int].0@) by {
                                    if j < i {
                                        assert(!key_lt(self.entries@[j].0@, self.entries@[b as int].0@));
                                        if key_lt(self.entries@[j].0@, self.entries@[i as int].0@) {
                                            lemma_key_transitive(
                                                self.entries@[j].0@,
                                                self.entries@[i as int].0@,
                                                self.entries@[b as int].0@,
                                            );
                                        }
                                    } else {
                                        lemma_key_irreflexive(self.entries@[i as int].0@);
                                    }
                                }
                            }
                            best = Some(i);
                        } else {
                            proof {
                                assert forall|j: int|
                                    0 <= j < i + 1 && above((#[trigger] self.entries@[j]).0@, v1) && above(self.entries@[j].0@, v2)
                                        implies !key_lt(self.entries@[j].0@, self.entries@[b as int].0@) by {
                                    if j < i {
                                    } else {
                                        assert(j == i);
                                    }
                                }
                            }
                        }
                    },
                }
            }
            i = i + 1;
        }
        best
    }
}

impl<V: Duplicate> StrMap<V> {
    /// The entries whose keys are strictly above `after`, in ascending key
    /// order from the least, at most `limit` of them.
    pub fn list_asc(&self, after: Option<&String>, limit: Option<usize>) -> (r: Vec<(String, V)>)
        ensures
            self.asc_listing(opt_view(after), limit, r@),
    {
        let ghost af = opt_view(after);
        let mut r: Vec<(String, V)> = Vec::new();
        let mut last: Option<String> = None;
        loop
            invariant_except_break
                af == opt_view(after),
                r@.len() <= self.entries@.len(),
                last matches Some(l) ==> r@.len() > 0 && l@ == r@.last().0@,
                last is None ==> r@.len() == 0,
                limit matches Some(l) ==> r@.len() <= l,
                forall|i: int|
                    0 <= i < r@.len() ==> self.get_spec(#[trigger] r@[i].0@) == Some(r@[i].1) && above(r@[i].0@, af),
                forall|i: int, j: int| 0 <= i < j < r@.len() ==> key_lt(#[trigger] r@[i].0@, #[trigger] r@[j].0@),
                forall|k: Seq<char>|
                    #[trigger] self.get_spec(k) is Some && above(k, af) && r@.len() > 0 && !key_lt(
                        r@.last().0@,
                        k,
                    ) ==> exists|i: int| 0 <= i < r@.len() && (#[trigger] r@[i]).0@ == k,
            ensures
                self.asc_listing(af, limit, r@),
            decreases self.entries@.len() - r@.len(),
        {
            if let Some(l) = limit {
                if r.len() >= l {
                    proof {
                        assert forall|k: Seq<char>|
                            #[trigger] self.get_spec(k) is Some && above(k, af) implies (exists|i: int|
                                0 <= i < r@.len() && (#[trigger] r@[i]).0@ == k) || (limit matches Some(l) && r@.len()
                                == l && (l == 0 || key_lt(r@.last().0@, k))) by {
                            if r@.len() > 0 && !key_lt(r@.last().0@, k) {
                            }
                        }
                    }
                    break;
                }
            }
            let found = match &last {
                None => self.min_key_above(after, None),
                Some(l) => self.min_key_above(after, Some(l)),
            };
            let ghost bd: Option<Seq<char>> = match last {
                None => None,
                Some(l) => Some(l@),
            };
            match found {
                None => {
                    proof {
                        assert forall|k: Seq<char>|
                            #[trigger] self.get_spec(k) is Some && above(k, af) implies (exists|i: int|
                                0 <= i < r@.len() && (#[trigger] r@[i]).0@ == k) || (limit matches Some(l) && r@.len()
                                == l && (l == 0 || key_lt(r@.last().0@, k))) by {
                            lemma_lookup_some_has_entry(self.entries@, k);
                            let j = choose|j: int| 0 <= j < self.entries@.len() && (#[trigger] self.entries@[j]).0@ == k && lookup(self.entries@, k) == Some(self.entries@[j].1);
                            assert(!(above(self.entries@[j].0@, af) && above(self.entries@[j].0@, bd)));
                        }
                    }
                    break;
                },
                Some(b) => {
                    let key = self.entries[b].0.clone();
                    let ghost kv = key@;
                    let val = match self.get(&key) {
                        Some(v) => v,
                        None => {
                            proof {
                                lemma_entry_key_found(self.entries@, b as int);
                            }
                            break;
                        },
                    };
                    let ghost old_r = r@;
                    r.push((key, val));
                    proof {
                        lemma_entry_key_found(self.entries@, b as int);
                        assert(r@.last().0@ == kv);
                        assert forall|i: int, j: int| 0 <= i < j < r@.len() implies key_lt(
                            #[trigger] r@[i].0@,
                            #[trigger] r@[j].0@,
                        ) by {
                            if j == r@.len() - 1 {
                                let n = old_r.len() - 1;
                                assert(key_lt(old_r[n].0@, kv));
                                if i < n {
                                    assert(key_lt(old_r[i].0@, old_r[n].0@));
                                    lemma_key_transitive(old_r[i].0@, old_r[n].0@, kv);
                                }
                            } else {
                                assert(r@[i] == old_r[i] && r@[j] == old_r[j]);
                            }
                        }
                        assert forall|k: Seq<char>|
                            #[trigger] self.get_spec(k) is Some && above(k, af) && r@.len() > 0 && !key_lt(
                                r@.last().0@,
                                k,
                            ) implies exists|i: int| 0 <= i < r@.len() && (#[trigger] r@[i]).0@ == k by {
                            if k == kv {
                                assert(r@[old_r.len() as int].0@ == k);
                            } else if old_r.len() > 0 && !key_lt(old_r.last().0@, k) {
                                let i = choose|i: int| 0 <= i < old_r.len() && (#[trigger] old_r[i]).0@ == k;
                                assert(r@[i] == old_r[i]);
                            } else {
                                lemma_lookup_some_has_entry(self.entries@, k);
                                let j = choose|j: int| 0 <= j < self.entries@.len() && (#[trigger] self.entries@[j]).0@ == k && lookup(self.entries@, k) == Some(self.entries@[j].1);
                                assert(above(k, bd));
                                assert(!key_lt(k, kv));
                                lemma_key_total(kv, k);
                            }
                        }
                        assert forall|i: int| 0 <= i < r@.len() implies exists|j: int|
                            0 <= j < self.entries@.len() && (#[trigger] self.entries@[j]).0@ == (#[trigger] r@[i]).0@ by {
                            lemma_lookup_some_has_entry(self.entries@, r@[i].0@);
                        }
                        assert forall|i: int, j: int| 0 <= i < j < r@.len() implies key_lt(#[trigger] r@.reverse()[j].0@, #[trigger] r@.reverse()[i].0@) by {
                            let n = r@.len() as int;
                            assert(r@.reverse()[j] == r@[n - 1 - j]);
                            assert(r@.reverse()[i] == r@[n - 1 - i]);
                        }
                        assert forall|i: int| 0 <= i < r@.reverse().len() implies exists|j: int|
                            0 <= j < self.entries@.len() && (#[trigger] self.entries@[j]).0@ == (#[trigger] r@.reverse()[i]).0@ by {
                            let n = r@.len() as int;
                            assert(r@.reverse()[i] == r@[n - 1 - i]);
                        }
                        lemma_distinct_keys_bound(r@.reverse(), self.entries@);
                    }
                    last = Some(self.entries[b].0.clone());
                },
            }
        }
        r
    }
}

} // verus!
