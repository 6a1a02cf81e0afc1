//! Facts about a list of vote weights: the largest weight, how many
//! options hold it and where it first occurs, and the largest weight
//! below a given one.
use vstd::prelude::*;

verus! {

/// The largest weight (zero for no weights).
pub open spec fn seq_max(s: Seq<u128>) -> int
    decreases s.len(),
{
    if s.len() == 0 {
        0
    } else {
        let m = seq_max(s.drop_last());
        if s.last() > m {
            s.last() as int
        } else {
            m
        }
    }
}

/// How many weights equal `m`.
pub open spec fn count_eq(s: Seq<u128>, m: int) -> nat
    decreases s.len(),
{
    if s.len() == 0 {
        0
    } else {
        count_eq(s.drop_last(), m) + if s.last() == m {
            1nat
        } else {
            0nat
        }
    }
}

/// The first position holding `m`, or -1.
pub open spec fn first_index_of(s: Seq<u128>, m: int) -> int
    decreases s.len(),
{
    if s.len() == 0 {
        -1
    } else {
        let k = first_index_of(s.drop_last(), m);
        if k >= 0 {
            k
        } else if s.last() == m {
            s.len() - 1
        } else {
            -1
        }
    }
}

/// The largest weight strictly below `w`, if there is one.
pub open spec fn max_below(s: Seq<u128>, w: int) -> Option<u128>
    decreases s.len(),
{
    if s.len() == 0 {
        None
    } else {
        let r = max_below(s.drop_last(), w);
        let x = s.last();
        if x < w {
            match r {
                None => Some(x),
                Some(y) => if x > y {
                    Some(x)
                } else {
                    Some(y)
                },
            }
        } else {
            r
        }
    }
}

/// The largest weight bounds every weight and is one of them.
pub proof fn lemma_seq_max(s: Seq<u128>)
    requires
        s.len() > 0,
    ensures
        forall|i: int| 0 <= i < s.len() ==> s[i] <= seq_max(s),
        0 <= first_index_of(s, seq_max(s)) < s.len(),
        s[first_index_of(s, seq_max(s))] == seq_max(s),
        forall|i: int| 0 <= i < first_index_of(s, seq_max(s)) ==> s[i] != seq_max(s),
        count_eq(s, seq_max(s)) >= 1,
    decreases s.len(),
{
    let d = s.drop_last();
    let m = seq_max(s);
    if s.len() == 1 {
        assert(d.len() == 0);
        assert(seq_max(d) == 0);
        assert(first_index_of(d, m) == -1);
        assert(count_eq(d, m) == 0);
        assert(s[0] == s.last());
    } else {
        lemma_seq_max(d);
        lemma_first_index_facts(d, m);
        lemma_count_pos(d, m);
        assert forall|i: int| 0 <= i < s.len() implies s[i] <= m by {
            if i < d.len() {
                assert(d[i] == s[i]);
            }
        }
        if s.last() > seq_max(d) {
            assert forall|i: int| 0 <= i < d.len() implies d[i] != m by {}
            lemma_first_index_none(d, m);
        } else {
            let k = first_index_of(d, m);
            assert(d[k] == s[k]);
        }
        assert forall|i: int| 0 <= i < first_index_of(s, m) implies s[i] != m by {
            if i < d.len() {
                assert(d[i] == s[i]);
            }
        }
        assert(count_eq(s, m) >= 1) by {
            if s.last() != m {
                let k = first_index_of(d, m);
                assert(d[k] == m);
            }
        }
    }
}

proof fn lemma_first_index_none(s: Seq<u128>, m: int)
    requires
        forall|i: int| 0 <= i < s.len() ==> s[i] != m,
    ensures
        first_index_of(s, m) == -1,
    decreases s.len(),
{
    if s.len() > 0 {
        let d = s.drop_last();
        assert forall|i: int| 0 <= i < d.len() implies d[i] != m by {
            assert(d[i] == s[i]);
        }
        lemma_first_index_none(d, m);
        assert(s[s.len() - 1] != m);
    }
}

/// Where `m` first occurs, if it does.
pub proof fn lemma_first_index_facts(s: Seq<u128>, m: int)
    ensures
        -1 <= first_index_of(s, m) < s.len(),
        first_index_of(s, m) >= 0 ==> s[first_index_of(s, m)] == m,
        forall|i: int| 0 <= i < s.len() && (first_index_of(s, m) == -1 || i < first_index_of(s, m)) ==> s[i] != m,
    decreases s.len(),
{
    if s.len() > 0 {
        let d = s.drop_last();
        lemma_first_index_facts(d, m);
        assert forall|i: int|
            0 <= i < s.len() && (first_index_of(s, m) == -1 || i < first_index_of(s, m)) implies s[i]
            != m by {
            if i < s.len() - 1 {
                assert(d[i] == s[i]);
            }
        }
    }
}

proof fn lemma_count_pos(s: Seq<u128>, m: int)
    ensures
        (exists|i: int| 0 <= i < s.len() && s[i] == m) ==> count_eq(s, m) >= 1,
    decreases s.len(),
{
    if s.len() > 0 {
        lemma_count_pos(s.drop_last(), m);
        if exists|i: int| 0 <= i < s.len() && s[i] == m {
            let i = choose|i: int| 0 <= i < s.len() && s[i] == m;
            if i < s.len() - 1 {
                assert(s.drop_last()[i] == m);
            }
        }
    }
}

/// `m` occurs once exactly when no other position holds it.
pub proof fn lemma_count_one(s: Seq<u128>, m: int, k: int)
    requires
        0 <= k < s.len(),
        s[k] == m,
    ensures
        count_eq(s, m) == 1 <==> forall|j: int| 0 <= j < s.len() && j != k ==> s[j] != m,
    decreases s.len(),
{
    let d = s.drop_last();
    if k == s.len() - 1 {
        lemma_count_zero(d, m);
        assert((forall|j: int| 0 <= j < s.len() && j != k ==> s[j] != m) <==> (forall|j: int|
            0 <= j < d.len() ==> d[j] != m)) by {
            if forall|j: int| 0 <= j < d.len() ==> d[j] != m {
                assert forall|j: int| 0 <= j < s.len() && j != k implies s[j] != m by {
                    assert(d[j] == s[j]);
                }
            }
            if forall|j: int| 0 <= j < s.len() && j != k ==> s[j] != m {
                assert forall|j: int| 0 <= j < d.len() implies d[j] != m by {
                    assert(d[j] == s[j]);
                }
            }
        }
    } else {
        assert(d[k] == m);
        lemma_count_one(d, m, k);
        lemma_count_pos(d, m);
        assert((forall|j: int| 0 <= j < s.len() && j != k ==> s[j] != m) <==> (forall|j: int|
            0 <= j < d.len() && j != k ==> d[j] != m) && s.last() != m) by {
            if (forall|j: int| 0 <= j < d.len() && j != k ==> d[j] != m) && s.last() != m {
                assert forall|j: int| 0 <= j < s.len() && j != k implies s[j] != m by {
                    if j < d.len() {
                        assert(d[j] == s[j]);
                    }
                }
            }
            if forall|j: int| 0 <= j < s.len() && j != k ==> s[j] != m {
                assert forall|j: int| 0 <= j < d.len() && j != k implies d[j] != m by {
                    assert(d[j] == s[j]);
                }
                assert(s[s.len() - 1] != m);
            }
        }
    }
}

proof fn lemma_count_zero(s: Seq<u128>, m: int)
    ensures
        count_eq(s, m) == 0 <==> forall|j: int| 0 <= j < s.len() ==> s[j] != m,
    decreases s.len(),
{
    if s.len() > 0 {
        let d = s.drop_last();
        lemma_count_zero(d, m);
        assert((forall|j: int| 0 <= j < s.len() ==> s[j] != m) <==> (forall|j: int|
            0 <= j < d.len() ==> d[j] != m) && s.last() != m) by {
            if forall|j: int| 0 <= j < d.len() ==> d[j] != m {
                if s.last() != m {
                    assert forall|j: int| 0 <= j < s.len() implies s[j] != m by {
                        if j < d.len() {
                            assert(d[j] == s[j]);
                        }
                    }
                }
            }
            if forall|j: int| 0 <= j < s.len() ==> s[j] != m {
                assert forall|j: int| 0 <= j < d.len() implies d[j] != m by {
                    assert(d[j] == s[j]);
                }
                assert(s[s.len() - 1] != m);
            }
        }
    }
}

/// The largest weight below `w` is below `w`, is one of the weights,
/// and bounds every weight below `w`.
pub proof fn lemma_max_below(s: Seq<u128>, w: int)
    ensures
        max_below(s, w) is None <==> forall|i: int| 0 <= i < s.len() ==> s[i] >= w,
        max_below(s, w) matches Some(y) ==> y < w && (exists|i: int| 0 <= i < s.len() && s[i] == y)
            && forall|i: int| 0 <= i < s.len() && s[i] < w ==> s[i] <= y,
    decreases s.len(),
{
    if s.len() > 0 {
        let d = s.drop_last();
        lemma_max_below(d, w);
        match max_below(d, w) {
            Some(y) => {
                let i = choose|i: int| 0 <= i < d.len() && d[i] == y;
                assert(s[i] == y);
            },
            None => {},
        }
        assert(s[s.len() - 1] == s.last());
        assert forall|i: int| 0 <= i < d.len() implies d[i] == s[i] by {}
        assert((forall|i: int| 0 <= i < s.len() ==> s[i] >= w) <==> (forall|i: int|
            0 <= i < d.len() ==> d[i] >= w) && s.last() >= w) by {
            if (forall|i: int| 0 <= i < d.len() ==> d[i] >= w) && s.last() >= w {
                assert forall|i: int| 0 <= i < s.len() implies s[i] >= w by {
                    if i < d.len() {
                        assert(d[i] == s[i]);
                    }
                }
            }
        }
        match max_below(s, w) {
            Some(y) => {
                assert forall|i: int| 0 <= i < s.len() && s[i] < w implies s[i] <= y by {
                    if i < d.len() {
                        assert(d[i] == s[i]);
                    }
                }
                if s.last() < w && (max_below(d, w) is None || s.last() > max_below(d, w)->0) {
                    assert(s[s.len() - 1] == y);
                }
            },
            None => {},
        }
    }
}

/// The largest weight (zero for none).
pub fn find_max(s: &Vec<u128>) -> (r: (u128, usize, u64))
    ensures
        r.0 == seq_max(s@),
        r.1 == (if s@.len() == 0 {
            0
        } else {
            first_index_of(s@, seq_max(s@))
        }),
        r.2 == count_eq(s@, seq_max(s@)),
{
    let mut m: u128 = 0;
    let mut idx: usize = 0;
    let mut count: u64 = 0;
    let mut i: usize = 0;
    while i < s.len()
        invariant
            i <= s@.len(),
            m == seq_max(s@.subrange(0, i as int)),
            idx == (if i == 0 {
                0
            } else {
                first_index_of(s@.subrange(0, i as int), m as int)
            }),
            count == count_eq(s@.subrange(0, i as int), m as int),
            count <= i,
        decreases s.len() - i,
    {
        let ghost pre = s@.subrange(0, i as int);
        let ghost next = s@.subrange(0, i + 1);
        proof {
            assert(next.drop_last() =~= pre);
            if i > 0 {
                lemma_seq_max(pre);
                lemma_first_index_facts(pre, m as int);
            }
        }
        let x = s[i];
        proof {
            if i == 0 {
                assert(seq_max(pre) == 0);
                assert(first_index_of(pre, x as int) == -1);
                assert(count_eq(pre, x as int) == 0);
            }
        }
        if i == 0 || x > m {
            proof {
                if i > 0 {
                    assert(forall|j: int| 0 <= j < pre.len() ==> pre[j] <= m);
                    lemma_count_zero(pre, x as int);
                    lemma_first_index_none(pre, x as int);
                } else {
                    assert(pre.len() == 0);
                }
            }
            m = x;
            idx = i;
            count = 1;
        } else if x == m {
            count = count + 1;
        }
        i = i + 1;
    }
    proof {
        assert(s@.subrange(0, i as int) =~= s@);
    }
    (m, idx, count)
}

/// The largest weight strictly below `w`, if there is one.
pub fn find_max_below(s: &Vec<u128>, w: u128) -> (r: Option<u128>)
    ensures
        r == max_below(s@, w as int),
{
    let mut best: Option<u128> = None;
    let mut i: usize = 0;
    while i < s.len()
        invariant
            i <= s@.len(),
            best == max_below(s@.subrange(0, i as int), w as int),
        decreases s.len() - i,
    {
        proof {
            assert(s@.subrange(0, i + 1).drop_last() =~= s@.subrange(0, i as int));
        }
        let x = s[i];
        if x < w {
            best = match best {
                None => Some(x),
                Some(y) => if x > y {
                    Some(x)
                } else {
                    Some(y)
                },
            };
        }
        i = i + 1;
    }
    proof {
        assert(s@.subrange(0, i as int) =~= s@);
    }
    best
}

} // verus!
