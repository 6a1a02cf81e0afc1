//! Named groups of addresses, kept by an owner. Two tables are kept:
//! each group's addresses, and each address's groups. Adding and
//! removing addresses updates both; creating an empty group or deleting
//! a group touches only the first.
//!
//! Addresses reach the handlers already validated.
use crate::proposal_single::proposal::copy_strings;
use crate::std_error::StdError;
use crate::key_order::key_lt;
use crate::table::StrMap;
use vstd::prelude::*;
use vstd::string::StringExecFns;

verus! {

/// The contents of a list of strings, as a set.
pub open spec fn set_of(v: Seq<String>) -> Set<Seq<char>> {
    Set::new(|a: Seq<char>| exists|i: int| 0 <= i < v.len() && (#[trigger] v[i])@ == a)
}

/// No string occurs twice in the list.
pub open spec fn distinct(v: Seq<String>) -> bool {
    forall|i: int, j: int| 0 <= i < j < v.len() ==> (#[trigger] v[i])@ != (#[trigger] v[j])@
}

/// Whether `a` occurs in `v`.
pub fn vec_contains(v: &Vec<String>, a: &String) -> (r: bool)
    ensures
        r == set_of(v@).contains(a@),
{
    let mut i: usize = 0;
    while i < v.len()
        invariant
            i <= v@.len(),
            forall|j: int| 0 <= j < i ==> (#[trigger] v@[j])@ != a@,
        decreases v.len() - i,
    {
        if v[i] == *a {
            proof {
                assert(set_of(v@).contains(a@)) by {
                    assert(v@[i as int]@ == a@);
                }
            }
            return true;
        }
        i = i + 1;
    }
    false
}

/// Adds to `v` each string of `values` it does not hold yet.
pub fn insert_all(v: &mut Vec<String>, values: &Vec<String>)
    requires
        distinct(old(v)@),
    ensures
        distinct(final(v)@),
        set_of(final(v)@) == set_of(old(v)@).union(set_of(values@)),
{
    let ghost start = v@;
    let mut i: usize = 0;
    while i < values.len()
        invariant
            i <= values@.len(),
            distinct(v@),
            set_of(v@) == set_of(start).union(set_of(values@.subrange(0, i as int))),
        decreases values.len() - i,
    {
        let ghost before = v@;
        let ghost a = values@[i as int]@;
        proof {
            assert(set_of(values@.subrange(0, i + 1)) =~= set_of(values@.subrange(0, i as int)).insert(a)) by {
                assert forall|x: Seq<char>| set_of(values@.subrange(0, i + 1)).contains(x) implies set_of(
                    values@.subrange(0, i as int),
                ).insert(a).contains(x) by {
                    let j = choose|j: int| 0 <= j < i + 1 && (#[trigger] values@.subrange(0, i + 1)[j])@ == x;
                    if j < i {
                        assert(values@.subrange(0, i as int)[j] == values@.subrange(0, i + 1)[j]);
                    }
                }
                assert forall|x: Seq<char>| set_of(values@.subrange(0, i as int)).insert(a).contains(x) implies set_of(
                    values@.subrange(0, i + 1),
                ).contains(x) by {
                    if x == a {
                        assert(values@.subrange(0, i + 1)[i as int]@ == x);
                    } else {
                        let j = choose|j: int| 0 <= j < i && (#[trigger] values@.subrange(0, i as int)[j])@ == x;
                        assert(values@.subrange(0, i + 1)[j] == values@.subrange(0, i as int)[j]);
                    }
                }
            }
        }
        if !vec_contains(v, &values[i]) {
            v.push(values[i].clone());
            proof {
                assert(set_of(v@) =~= set_of(before).insert(a)) by {
                    assert forall|x: Seq<char>| set_of(v@).contains(x) implies set_of(before).insert(a).contains(x) by {
                        let j = choose|j: int| 0 <= j < v@.len() && (#[trigger] v@[j])@ == x;
                        if j < before.len() {
                            assert(before[j] == v@[j]);
                        }
                    }
                    assert forall|x: Seq<char>| set_of(before).insert(a).contains(x) implies set_of(v@).contains(x) by {
                        if x == a {
                            assert(v@[before.len() as int]@ == x);
                        } else {
                            let j = choose|j: int| 0 <= j < before.len() && (#[trigger] before[j])@ == x;
                            assert(v@[j] == before[j]);
                        }
                    }
                }
                assert forall|p: int, q: int| 0 <= p < q < v@.len() implies (#[trigger] v@[p])@ != (#[trigger] v@[q])@ by {
                    if q == before.len() {
                        assert(v@[p] == before[p]);
                        assert(!set_of(before).contains(a));
                        if v@[p]@ == a {
                            assert(set_of(before).contains(a));
                        }
                    } else {
                        assert(v@[p] == before[p] && v@[q] == before[q]);
                    }
                }
            }
        } else {
            proof {
                assert(set_of(before).insert(a) =~= set_of(before));
            }
        }
        proof {
            assert(set_of(v@) =~= set_of(start).union(set_of(values@.subrange(0, i + 1))));
        }
        i = i + 1;
    }
    proof {
        assert(values@.subrange(0, i as int) =~= values@);
    }
}

/// Removes from `v` every string of `values`.
pub fn remove_each(v: &mut Vec<String>, values: &Vec<String>)
    requires
        distinct(old(v)@),
    ensures
        distinct(final(v)@),
        set_of(final(v)@) == set_of(old(v)@).difference(set_of(values@)),
{
    let ghost start = v@;
    let mut kept: Vec<String> = Vec::new();
    let mut i: usize = 0;
    while i < v.len()
        invariant
            v@ == start,
            distinct(start),
            i <= start.len(),
            distinct(kept@),
            set_of(kept@) == set_of(start.subrange(0, i as int)).difference(set_of(values@)),
        decreases v.len() - i,
    {
        let ghost before = kept@;
        let ghost a = start[i as int]@;
        proof {
            assert(set_of(start.subrange(0, i + 1)) =~= set_of(start.subrange(0, i as int)).insert(a)) by {
                assert forall|x: Seq<char>| set_of(start.subrange(0, i + 1)).contains(x) implies set_of(
                    start.subrange(0, i as int),
                ).insert(a).contains(x) by {
                    let j = choose|j: int| 0 <= j < i + 1 && (#[trigger] start.subrange(0, i + 1)[j])@ == x;
                    if j < i {
                        assert(start.subrange(0, i as int)[j] == start.subrange(0, i + 1)[j]);
                    }
                }
                assert forall|x: Seq<char>| set_of(start.subrange(0, i as int)).insert(a).contains(x) implies set_of(
                    start.subrange(0, i + 1),
                ).contains(x) by {
                    if x == a {
                        assert(start.subrange(0, i + 1)[i as int]@ == x);
                    } else {
                        let j = choose|j: int| 0 <= j < i && (#[trigger] start.subrange(0, i as int)[j])@ == x;
                        assert(start.subrange(0, i + 1)[j] == start.subrange(0, i as int)[j]);
                    }
                }
            }
            assert(!set_of(start.subrange(0, i as int)).contains(a)) by {
                if set_of(start.subrange(0, i as int)).contains(a) {
                    let j = choose|j: int| 0 <= j < i && (#[trigger] start.subrange(0, i as int)[j])@ == a;
                    assert(start[j] == start.subrange(0, i as int)[j]);
                    assert(start[j]@ != start[i as int]@);
                }
            }
        }
        if !vec_contains(values, &v[i]) {
            kept.push(v[i].clone());
            proof {
                assert(set_of(kept@) =~= set_of(before).insert(a)) by {
                    assert forall|x: Seq<char>| set_of(kept@).contains(x) implies set_of(before).insert(a).contains(x) by {
                        let j = choose|j: int| 0 <= j < kept@.len() && (#[trigger] kept@[j])@ == x;
                        if j < before.len() {
                            assert(before[j] == kept@[j]);
                        }
                    }
                    assert forall|x: Seq<char>| set_of(before).insert(a).contains(x) implies set_of(kept@).contains(x) by {
                        if x == a {
                            assert(kept@[before.len() as int]@ == x);
                        } else {
                            let j = choose|j: int| 0 <= j < before.len() && (#[trigger] before[j])@ == x;
                            assert(kept@[j] == before[j]);
                        }
                    }
                }
                assert forall|p: int, q: int| 0 <= p < q < kept@.len() implies (#[trigger] kept@[p])@ != (#[trigger] kept@[q])@ by {
                    if q == before.len() {
                        assert(kept@[p] == before[p]);
                        if kept@[p]@ == a {
                            assert(set_of(before).contains(a));
                        }
                    } else {
                        assert(kept@[p] == before[p] && kept@[q] == before[q]);
                    }
                }
            }
        }
        proof {
            assert(set_of(kept@) =~= set_of(start.subrange(0, i + 1)).difference(set_of(values@)));
        }
        i = i + 1;
    }
    proof {
        assert(start.subrange(0, i as int) =~= start);
    }
    *v = kept;
}

/// The strings of `values`, each once, in the order they first occur.
pub fn dedup(values: &Vec<String>) -> (r: Vec<String>)
    ensures
        distinct(r@),
        set_of(r@) == set_of(values@),
{
    let mut r: Vec<String> = Vec::new();
    proof {
        assert(set_of(r@) =~= Set::<Seq<char>>::empty());
    }
    insert_all(&mut r, values);
    proof {
        assert(set_of(r@) =~= set_of(values@));
    }
    r
}

/// Every list in the table holds each string once.
pub open spec fn table_wf(t: StrMap<Vec<String>>) -> bool {
    forall|k: Seq<char>| #[trigger] t.get_spec(k) matches Some(v) ==> distinct(v@)
}

/// The set stored under `k`, if any.
pub open spec fn set_at(t: StrMap<Vec<String>>, k: Seq<char>) -> Option<Set<Seq<char>>> {
    match t.get_spec(k) {
        Some(v) => Some(set_of(v@)),
        None => None,
    }
}

/// The set stored under `k`, empty where there is none.
pub open spec fn set_or_empty(t: StrMap<Vec<String>>, k: Seq<char>) -> Set<Seq<char>> {
    match t.get_spec(k) {
        Some(v) => set_of(v@),
        None => Set::empty(),
    }
}

/// Adds `values` to the set stored under `key`, creating it if needed.
pub fn add_to_map(table: &mut StrMap<Vec<String>>, key: String, values: &Vec<String>)
    requires
        table_wf(*old(table)),
    ensures
        table_wf(*final(table)),
        set_at(*final(table), key@) == Some(set_or_empty(*old(table), key@).union(set_of(values@))),
        forall|k: Seq<char>| k != key@ ==> #[trigger] final(table).get_spec(k) == old(table).get_spec(k),
{
    let mut set: Vec<String> = match table.get_ref(&key) {
        Some(v) => copy_strings(v),
        None => Vec::new(),
    };
    proof {
        if table.get_spec(key@) is None {
            assert(set_of(set@) =~= Set::<Seq<char>>::empty());
        }
    }
    insert_all(&mut set, values);
    table.insert(key, set);
}

/// Removes `values` from the set stored under `key`, storing the result
/// (an empty set where there was none).
pub fn remove_from_map(table: &mut StrMap<Vec<String>>, key: String, values: &Vec<String>)
    requires
        table_wf(*old(table)),
    ensures
        table_wf(*final(table)),
        set_at(*final(table), key@) == Some(set_or_empty(*old(table), key@).difference(set_of(values@))),
        forall|k: Seq<char>| k != key@ ==> #[trigger] final(table).get_spec(k) == old(table).get_spec(k),
{
    let mut set: Vec<String> = match table.get_ref(&key) {
        Some(v) => copy_strings(v),
        None => Vec::new(),
    };
    proof {
        if table.get_spec(key@) is None {
            assert(set_of(set@) =~= Set::<Seq<char>>::empty());
        }
    }
    remove_each(&mut set, values);
    table.insert(key, set);
}

/// Adds `value` to the set stored under each of `keys`.
pub fn add_value_to_each(table: &mut StrMap<Vec<String>>, keys: &Vec<String>, value: &String)
    requires
        table_wf(*old(table)),
    ensures
        table_wf(*final(table)),
        forall|k: Seq<char>| #[trigger]
            set_at(*final(table), k) == if set_of(keys@).contains(k) {
                Some(set_or_empty(*old(table), k).insert(value@))
            } else {
                set_at(*old(table), k)
            },
{
    let ghost start = *table;
    let mut one: Vec<String> = Vec::new();
    one.push(value.clone());
    proof {
        assert(set_of(one@) =~= set![value@]) by {
            assert(one@[0]@ == value@);
        }
    }
    let mut i: usize = 0;
    while i < keys.len()
        invariant
            table_wf(*table),
            set_of(one@) == set![value@],
            i <= keys@.len(),
            forall|k: Seq<char>| #[trigger]
                set_at(*table, k) == if set_of(keys@.subrange(0, i as int)).contains(k) {
                    Some(set_or_empty(start, k).insert(value@))
                } else {
                    set_at(start, k)
                },
        decreases keys.len() - i,
    {
        let ghost before = *table;
        let ghost kk = keys@[i as int]@;
        add_to_map(table, keys[i].clone(), &one);
        proof {
            assert forall|k: Seq<char>| #[trigger]
                set_at(*table, k) == if set_of(keys@.subrange(0, i + 1)).contains(k) {
                    Some(set_or_empty(start, k).insert(value@))
                } else {
                    set_at(start, k)
                } by {
                let in_new = set_of(keys@.subrange(0, i + 1)).contains(k);
                let in_old = set_of(keys@.subrange(0, i as int)).contains(k);
                assert(in_new == (in_old || k == kk)) by {
                    if in_old {
                        let j = choose|j: int| 0 <= j < i && (#[trigger] keys@.subrange(0, i as int)[j])@ == k;
                        assert(keys@.subrange(0, i + 1)[j] == keys@.subrange(0, i as int)[j]);
                    }
                    if k == kk {
                        assert(keys@.subrange(0, i + 1)[i as int]@ == k);
                    }
                    if in_new && k != kk {
                        let j = choose|j: int| 0 <= j < i + 1 && (#[trigger] keys@.subrange(0, i + 1)[j])@ == k;
                        assert(keys@.subrange(0, i as int)[j] == keys@.subrange(0, i + 1)[j]);
                    }
                }
                if k == kk {
                    assert(set_at(before, k) == if in_old {
                        Some(set_or_empty(start, k).insert(value@))
                    } else {
                        set_at(start, k)
                    });
                    assert(set_or_empty(before, k) =~= if in_old {
                        set_or_empty(start, k).insert(value@)
                    } else {
                        set_or_empty(start, k)
                    });
                    assert(set_or_empty(before, k).union(set![value@]) =~= set_or_empty(start, k).insert(value@));
                } else {
                    assert(table.get_spec(k) == before.get_spec(k));
                    assert(set_at(before, k) == if in_old {
                        Some(set_or_empty(start, k).insert(value@))
                    } else {
                        set_at(start, k)
                    });
                }
            }
        }
        i = i + 1;
    }
    proof {
        assert(keys@.subrange(0, i as int) =~= keys@);
    }
}

/// Removes `value` from the set stored under each of `keys`, storing
/// the result (an empty set where there was none).
pub fn remove_value_from_each(table: &mut StrMap<Vec<String>>, keys: &Vec<String>, value: &String)
    requires
        table_wf(*old(table)),
    ensures
        table_wf(*final(table)),
        forall|k: Seq<char>| #[trigger]
            set_at(*final(table), k) == if set_of(keys@).contains(k) {
                Some(set_or_empty(*old(table), k).remove(value@))
            } else {
                set_at(*old(table), k)
            },
{
    let ghost start = *table;
    let mut one: Vec<String> = Vec::new();
    one.push(value.clone());
    proof {
        assert(set_of(one@) =~= set![value@]) by {
            assert(one@[0]@ == value@);
        }
    }
    let mut i: usize = 0;
    while i < keys.len()
        invariant
            table_wf(*table),
            set_of(one@) == set![value@],
            i <= keys@.len(),
            forall|k: Seq<char>| #[trigger]
                set_at(*table, k) == if set_of(keys@.subrange(0, i as int)).contains(k) {
                    Some(set_or_empty(start, k).remove(value@))
                } else {
                    set_at(start, k)
                },
        decreases keys.len() - i,
    {
        let ghost before = *table;
        let ghost kk = keys@[i as int]@;
        remove_from_map(table, keys[i].clone(), &one);
        proof {
            assert forall|k: Seq<char>| #[trigger]
                set_at(*table, k) == if set_of(keys@.subrange(0, i + 1)).contains(k) {
                    Some(set_or_empty(start, k).remove(value@))
                } else {
                    set_at(start, k)
                } by {
                let in_new = set_of(keys@.subrange(0, i + 1)).contains(k);
                let in_old = set_of(keys@.subrange(0, i as int)).contains(k);
                assert(in_new == (in_old || k == kk)) by {
                    if in_old {
                        let j = choose|j: int| 0 <= j < i && (#[trigger] keys@.subrange(0, i as int)[j])@ == k;
                        assert(keys@.subrange(0, i + 1)[j] == keys@.subrange(0, i as int)[j]);
                    }
                    if k == kk {
                        assert(keys@.subrange(0, i + 1)[i as int]@ == k);
                    }
                    if in_new && k != kk {
                        let j = choose|j: int| 0 <= j < i + 1 && (#[trigger] keys@.subrange(0, i + 1)[j])@ == k;
                        assert(keys@.subrange(0, i as int)[j] == keys@.subrange(0, i + 1)[j]);
                    }
                }
                if k == kk {
                    assert(set_at(before, k) == if in_old {
                        Some(set_or_empty(start, k).remove(value@))
                    } else {
                        set_at(start, k)
                    });
                    assert(set_or_empty(before, k) =~= if in_old {
                        set_or_empty(start, k).remove(value@)
                    } else {
                        set_or_empty(start, k)
                    });
                    assert(set_or_empty(before, k).difference(set![value@]) =~= set_or_empty(start, k).remove(value@));
                } else {
                    assert(table.get_spec(k) == before.get_spec(k));
                    assert(set_at(before, k) == if in_old {
                        Some(set_or_empty(start, k).remove(value@))
                    } else {
                        set_at(start, k)
                    });
                }
            }
        }
        i = i + 1;
    }
    proof {
        assert(keys@.subrange(0, i as int) =~= keys@);
    }
}

/// A group's name and addresses.
#[derive(Clone, Debug, PartialEq, Eq)]
pub struct Group {
    pub name: String,
    pub addresses: Vec<String>,
}

/// The groups to start with, if any.
#[derive(Clone, Debug, PartialEq, Eq)]
pub struct InstantiateMsg {
    pub groups: Option<Vec<Group>>,
}

/// Why a message is refused.
#[derive(Clone, Debug, PartialEq, Eq)]
pub enum ContractError {
    Std(StdError),
    Unauthorized {},
    /// No group has this name.
    InvalidGroup(String),
}

/// Every group, in ascending order of name.
#[derive(Clone, Debug, PartialEq, Eq)]
pub struct DumpResponse {
    pub groups: Vec<Group>,
}

#[derive(Clone, Debug, PartialEq, Eq)]
pub struct ListAddressesResponse {
    pub addresses: Vec<String>,
}

#[derive(Clone, Debug, PartialEq, Eq)]
pub struct ListGroupsResponse {
    pub groups: Vec<String>,
}

#[derive(Clone, Copy, Debug, PartialEq, Eq, Structural)]
pub struct IsAddressInGroupResponse {
    pub is_in_group: bool,
}

/// The owner and the two tables.
#[derive(Debug)]
pub struct NamedGroups {
    pub owner: String,
    /// Group name to its addresses.
    pub groups: StrMap<Vec<String>>,
    /// Address to the names of its groups.
    pub addresses: StrMap<Vec<String>>,
}

/// The position of the last group named `g`, if any.
pub open spec fn last_named(gs: Seq<Group>, g: Seq<char>) -> Option<int>
    decreases gs.len(),
{
    if gs.len() == 0 {
        None
    } else if gs.last().name@ == g {
        Some(gs.len() - 1)
    } else {
        last_named(gs.drop_last(), g)
    }
}

/// Some group lists the address `a`.
pub open spec fn listed_in(gs: Seq<Group>, a: Seq<char>) -> bool {
    exists|i: int| 0 <= i < gs.len() && set_of((#[trigger] gs[i]).addresses@).contains(a)
}

/// The names of the groups that list the address `a`.
pub open spec fn names_listing(gs: Seq<Group>, a: Seq<char>) -> Set<Seq<char>> {
    Set::new(|n: Seq<char>| exists|i: int| 0 <= i < gs.len() && (#[trigger] gs[i]).name@ == n && set_of(gs[i].addresses@).contains(a))
}

impl NamedGroups {
    /// Each stored list holds every string once.
    pub open spec fn wf(&self) -> bool {
        table_wf(self.groups) && table_wf(self.addresses)
    }

    /// The addresses of group `g`, if it exists.
    pub open spec fn members(&self, g: Seq<char>) -> Option<Set<Seq<char>>> {
        set_at(self.groups, g)
    }

    /// The groups recorded for address `a`, if any entry exists.
    pub open spec fn groups_of(&self, a: Seq<char>) -> Option<Set<Seq<char>>> {
        set_at(self.addresses, a)
    }

    /// `new` is this state with the addresses `v` added to group `g`.
    pub open spec fn after_add(&self, new: NamedGroups, g: Seq<char>, v: Seq<String>) -> bool {
        &&& new.members(g) == Some(set_or_empty(self.groups, g).union(set_of(v)))
        &&& forall|h: Seq<char>| h != g ==> #[trigger] new.groups.get_spec(h) == self.groups.get_spec(h)
        &&& forall|a: Seq<char>| #[trigger]
            new.groups_of(a) == if set_of(v).contains(a) {
                Some(set_or_empty(self.addresses, a).insert(g))
            } else {
                self.groups_of(a)
            }
    }

    /// `new` is this state with the addresses `v` removed from group `g`.
    pub open spec fn after_remove(&self, new: NamedGroups, g: Seq<char>, v: Seq<String>) -> bool {
        &&& new.members(g) == Some(set_or_empty(self.groups, g).difference(set_of(v)))
        &&& forall|h: Seq<char>| h != g ==> #[trigger] new.groups.get_spec(h) == self.groups.get_spec(h)
        &&& forall|a: Seq<char>| #[trigger]
            new.groups_of(a) == if set_of(v).contains(a) {
                Some(set_or_empty(self.addresses, a).remove(g))
            } else {
                self.groups_of(a)
            }
    }

    /// Creates the contract, owned by `sender`, with the groups given;
    /// where two groups share a name, the later one's addresses stand in
    /// the group table while the address table records both.
    pub fn instantiate(sender: String, msg: InstantiateMsg) -> (r: NamedGroups)
        ensures
            r.wf(),
            r.owner == sender,
            ({
                let gs = match msg.groups {
                    Some(v) => v@,
                    None => Seq::<Group>::empty(),
                };
                &&& forall|g: Seq<char>| #[trigger]
                    r.members(g) == match last_named(gs, g) {
                        Some(j) => Some(set_of(gs[j].addresses@)),
                        None => None,
                    }
                &&& forall|a: Seq<char>| #[trigger]
                    r.groups_of(a) == if listed_in(gs, a) {
                        Some(names_listing(gs, a))
                    } else {
                        None
                    }
            }),
    {
        let mut state = NamedGroups { owner: sender, groups: StrMap::new(), addresses: StrMap::new() };
        let gs: Vec<Group> = match msg.groups {
            Some(v) => v,
            None => Vec::new(),
        };
        let mut i: usize = 0;
        while i < gs.len()
            invariant
                state.wf(),
                state.owner == sender,
                i <= gs@.len(),
                forall|g: Seq<char>| #[trigger]
                    state.members(g) == match last_named(gs@.subrange(0, i as int), g) {
                        Some(j) => Some(set_of(gs@.subrange(0, i as int)[j].addresses@)),
                        None => None,
                    },
                forall|a: Seq<char>| #[trigger]
                    state.groups_of(a) == if listed_in(gs@.subrange(0, i as int), a) {
                        Some(names_listing(gs@.subrange(0, i as int), a))
                    } else {
                        None
                    },
            decreases gs.len() - i,
        {
            let ghost p = gs@.subrange(0, i as int);
            let ghost q = gs@.subrange(0, i + 1);
            let ghost grp = gs@[i as int];
            let ghost before = state;
            let addrs = dedup(&gs[i].addresses);
            let ghost av = addrs@;
            state.groups.insert(gs[i].name.clone(), addrs);
            add_value_to_each(&mut state.addresses, &gs[i].addresses, &gs[i].name);
            proof {
                assert(q.drop_last() =~= p);
                assert(q.last() == grp);
                assert forall|j: int| 0 <= j < i implies #[trigger] q[j] == p[j] by {}
                assert forall|g: Seq<char>| #[trigger]
                    state.members(g) == match last_named(q, g) {
                        Some(j) => Some(set_of(q[j].addresses@)),
                        None => None,
                    } by {
                    if g == grp.name@ {
                        assert(last_named(q, g) == Some(i as int));
                        assert(state.groups.get_spec(g) matches Some(v) && v@ == av);
                        assert(set_of(av) == set_of(grp.addresses@));
                    } else {
                        assert(last_named(q, g) == last_named(p, g));
                        assert(state.groups.get_spec(g) == before.groups.get_spec(g));
                        assert(before.members(g) == match last_named(p, g) {
                            Some(j) => Some(set_of(p[j].addresses@)),
                            None => None,
                        });
                        if let Some(j) = last_named(p, g) {
                            lemma_last_named_in_range(p, g);
                            assert(q[j] == p[j]);
                        }
                    }
                }
                assert forall|a: Seq<char>| #[trigger]
                    state.groups_of(a) == if listed_in(q, a) {
                        Some(names_listing(q, a))
                    } else {
                        None
                    } by {
                    let in_g = set_of(grp.addresses@).contains(a);
                    assert(listed_in(q, a) == (listed_in(p, a) || in_g)) by {
                        if listed_in(p, a) {
                            let j = choose|j: int| 0 <= j < p.len() && set_of((#[trigger] p[j]).addresses@).contains(a);
                            assert(q[j] == p[j]);
                        }
                        if in_g {
                            assert(set_of(q[i as int].addresses@).contains(a));
                        }
                        if listed_in(q, a) && !in_g {
                            let j = choose|j: int| 0 <= j < q.len() && set_of((#[trigger] q[j]).addresses@).contains(a);
                            assert(j < i);
                            assert(p[j] == q[j]);
                        }
                    }
                    assert(names_listing(q, a) =~= if in_g {
                        names_listing(p, a).insert(grp.name@)
                    } else {
                        names_listing(p, a)
                    }) by {
                        assert forall|n: Seq<char>| names_listing(q, a).contains(n) implies (if in_g {
                            names_listing(p, a).insert(grp.name@)
                        } else {
                            names_listing(p, a)
                        }).contains(n) by {
                            let j = choose|j: int| 0 <= j < q.len() && (#[trigger] q[j]).name@ == n && set_of(q[j].addresses@).contains(a);
                            if j < i {
                                assert(p[j] == q[j]);
                            }
                        }
                        assert forall|n: Seq<char>| (if in_g {
                            names_listing(p, a).insert(grp.name@)
                        } else {
                            names_listing(p, a)
                        }).contains(n) implies names_listing(q, a).contains(n) by {
                            if in_g && n == grp.name@ {
                                assert(q[i as int].name@ == n && set_of(q[i as int].addresses@).contains(a));
                            } else {
                                let j = choose|j: int| 0 <= j < p.len() && (#[trigger] p[j]).name@ == n && set_of(p[j].addresses@).contains(a);
                                assert(q[j] == p[j]);
                            }
                        }
                    }
                    if !listed_in(p, a) {
                        assert(names_listing(p, a) =~= Set::<Seq<char>>::empty()) by {
                            assert forall|n: Seq<char>| !names_listing(p, a).contains(n) by {
                                if names_listing(p, a).contains(n) {
                                    let j = choose|j: int| 0 <= j < p.len() && (#[trigger] p[j]).name@ == n && set_of(p[j].addresses@).contains(a);
                                    assert(set_of(p[j].addresses@).contains(a));
                                }
                            }
                        }
                    }
                    assert(before.groups_of(a) == if listed_in(p, a) {
                        Some(names_listing(p, a))
                    } else {
                        None
                    });
                    assert(set_or_empty(before.addresses, a) == if listed_in(p, a) {
                        names_listing(p, a)
                    } else {
                        Set::<Seq<char>>::empty()
                    });
                    if in_g {
                        assert(set_or_empty(before.addresses, a).insert(grp.name@) =~= names_listing(q, a));
                    }
                }
            }
            i = i + 1;
        }
        proof {
            assert(gs@.subrange(0, i as int) =~= gs@);
        }
        state
    }

    /// Adds addresses to a group (none given creates or empties it). Only
    /// the owner may.
    pub fn execute_add(&mut self, sender: String, group: String, addresses: Option<Vec<String>>) -> (r: Result<(), ContractError>)
        requires
            old(self).wf(),
        ensures
            final(self).wf(),
            sender@ != old(self).owner@ ==> r == Err::<(), ContractError>(ContractError::Unauthorized {})
                && *final(self) == *old(self),
            sender@ == old(self).owner@ ==> r is Ok && final(self).owner == old(self).owner && match addresses {
                None => final(self).addresses == old(self).addresses && final(self).members(group@) == Some(
                    Set::<Seq<char>>::empty(),
                ) && forall|g: Seq<char>| g != group@ ==> #[trigger] final(self).groups.get_spec(g) == old(self).groups.get_spec(g),
                Some(v) => if v@.len() == 0 {
                    *final(self) == *old(self)
                } else {
                    old(self).after_add(*final(self), group@, v@)
                },
            },
    {
        if sender != self.owner {
            return Err(ContractError::Unauthorized {});
        }
        match addresses {
            Some(v) => {
                if v.len() > 0 {
                    let addrs = dedup(&v);
                    add_value_to_each(&mut self.addresses, &addrs, &group);
                    add_to_map(&mut self.groups, group, &addrs);
                }
            },
            None => {
                let empty: Vec<String> = Vec::new();
                proof {
                    assert(set_of(empty@) =~= Set::<Seq<char>>::empty());
                }
                self.groups.insert(group, empty);
            },
        }
        Ok(())
    }

    /// Removes addresses from a group (none given deletes the group).
    /// Only the owner may, and only from a group that exists.
    pub fn execute_remove(&mut self, sender: String, group: String, addresses: Option<Vec<String>>) -> (r: Result<(), ContractError>)
        requires
            old(self).wf(),
        ensures
            final(self).wf(),
            sender@ != old(self).owner@ ==> r == Err::<(), ContractError>(ContractError::Unauthorized {})
                && *final(self) == *old(self),
            sender@ == old(self).owner@ && old(self).members(group@) is None ==> r == Err::<(), ContractError>(
                ContractError::InvalidGroup(group),
            ) && *final(self) == *old(self),
            sender@ == old(self).owner@ && old(self).members(group@) is Some ==> r is Ok && final(self).owner == old(self).owner
                && match addresses {
                None => final(self).addresses == old(self).addresses && final(self).members(group@) is None && forall|g: Seq<char>|
                    g != group@ ==> #[trigger] final(self).groups.get_spec(g) == old(self).groups.get_spec(g),
                Some(v) => if v@.len() == 0 {
                    *final(self) == *old(self)
                } else {
                    old(self).after_remove(*final(self), group@, v@)
                },
            },
    {
        if sender != self.owner {
            return Err(ContractError::Unauthorized {});
        }
        if !self.groups.contains(&group) {
            return Err(ContractError::InvalidGroup(group));
        }
        match addresses {
            Some(v) => {
                if v.len() > 0 {
                    let addrs = dedup(&v);
                    remove_value_from_each(&mut self.addresses, &addrs, &group);
                    remove_from_map(&mut self.groups, group, &addrs);
                }
            },
            None => {
                self.groups.remove(&group);
            },
        }
        Ok(())
    }

    /// Hands the contract to a new owner. Only the owner may.
    pub fn execute_change_owner(&mut self, sender: String, new_owner: String) -> (r: Result<(), ContractError>)
        ensures
            sender@ != old(self).owner@ ==> r == Err::<(), ContractError>(ContractError::Unauthorized {})
                && *final(self) == *old(self),
            sender@ == old(self).owner@ ==> r is Ok && *final(self) == (NamedGroups { owner: new_owner, ..*old(self) }),
    {
        if sender != self.owner {
            return Err(ContractError::Unauthorized {});
        }
        self.owner = new_owner;
        Ok(())
    }
}

/// The part of `v` a page shows: skip `offset` entries, then take
/// `limit` of them (by default as many as `v` holds, counted in 32 bits).
pub open spec fn page(v: Seq<String>, offset: Option<u32>, limit: Option<u32>) -> Seq<String> {
    let start: int = match offset {
        Some(o) => if o < v.len() {
            o as int
        } else {
            v.len() as int
        },
        None => 0,
    };
    let count: int = match limit {
        Some(l) => l as int,
        None => (v.len() as u32) as int,
    };
    let end: int = if start + count < v.len() {
        start + count
    } else {
        v.len() as int
    };
    v.subrange(start, end)
}

/// The part of `v` a page shows.
pub fn paginate(v: &Vec<String>, offset: Option<u32>, limit: Option<u32>) -> (r: Vec<String>)
    ensures
        r@ == page(v@, offset, limit),
{
    let len = v.len();
    let start: usize = match offset {
        Some(o) => if (o as usize) < len {
            o as usize
        } else {
            len
        },
        None => 0,
    };
    let count: usize = match limit {
        Some(l) => l as usize,
        None => (len as u32) as usize,
    };
    let end: usize = if count < len - start {
        start + count
    } else {
        len
    };
    let mut r: Vec<String> = Vec::new();
    let mut i: usize = start;
    while i < end
        invariant
            start <= i <= end <= v@.len(),
            r@ == v@.subrange(start as int, i as int),
        decreases end - i,
    {
        r.push(v[i].clone());
        proof {
            assert(r@ =~= v@.subrange(start as int, i + 1));
        }
        i = i + 1;
    }
    r
}

impl NamedGroups {
    /// Every group with its addresses, in ascending order of name.
    pub fn query_dump(&self) -> (r: DumpResponse)
        ensures
            forall|i: int, j: int| 0 <= i < j < r.groups@.len() ==> key_lt((#[trigger] r.groups@[i]).name@, (#[trigger] r.groups@[j]).name@),
            forall|i: int| 0 <= i < r.groups@.len() ==> (self.groups.get_spec((#[trigger] r.groups@[i]).name@) matches Some(v) && r.groups@[i].addresses@ == v@),
            forall|g: Seq<char>| #[trigger] self.groups.get_spec(g) is Some ==> exists|i: int| 0 <= i < r.groups@.len() && (#[trigger] r.groups@[i]).name@ == g,
    {
        let names = self.groups.key_set();
        let pairs = names.list_desc(None, None);
        let n = pairs.len();
        let mut out: Vec<Group> = Vec::new();
        let mut i: usize = n;
        while i > 0
            invariant
                n == pairs@.len(),
                i <= n,
                names.desc_listing(None, None, pairs@),
                forall|k: Seq<char>| (#[trigger] names.get_spec(k) is Some) == (self.groups.get_spec(k) is Some),
                out@.len() == n - i,
                forall|k: int| 0 <= k < out@.len() ==> (#[trigger] out@[k]).name@ == pairs@[n - 1 - k].0@,
                forall|k: int| 0 <= k < out@.len() ==> (self.groups.get_spec((#[trigger] out@[k]).name@) matches Some(v) && out@[k].addresses@ == v@),
            decreases i,
        {
            i = i - 1;
            let name = pairs[i].0.clone();
            proof {
                assert(names.get_spec(pairs@[i as int].0@) == Some(pairs@[i as int].1));
            }
            let addresses = match self.groups.get_ref(&name) {
                Some(v) => copy_strings(v),
                None => Vec::new(),
            };
            out.push(Group { name, addresses });
        }
        proof {
            assert forall|a: int, b: int| 0 <= a < b < out@.len() implies key_lt((#[trigger] out@[a]).name@, (#[trigger] out@[b]).name@) by {
                assert(key_lt(pairs@[n - 1 - a].0@, pairs@[n - 1 - b].0@));
            }
            assert forall|g: Seq<char>| #[trigger] self.groups.get_spec(g) is Some implies exists|k: int| 0 <= k < out@.len() && (#[trigger] out@[k]).name@ == g by {
                assert(names.get_spec(g) is Some);
                let j = choose|j: int| 0 <= j < pairs@.len() && (#[trigger] pairs@[j]).0@ == g;
                assert(out@[n - 1 - j].name@ == g);
            }
        }
        DumpResponse { groups: out }
    }

    /// A page of the addresses of `group`; fails where the group does not
    /// exist.
    pub fn query_list_addresses(&self, group: &String, offset: Option<u32>, limit: Option<u32>) -> (r: Result<ListAddressesResponse, StdError>)
        ensures
            match self.groups.get_spec(group@) {
                None => r == Err::<ListAddressesResponse, StdError>(StdError::NotFound {}),
                Some(v) => r matches Ok(resp) && resp.addresses@ == page(v@, offset, limit),
            },
    {
        match self.groups.get_ref(group) {
            None => Err(StdError::NotFound {}),
            Some(v) => Ok(ListAddressesResponse { addresses: paginate(v, offset, limit) }),
        }
    }

    /// A page of the groups recorded for `address` (none where nothing is
    /// recorded).
    pub fn query_list_groups(&self, address: &String, offset: Option<u32>, limit: Option<u32>) -> (r: ListGroupsResponse)
        ensures
            match self.addresses.get_spec(address@) {
                None => r.groups@.len() == 0,
                Some(v) => r.groups@ == page(v@, offset, limit),
            },
    {
        match self.addresses.get_ref(address) {
            None => ListGroupsResponse { groups: Vec::new() },
            Some(v) => ListGroupsResponse { groups: paginate(v, offset, limit) },
        }
    }

    /// Whether `address` is in `group`; fails where the group does not
    /// exist.
    pub fn query_is_address_in_group(&self, address: &String, group: &String) -> (r: Result<IsAddressInGroupResponse, StdError>)
        ensures
            match self.members(group@) {
                None => r == Err::<IsAddressInGroupResponse, StdError>(StdError::NotFound {}),
                Some(m) => r == Ok::<IsAddressInGroupResponse, StdError>(IsAddressInGroupResponse { is_in_group: m.contains(address@) }),
            },
    {
        match self.groups.get_ref(group) {
            None => Err(StdError::NotFound {}),
            Some(v) => Ok(IsAddressInGroupResponse { is_in_group: vec_contains(v, address) }),
        }
    }
}

/// The decimal digit `d`.
pub open spec fn digit_char(d: int) -> char {
    if d == 0 {
        '0'
    } else if d == 1 {
        '1'
    } else if d == 2 {
        '2'
    } else if d == 3 {
        '3'
    } else if d == 4 {
        '4'
    } else if d == 5 {
        '5'
    } else if d == 6 {
        '6'
    } else if d == 7 {
        '7'
    } else if d == 8 {
        '8'
    } else {
        '9'
    }
}

/// The decimal digits of `n`, without leading zeros.
pub open spec fn decimal(n: u8) -> Seq<char> {
    if n >= 100 {
        seq![digit_char((n / 100) as int), digit_char(((n / 10) % 10) as int), digit_char((n % 10) as int)]
    } else if n >= 10 {
        seq![digit_char((n / 10) as int), digit_char((n % 10) as int)]
    } else {
        seq![digit_char(n as int)]
    }
}

fn digit_str(d: u8) -> (r: &'static str)
    requires
        d < 10,
    ensures
        r@ == seq![digit_char(d as int)],
{
    if d == 0 {
        proof {
            reveal_strlit("0");
        }
        "0"
    } else if d == 1 {
        proof {
            reveal_strlit("1");
        }
        "1"
    } else if d == 2 {
        proof {
            reveal_strlit("2");
        }
        "2"
    } else if d == 3 {
        proof {
            reveal_strlit("3");
        }
        "3"
    } else if d == 4 {
        proof {
            reveal_strlit("4");
        }
        "4"
    } else if d == 5 {
        proof {
            reveal_strlit("5");
        }
        "5"
    } else if d == 6 {
        proof {
            reveal_strlit("6");
        }
        "6"
    } else if d == 7 {
        proof {
            reveal_strlit("7");
        }
        "7"
    } else if d == 8 {
        proof {
            reveal_strlit("8");
        }
        "8"
    } else {
        proof {
            reveal_strlit("9");
        }
        "9"
    }
}

/// The decimal representation of `n`.
pub fn decimal_string(n: u8) -> (r: String)
    ensures
        r@ == decimal(n),
{
    let mut s = String::new();
    if n >= 100 {
        s.append(digit_str(n / 100));
    }
    if n >= 10 {
        s.append(digit_str((n / 10) % 10));
    }
    s.append(digit_str(n % 10));
    proof {
        assert(s@ =~= decimal(n));
    }
    s
}

/// The group numbered `id`: named `GROUP{id}_NAME`, holding the one
/// address `USER{id}`.
pub fn group_factory(id: u8) -> (r: Group)
    ensures
        r.name@ == "GROUP"@ + decimal(id) + "_NAME"@,
        r.addresses@.len() == 1,
        r.addresses@[0]@ == "USER"@ + decimal(id),
{
    let digits = decimal_string(id);
    let mut name = String::from_str("GROUP");
    name.append(digits.as_str());
    name.append("_NAME");
    let mut user = String::from_str("USER");
    user.append(digits.as_str());
    let mut addresses: Vec<String> = Vec::new();
    addresses.push(user);
    Group { name, addresses }
}

proof fn lemma_last_named_in_range(gs: Seq<Group>, g: Seq<char>)
    ensures
        last_named(gs, g) matches Some(j) ==> 0 <= j < gs.len() && gs[j].name@ == g,
    decreases gs.len(),
{
    if gs.len() > 0 && gs.last().name@ != g {
        lemma_last_named_in_range(gs.drop_last(), g);
        if let Some(j) = last_named(gs.drop_last(), g) {
            assert(gs[j] == gs.drop_last()[j]);
        }
    }
}

/// Adding addresses to a group and removing them again leaves the group
/// with the members it had but those addresses, and leaves each of those
/// addresses listed in the groups it was listed in, but that one.
pub proof fn law_remove_undoes_add(before: NamedGroups, mid: NamedGroups, after: NamedGroups, g: Seq<char>, v: Seq<String>)
    requires
        before.after_add(mid, g, v),
        mid.after_remove(after, g, v),
    ensures
        after.members(g) == Some(set_or_empty(before.groups, g).difference(set_of(v))),
        forall|h: Seq<char>| h != g ==> #[trigger] after.groups.get_spec(h) == before.groups.get_spec(h),
        forall|a: Seq<char>| #[trigger] set_of(v).contains(a) ==> after.groups_of(a) == Some(set_or_empty(before.addresses, a).remove(g)),
        forall|a: Seq<char>| !set_of(v).contains(a) ==> #[trigger] after.groups_of(a) == before.groups_of(a),
{
    assert(set_or_empty(mid.groups, g) == set_or_empty(before.groups, g).union(set_of(v)));
    assert(set_or_empty(before.groups, g).union(set_of(v)).difference(set_of(v)) =~= set_or_empty(before.groups, g).difference(set_of(v)));
    assert forall|a: Seq<char>| #[trigger] set_of(v).contains(a) implies after.groups_of(a) == Some(set_or_empty(before.addresses, a).remove(g)) by {
        assert(mid.groups_of(a) == Some(set_or_empty(before.addresses, a).insert(g)));
        assert(set_or_empty(mid.addresses, a) == set_or_empty(before.addresses, a).insert(g));
        assert(set_or_empty(before.addresses, a).insert(g).remove(g) =~= set_or_empty(before.addresses, a).remove(g));
    }
    assert forall|h: Seq<char>| h != g implies #[trigger] after.groups.get_spec(h) == before.groups.get_spec(h) by {
        assert(mid.groups.get_spec(h) == before.groups.get_spec(h));
    }
    assert forall|a: Seq<char>| !set_of(v).contains(a) implies #[trigger] after.groups_of(a) == before.groups_of(a) by {
        assert(mid.groups_of(a) == before.groups_of(a));
    }
}

proof fn lemma_digit_char_injective(x: int, y: int)
    requires
        0 <= x < 10,
        0 <= y < 10,
        digit_char(x) == digit_char(y),
    ensures
        x == y,
{
}

/// Different numbers have different decimal representations.
proof fn lemma_decimal_injective(a: u8, b: u8)
    requires
        decimal(a) == decimal(b),
    ensures
        a == b,
{
    let da = decimal(a);
    let db = decimal(b);
    assert(da.len() == db.len());
    assert(da[0] == db[0]);
    if a >= 100 {
        assert(b >= 100);
        assert(da[1] == db[1]);
        assert(da[2] == db[2]);
        lemma_digit_char_injective((a / 100) as int, (b / 100) as int);
        lemma_digit_char_injective(((a / 10) % 10) as int, ((b / 10) % 10) as int);
        lemma_digit_char_injective((a % 10) as int, (b % 10) as int);
    } else if a >= 10 {
        assert(10 <= b < 100);
        assert(da[1] == db[1]);
        lemma_digit_char_injective((a / 10) as int, (b / 10) as int);
        lemma_digit_char_injective((a % 10) as int, (b % 10) as int);
    } else {
        assert(b < 10);
        lemma_digit_char_injective(a as int, b as int);
    }
}

/// Groups made for different numbers differ in name and in address.
pub proof fn law_group_factory_distinct(a: u8, b: u8)
    requires
        a != b,
    ensures
        "GROUP"@ + decimal(a) + "_NAME"@ != "GROUP"@ + decimal(b) + "_NAME"@,
        "USER"@ + decimal(a) != "USER"@ + decimal(b),
{
    reveal_strlit("GROUP");
    reveal_strlit("_NAME");
    reveal_strlit("USER");
    let prefix = "GROUP"@;
    let suffix = "_NAME"@;
    if prefix + decimal(a) + suffix == prefix + decimal(b) + suffix {
        let x = prefix + decimal(a) + suffix;
        assert(x.len() == 10 + decimal(a).len());
        assert(decimal(a).len() == decimal(b).len());
        assert(x.subrange(5, 5 + decimal(a).len() as int) =~= decimal(a));
        assert((prefix + decimal(b) + suffix).subrange(5, 5 + decimal(b).len() as int) =~= decimal(b));
        lemma_decimal_injective(a, b);
    }
    if "USER"@ + decimal(a) == "USER"@ + decimal(b) {
        let y = "USER"@ + decimal(a);
        assert(y.subrange(4, y.len() as int) =~= decimal(a));
        assert(("USER"@ + decimal(b)).subrange(4, y.len() as int) =~= decimal(b));
        lemma_decimal_injective(a, b);
    }
}

} // verus!
