//! A fund distributor: tokens sent to it are shared among the holders
//! of voting power at a fixed block height, each entitled to the share
//! of every fund that its power is of the total power. Holders claim
//! their share; the admin may withdraw what is left.
//!
//! Voting powers and token balances are answered by other contracts;
//! the caller asks for them and hands them in.
use crate::math::{div_wide, mul_wide, wide, base128};
use crate::names_registry::Coin;
use crate::std_error::StdError;
use crate::table::{lookup, opt_string, StrMap};
use vstd::arithmetic::div_mod::{lemma_div_by_multiple, lemma_div_is_ordered, lemma_fundamental_div_mod, lemma_mod_pos_bound};
use vstd::arithmetic::mul::{lemma_mul_inequality, lemma_mul_is_distributive_add};
use vstd::prelude::*;

verus! {

/// Why the distributor refuses a message.
#[derive(Clone, Copy, Debug, PartialEq, Eq, Structural)]
pub enum ContractError {
    Std(StdError),
    Unauthorized {},
    /// The distribution height is above the current block height.
    DistributionHeight {},
    ZeroFunds {},
    /// Nobody held voting power at the distribution height.
    ZeroTotalPower {},
}

/// The distributor's configuration at creation.
#[derive(Clone, Debug, PartialEq, Eq)]
pub struct InstantiateMsg {
    pub admin: Option<String>,
    pub voting_contract: String,
    pub distribution_height: u64,
}

/// A token being distributed and the amount set aside for it.
#[derive(Clone, Debug, PartialEq, Eq)]
pub struct DenomResponse {
    pub contract_balance: u128,
    pub denom: String,
}

/// What an address may still claim of a native token.
#[derive(Clone, Debug, PartialEq, Eq)]
pub struct NativeEntitlementResponse {
    pub amount: u128,
    pub denom: String,
}

/// What an address may still claim of a cw20 token.
#[derive(Clone, Debug, PartialEq, Eq)]
pub struct Cw20EntitlementResponse {
    pub amount: u128,
    pub token_contract: String,
}

#[derive(Clone, Debug, PartialEq, Eq)]
pub struct AdminResponse {
    pub admin: Option<String>,
}

/// The voting contract and the height at which power is measured.
#[derive(Clone, Debug, PartialEq, Eq)]
pub struct VotingContractResponse {
    pub contract: String,
    pub distribution_height: u64,
}

/// The distributor's state: funds per token and what each address has
/// claimed of each.
pub struct Distributor {
    pub admin: Option<String>,
    pub distribution_height: u64,
    pub total_power: u128,
    pub voting_contract: String,
    pub cw20s: StrMap<u128>,
    pub natives: StrMap<u128>,
    /// Address, then token address, to the amount claimed.
    pub cw20_claims: StrMap<StrMap<u128>>,
    /// Address, then denomination, to the amount claimed.
    pub native_claims: StrMap<StrMap<u128>>,
}

/// The share of `provided` that `power` out of `total` is entitled to,
/// rounded down.
pub open spec fn entitled(provided: u128, power: u128, total: u128) -> int {
    (provided * power) / (total as int)
}

/// The share can be held in 128 bits, or there is no total power.
pub open spec fn share_fits(provided: u128, power: u128, total: u128) -> bool {
    total == 0 || entitled(provided, power, total) < base128()
}

/// What is left to claim of a share after `claimed` was claimed.
pub open spec fn still_entitled(provided: u128, power: u128, total: u128, claimed: int) -> int {
    if claimed > entitled(provided, power, total) {
        0
    } else {
        entitled(provided, power, total) - claimed
    }
}

proof fn lemma_high_below(hi: u128, lo: u128, d: u128)
    requires
        d > 0,
        wide(hi, lo) / (d as int) < base128(),
    ensures
        hi < d,
{
    let x = wide(hi, lo);
    lemma_fundamental_div_mod(x, d as int);
    lemma_mod_pos_bound(x, d as int);
    if hi >= d {
        let q = x / (d as int);
        assert(x >= (d as int) * 0x1_0000_0000_0000_0000_0000_0000_0000_0000int) by (nonlinear_arith)
            requires
                x == hi * 0x1_0000_0000_0000_0000_0000_0000_0000_0000int + lo,
                hi >= d,
                lo >= 0,
        ;
        assert(false) by (nonlinear_arith)
            requires
                x == (d as int) * q + x % (d as int),
                0 <= x % (d as int) < d,
                q < 0x1_0000_0000_0000_0000_0000_0000_0000_0000int,
                x >= (d as int) * 0x1_0000_0000_0000_0000_0000_0000_0000_0000int,
                d > 0,
        ;
    }
}

/// The share of `provided` that `voting_power` out of `total_power` is
/// entitled to, rounded down; computed exactly on 256 bits.
pub fn compute_entitled(provided: u128, voting_power: u128, total_power: u128) -> (r: Result<u128, StdError>)
    requires
        share_fits(provided, voting_power, total_power),
    ensures
        total_power == 0 ==> r == Err::<u128, StdError>(StdError::DivideByZero {}),
        total_power > 0 ==> (r matches Ok(v) && v == entitled(provided, voting_power, total_power)),
{
    if total_power == 0 {
        return Err(StdError::DivideByZero {});
    }
    let product = mul_wide(provided, voting_power);
    proof {
        lemma_high_below(product.0, product.1, total_power);
    }
    let (q, _rem) = div_wide(product, total_power);
    Ok(q)
}

/// The sum of the amounts listed under key `k`.
pub open spec fn amount_sum(items: Seq<(String, u128)>, k: Seq<char>) -> int
    decreases items.len(),
{
    if items.len() == 0 {
        0
    } else {
        amount_sum(items.drop_last(), k) + if items.last().0@ == k {
            items.last().1 as int
        } else {
            0
        }
    }
}

/// Some item is listed under key `k`.
pub open spec fn mentions(items: Seq<(String, u128)>, k: Seq<char>) -> bool {
    exists|i: int| 0 <= i < items.len() && (#[trigger] items[i]).0@ == k
}

/// The amount stored under `k`, zero where there is none.
pub open spec fn stored(m: StrMap<u128>, k: Seq<char>) -> int {
    match m.get_spec(k) {
        Some(v) => v as int,
        None => 0,
    }
}

/// Adding every item to the table overflows under no key.
pub open spec fn adds_fit(m: StrMap<u128>, items: Seq<(String, u128)>) -> bool {
    forall|k: Seq<char>| #[trigger] stored(m, k) + amount_sum(items, k) <= u128::MAX
}

/// `after` is `before` with every item added under its key.
pub open spec fn added_all(before: StrMap<u128>, after: StrMap<u128>, items: Seq<(String, u128)>) -> bool {
    forall|k: Seq<char>| #[trigger]
        after.get_spec(k) == if mentions(items, k) {
            Some((stored(before, k) + amount_sum(items, k)) as u128)
        } else {
            before.get_spec(k)
        }
}

proof fn lemma_amount_sum_prefix(items: Seq<(String, u128)>, i: int, k: Seq<char>)
    requires
        0 <= i <= items.len(),
    ensures
        amount_sum(items.subrange(0, i), k) <= amount_sum(items, k),
        amount_sum(items, k) >= 0,
    decreases items.len(),
{
    if items.len() > 0 {
        if i == items.len() {
            assert(items.subrange(0, i) =~= items);
            lemma_amount_sum_prefix(items.drop_last(), items.len() - 1, k);
        } else {
            assert(items.drop_last().subrange(0, i) =~= items.subrange(0, i));
            lemma_amount_sum_prefix(items.drop_last(), i, k);
        }
    }
}

/// Adds every item, in order, to the amount stored under its key. On
/// an overflow nothing is changed.
pub fn add_all(m: &mut StrMap<u128>, items: &Vec<(String, u128)>) -> (r: Result<(), StdError>)
    ensures
        adds_fit(*old(m), items@) ==> r is Ok && added_all(*old(m), *final(m), items@),
        !adds_fit(*old(m), items@) ==> r == Err::<(), StdError>(StdError::Overflow {}) && *final(m) == *old(m),
{
    let mut work = m.copy();
    let ghost before = *m;
    let mut i: usize = 0;
    while i < items.len()
        invariant
            before == *m,
            i <= items@.len(),
            forall|k: Seq<char>| #[trigger]
                work.get_spec(k) == if mentions(items@.subrange(0, i as int), k) {
                    Some((stored(before, k) + amount_sum(items@.subrange(0, i as int), k)) as u128)
                } else {
                    before.get_spec(k)
                },
            forall|k: Seq<char>| #[trigger] stored(before, k) + amount_sum(items@.subrange(0, i as int), k) <= u128::MAX,
        decreases items.len() - i,
    {
        let ghost pre = items@.subrange(0, i as int);
        let ghost post = items@.subrange(0, i + 1);
        let ghost kk = items@[i as int].0@;
        proof {
            assert(post.drop_last() =~= pre);
            assert forall|k: Seq<char>| #[trigger] mentions(post, k) == (mentions(pre, k) || k == kk) by {
                if mentions(pre, k) {
                    let j = choose|j: int| 0 <= j < pre.len() && (#[trigger] pre[j]).0@ == k;
                    assert(post[j] == pre[j]);
                }
                if mentions(post, k) && k != kk {
                    let j = choose|j: int| 0 <= j < post.len() && (#[trigger] post[j]).0@ == k;
                    assert(pre[j] == post[j]);
                }
                if k == kk {
                    assert(post[i as int].0@ == k);
                }
            }
        }
        let cur: u128 = match work.get(&items[i].0) {
            Some(v) => v,
            None => 0,
        };
        proof {
            assert(stored(before, kk) + amount_sum(pre, kk) <= u128::MAX);
            lemma_amount_sum_prefix(pre, 0, kk);
            assert(work.get_spec(kk) == if mentions(pre, kk) {
                Some((stored(before, kk) + amount_sum(pre, kk)) as u128)
            } else {
                before.get_spec(kk)
            });
            if mentions(pre, kk) {
                assert(cur == stored(before, kk) + amount_sum(pre, kk));
            } else {
                assert(amount_sum(pre, kk) == 0) by {
                    lemma_amount_sum_zero(pre, kk);
                }
            }
        }
        match cur.checked_add(items[i].1) {
            None => {
                proof {
                    lemma_amount_sum_prefix(items@, i + 1, kk);
                    assert(stored(before, kk) + amount_sum(items@, kk) > u128::MAX);
                }
                return Err(StdError::Overflow {});
            },
            Some(sum) => {
                work.insert(items[i].0.clone(), sum);
                proof {
                    assert forall|k: Seq<char>| #[trigger] stored(before, k) + amount_sum(post, k) <= u128::MAX by {
                        if k != kk {
                            assert(amount_sum(post, k) == amount_sum(pre, k));
                        }
                    }
                }
            },
        }
        i = i + 1;
    }
    proof {
        assert(items@.subrange(0, i as int) =~= items@);
    }
    *m = work;
    Ok(())
}

proof fn lemma_amount_sum_zero(items: Seq<(String, u128)>, k: Seq<char>)
    requires
        !mentions(items, k),
    ensures
        amount_sum(items, k) == 0,
    decreases items.len(),
{
    if items.len() > 0 {
        assert(!mentions(items.drop_last(), k)) by {
            if mentions(items.drop_last(), k) {
                let j = choose|j: int| 0 <= j < items.drop_last().len() && (#[trigger] items.drop_last()[j]).0@ == k;
                assert(items[j] == items.drop_last()[j]);
            }
        }
        assert(items[items.len() - 1].0@ != k);
        lemma_amount_sum_zero(items.drop_last(), k);
    }
}

/// The entries with a nonzero amount, in order.
pub open spec fn nonzero(s: Seq<(String, u128)>) -> Seq<(String, u128)> {
    s.filter(|e: (String, u128)| e.1 != 0)
}

/// The entries with a nonzero amount, in order.
pub fn keep_nonzero(s: &Vec<(String, u128)>) -> (r: Vec<(String, u128)>)
    ensures
        r@ == nonzero(s@),
{
    let mut r: Vec<(String, u128)> = Vec::new();
    let mut i: usize = 0;
    while i < s.len()
        invariant
            i <= s@.len(),
            r@ == nonzero(s@.subrange(0, i as int)),
        decreases s.len() - i,
    {
        proof {
            assert(s@.subrange(0, i + 1).drop_last() =~= s@.subrange(0, i as int));
            assert(s@.subrange(0, i + 1).last() == s@[i as int]);
            reveal(Seq::filter);
            assert(nonzero(s@.subrange(0, i + 1)) == if s@[i as int].1 != 0 {
                nonzero(s@.subrange(0, i as int)).push(s@[i as int])
            } else {
                nonzero(s@.subrange(0, i as int))
            });
        }
        if s[i].1 != 0 {
            r.push((s[i].0.clone(), s[i].1));
        }
        i = i + 1;
    }
    proof {
        assert(s@.subrange(0, i as int) =~= s@);
    }
    r
}

/// The amount `s` has claimed of `k`, zero where nothing was.
pub open spec fn claimed(claims: StrMap<StrMap<u128>>, s: Seq<char>, k: Seq<char>) -> int {
    match claims.get_spec(s) {
        Some(inner) => stored(inner, k),
        None => 0,
    }
}

/// The recorded claim of `s` on `k`, if any.
pub open spec fn claim_entry(claims: StrMap<StrMap<u128>>, s: Seq<char>, k: Seq<char>) -> Option<u128> {
    match claims.get_spec(s) {
        Some(inner) => inner.get_spec(k),
        None => None,
    }
}

/// `after` records, for `s`, the claims of `before` plus the items.
pub open spec fn claims_added(before: StrMap<StrMap<u128>>, after: StrMap<StrMap<u128>>, s: Seq<char>, items: Seq<(String, u128)>) -> bool {
    &&& forall|s2: Seq<char>| s2 != s ==> #[trigger] after.get_spec(s2) == before.get_spec(s2)
    &&& forall|k: Seq<char>| #[trigger]
        claim_entry(after, s, k) == if mentions(items, k) {
            Some((claimed(before, s, k) + amount_sum(items, k)) as u128)
        } else {
            claim_entry(before, s, k)
        }
}

/// Adds the items to the claims of `sender`. On an overflow nothing is
/// changed.
pub fn add_claims(claims: &mut StrMap<StrMap<u128>>, sender: &String, items: &Vec<(String, u128)>) -> (r: Result<(), StdError>)
    ensures
        (forall|k: Seq<char>| #[trigger] claimed(*old(claims), sender@, k) + amount_sum(items@, k) <= u128::MAX)
            ==> r is Ok && claims_added(*old(claims), *final(claims), sender@, items@),
        !(forall|k: Seq<char>| #[trigger] claimed(*old(claims), sender@, k) + amount_sum(items@, k) <= u128::MAX)
            ==> r == Err::<(), StdError>(StdError::Overflow {}) && *final(claims) == *old(claims),
{
    let mut inner: StrMap<u128> = match claims.get_ref(sender) {
        Some(m) => m.copy(),
        None => StrMap::new(),
    };
    let ghost before_inner = inner;
    proof {
        assert forall|k: Seq<char>| #[trigger] stored(before_inner, k) == claimed(*claims, sender@, k) by {}
        assert forall|k: Seq<char>| #[trigger] before_inner.get_spec(k) == claim_entry(*claims, sender@, k) by {}
    }
    match add_all(&mut inner, items) {
        Err(e) => {
            proof {
                assert(!adds_fit(before_inner, items@));
                let k = choose|k: Seq<char>| !(#[trigger] stored(before_inner, k) + amount_sum(items@, k) <= u128::MAX);
                assert(stored(before_inner, k) == claimed(*claims, sender@, k));
                assert(!(claimed(*claims, sender@, k) + amount_sum(items@, k) <= u128::MAX));
            }
            Err(e)
        },
        Ok(()) => {
            proof {
                assert(adds_fit(before_inner, items@));
                assert forall|k: Seq<char>| #[trigger] claimed(*claims, sender@, k) + amount_sum(items@, k) <= u128::MAX by {
                    assert(stored(before_inner, k) == claimed(*claims, sender@, k));
                    assert(stored(before_inner, k) + amount_sum(items@, k) <= u128::MAX);
                }
            }
            let ghost before_claims = *claims;
            let ghost after_inner = inner;
            claims.insert(sender.clone(), inner);
            proof {
                assert forall|k: Seq<char>| #[trigger]
                    claim_entry(*claims, sender@, k) == if mentions(items@, k) {
                        Some((claimed(before_claims, sender@, k) + amount_sum(items@, k)) as u128)
                    } else {
                        claim_entry(before_claims, sender@, k)
                    } by {
                    assert(claims.get_spec(sender@) == Some(after_inner));
                    assert(after_inner.get_spec(k) == if mentions(items@, k) {
                        Some((stored(before_inner, k) + amount_sum(items@, k)) as u128)
                    } else {
                        before_inner.get_spec(k)
                    });
                    assert(stored(before_inner, k) == claimed(before_claims, sender@, k));
                    assert(before_inner.get_spec(k) == claim_entry(before_claims, sender@, k));
                }
            }
            Ok(())
        },
    }
}

/// What each listed amount gives `power` out of `total` after what
/// the claims record for `s`.
pub open spec fn entitlement_list(pairs: Seq<(String, u128)>, power: u128, total: u128, claims: StrMap<StrMap<u128>>, s: Seq<char>) -> Seq<(String, u128)> {
    Seq::new(
        pairs.len(),
        |i: int| (pairs[i].0, still_entitled(pairs[i].1, power, total, claimed(claims, s, pairs[i].0@)) as u128),
    )
}

/// `pairs` are the keys asked for with their amounts, or, where none are
/// asked for, every entry in descending key order.
pub open spec fn token_pairs(table: StrMap<u128>, asked: Option<Seq<String>>, pairs: Seq<(String, u128)>) -> bool {
    match asked {
        Some(keys) => pairs.len() == keys.len() && forall|i: int|
            0 <= i < keys.len() ==> (#[trigger] pairs[i]).0@ == keys[i]@ && table.get_spec(keys[i]@) == Some(
                pairs[i].1,
            ),
        None => table.desc_listing(None, None, pairs),
    }
}

/// Some key asked for has no entry.
pub open spec fn some_missing(table: StrMap<u128>, asked: Option<Seq<String>>) -> bool {
    asked matches Some(keys) && exists|i: int| 0 <= i < keys.len() && table.get_spec((#[trigger] keys[i])@) is None
}

/// The view of an optional list of keys.
pub open spec fn asked_view(asked: Option<Vec<String>>) -> Option<Seq<String>> {
    match asked {
        Some(v) => Some(v@),
        None => None,
    }
}

/// Every share the listed keys would pay out fits in 128 bits.
pub open spec fn claim_fits(table: StrMap<u128>, asked: Option<Seq<String>>, power: u128, total: u128) -> bool {
    some_missing(table, asked) || forall|pairs: Seq<(String, u128)>|
        #[trigger] token_pairs(table, asked, pairs) ==> forall|i: int|
            0 <= i < pairs.len() ==> share_fits(#[trigger] pairs[i].1, power, total)
}

/// The keys asked for with their amounts, or, where none are asked for,
/// every entry in descending key order.
pub fn list_token_balance_pairs(table: &StrMap<u128>, asked: &Option<Vec<String>>) -> (r: Result<Vec<(String, u128)>, StdError>)
    ensures
        some_missing(*table, asked_view(*asked)) ==> r == Err::<Vec<(String, u128)>, StdError>(StdError::NotFound {}),
        !some_missing(*table, asked_view(*asked)) ==> (r matches Ok(v) && token_pairs(*table, asked_view(*asked), v@)),
{
    match asked {
        None => Ok(table.list_desc(None, None)),
        Some(keys) => {
            let mut r: Vec<(String, u128)> = Vec::new();
            let mut i: usize = 0;
            while i < keys.len()
                invariant
                    asked_view(*asked) == Some(keys@),
                    i <= keys@.len(),
                    r@.len() == i,
                    forall|j: int|
                        0 <= j < i ==> (#[trigger] r@[j]).0@ == keys@[j]@ && table.get_spec(keys@[j]@) == Some(
                            r@[j].1,
                        ),
                decreases keys.len() - i,
            {
                match table.get(&keys[i]) {
                    None => {
                        proof {
                            assert(asked_view(*asked) == Some(keys@));
                            assert(table.get_spec((keys@[i as int])@) is None);
                            assert(some_missing(*table, asked_view(*asked)));
                        }
                        return Err(StdError::NotFound {});
                    },
                    Some(v) => {
                        r.push((keys[i].clone(), v));
                    },
                }
                i = i + 1;
            }
            proof {
                assert forall|j: int| 0 <= j < keys@.len() implies table.get_spec((#[trigger] keys@[j])@) is Some by {
                    assert(r@[j].0@ == keys@[j]@);
                }
            }
            Ok(r)
        },
    }
}

impl Distributor {
    /// Someone held voting power at the distribution height.
    pub open spec fn wf(&self) -> bool {
        self.total_power > 0
    }

    /// A distributor with nothing to distribute yet. `block_height` is the
    /// current height and `total_power` what the voting contract answers
    /// for the distribution height.
    pub fn instantiate(msg: InstantiateMsg, block_height: u64, total_power: u128) -> (r: Result<Distributor, ContractError>)
        ensures
            msg.distribution_height > block_height ==> r == Err::<Distributor, ContractError>(ContractError::DistributionHeight {}),
            msg.distribution_height <= block_height && total_power == 0 ==> r == Err::<Distributor, ContractError>(ContractError::ZeroTotalPower {}),
            msg.distribution_height <= block_height && total_power > 0 ==> (r matches Ok(d) && d.wf()
                && d.admin == msg.admin && d.voting_contract == msg.voting_contract
                && d.distribution_height == msg.distribution_height && d.total_power == total_power
                && d.cw20s.entries@.len() == 0 && d.natives.entries@.len() == 0
                && d.cw20_claims.entries@.len() == 0 && d.native_claims.entries@.len() == 0),
    {
        if msg.distribution_height > block_height {
            return Err(ContractError::DistributionHeight {});
        }
        if total_power == 0 {
            return Err(ContractError::ZeroTotalPower {});
        }
        Ok(Distributor {
            admin: msg.admin,
            distribution_height: msg.distribution_height,
            total_power,
            voting_contract: msg.voting_contract,
            cw20s: StrMap::new(),
            natives: StrMap::new(),
            cw20_claims: StrMap::new(),
            native_claims: StrMap::new(),
        })
    }

    /// `sender` is the admin.
    pub open spec fn is_admin(&self, sender: Seq<char>) -> bool {
        self.admin matches Some(a) && a@ == sender
    }

    /// Replaces the admin. Only the admin may.
    pub fn execute_update_admin(&mut self, sender: String, new_admin: Option<String>) -> (r: Result<(), ContractError>)
        ensures
            !old(self).is_admin(sender@) ==> r == Err::<(), ContractError>(ContractError::Unauthorized {}) && *final(self) == *old(self),
            old(self).is_admin(sender@) ==> r is Ok && *final(self) == (Distributor { admin: new_admin, ..*old(self) }),
    {
        let authorized = match &self.admin {
            Some(a) => *a == sender,
            None => false,
        };
        if !authorized {
            return Err(ContractError::Unauthorized {});
        }
        self.admin = new_admin;
        Ok(())
    }

    /// Records `amount` of the cw20 token `token_contract` as sent to be
    /// distributed.
    pub fn execute_receive_cw20(&mut self, token_contract: String, amount: u128) -> (r: Result<(), ContractError>)
        ensures
            amount == 0 ==> r == Err::<(), ContractError>(ContractError::ZeroFunds {}) && *final(self) == *old(self),
            amount > 0 && stored(old(self).cw20s, token_contract@) + amount > u128::MAX ==> r == Err::<(), ContractError>(
                ContractError::Std(StdError::Overflow {}),
            ) && *final(self) == *old(self),
            amount > 0 && stored(old(self).cw20s, token_contract@) + amount <= u128::MAX ==> {
                &&& r is Ok
                &&& forall|k: Seq<char>| #[trigger]
                    final(self).cw20s.get_spec(k) == if k == token_contract@ {
                        Some((stored(old(self).cw20s, k) + amount) as u128)
                    } else {
                        old(self).cw20s.get_spec(k)
                    }
                &&& *final(self) == (Distributor { cw20s: final(self).cw20s, ..*old(self) })
            },
    {
        if amount == 0 {
            return Err(ContractError::ZeroFunds {});
        }
        let cur: u128 = match self.cw20s.get(&token_contract) {
            Some(v) => v,
            None => 0,
        };
        match cur.checked_add(amount) {
            None => Err(ContractError::Std(StdError::Overflow {})),
            Some(sum) => {
                self.cw20s.insert(token_contract, sum);
                Ok(())
            },
        }
    }

    /// Records the native funds sent along as funds to be distributed,
    /// coin by coin.
    pub fn execute_fund_natives(&mut self, funds: &Vec<Coin>) -> (r: Result<(), ContractError>)
        ensures
            adds_fit(old(self).natives, coin_pairs(funds@)) ==> r is Ok && added_all(old(self).natives, final(self).natives, coin_pairs(funds@))
                && *final(self) == (Distributor { natives: final(self).natives, ..*old(self) }),
            !adds_fit(old(self).natives, coin_pairs(funds@)) ==> r == Err::<(), ContractError>(ContractError::Std(StdError::Overflow {}))
                && *final(self) == *old(self),
    {
        let items = coins_to_pairs(funds);
        match add_all(&mut self.natives, &items) {
            Err(e) => Err(ContractError::Std(e)),
            Ok(()) => Ok(()),
        }
    }

    /// What `sender`, holding `voting_power`, may still claim of each
    /// listed amount, given the claims recorded in `claims`.
    pub fn compute_entitlements(&self, contract_balances: &Vec<(String, u128)>, sender: &String, voting_power: u128, claims: &StrMap<StrMap<u128>>) -> (r: Result<Vec<(String, u128)>, StdError>)
        requires
            self.wf(),
            forall|i: int| 0 <= i < contract_balances@.len() ==> share_fits((#[trigger] contract_balances@[i]).1, voting_power, self.total_power),
        ensures
            r matches Ok(v) && v@ == entitlement_list(contract_balances@, voting_power, self.total_power, *claims, sender@),
    {
        let mut out: Vec<(String, u128)> = Vec::new();
        let mut i: usize = 0;
        while i < contract_balances.len()
            invariant
                self.wf(),
                forall|j: int| 0 <= j < contract_balances@.len() ==> share_fits((#[trigger] contract_balances@[j]).1, voting_power, self.total_power),
                i <= contract_balances@.len(),
                out@ == entitlement_list(contract_balances@, voting_power, self.total_power, *claims, sender@).subrange(0, i as int),
            decreases contract_balances.len() - i,
        {
            let provided = contract_balances[i].1;
            let total_entitlement = match compute_entitled(provided, voting_power, self.total_power) {
                Ok(v) => v,
                Err(e) => {
                    return Err(e);
                },
            };
            let claimed_now: u128 = match claims.get_ref(sender) {
                Some(inner) => match inner.get(&contract_balances[i].0) {
                    Some(c) => c,
                    None => 0,
                },
                None => 0,
            };
            let entitled_now = if claimed_now > total_entitlement {
                0
            } else {
                total_entitlement - claimed_now
            };
            out.push((contract_balances[i].0.clone(), entitled_now));
            proof {
                assert(out@ =~= entitlement_list(contract_balances@, voting_power, self.total_power, *claims, sender@).subrange(0, i + 1));
            }
            i = i + 1;
        }
        proof {
            assert(entitlement_list(contract_balances@, voting_power, self.total_power, *claims, sender@).subrange(0, i as int)
                =~= entitlement_list(contract_balances@, voting_power, self.total_power, *claims, sender@));
        }
        Ok(out)
    }
}

/// The amounts each entry of `pairs` gives `sender` to claim, with the
/// zero ones left out.
pub open spec fn claimable(pairs: Seq<(String, u128)>, power: u128, total: u128, claims: StrMap<StrMap<u128>>, sender: Seq<char>) -> Seq<(String, u128)> {
    nonzero(entitlement_list(pairs, power, total, claims, sender))
}

/// Recording `items` as claimed by `sender` overflows under no key.
pub open spec fn claims_fit(claims: StrMap<StrMap<u128>>, sender: Seq<char>, items: Seq<(String, u128)>) -> bool {
    forall|k: Seq<char>| #[trigger] claimed(claims, sender, k) + amount_sum(items, k) <= u128::MAX
}

/// `after` is `before` without the entries of the listed keys.
pub open spec fn removed_all(before: StrMap<u128>, after: StrMap<u128>, pairs: Seq<(String, u128)>) -> bool {
    forall|k: Seq<char>| #[trigger]
        after.get_spec(k) == if mentions(pairs, k) {
            None
        } else {
            before.get_spec(k)
        }
}

/// Removes the entries of the listed keys.
pub fn remove_all(table: &mut StrMap<u128>, pairs: &Vec<(String, u128)>)
    ensures
        removed_all(*old(table), *final(table), pairs@),
{
    let ghost before = *table;
    let mut i: usize = 0;
    while i < pairs.len()
        invariant
            i <= pairs@.len(),
            forall|k: Seq<char>| #[trigger]
                table.get_spec(k) == if mentions(pairs@.subrange(0, i as int), k) {
                    None
                } else {
                    before.get_spec(k)
                },
        decreases pairs.len() - i,
    {
        let ghost pre = pairs@.subrange(0, i as int);
        let ghost post = pairs@.subrange(0, i + 1);
        proof {
            assert forall|k: Seq<char>| #[trigger] mentions(post, k) == (mentions(pre, k) || k == pairs@[i as int].0@) by {
                if mentions(pre, k) {
                    let j = choose|j: int| 0 <= j < pre.len() && (#[trigger] pre[j]).0@ == k;
                    assert(post[j] == pre[j]);
                }
                if mentions(post, k) && k != pairs@[i as int].0@ {
                    let j = choose|j: int| 0 <= j < post.len() && (#[trigger] post[j]).0@ == k;
                    assert(pre[j] == post[j]);
                }
                if k == pairs@[i as int].0@ {
                    assert(post[i as int].0@ == k);
                }
            }
        }
        table.remove(&pairs[i].0);
        i = i + 1;
    }
    proof {
        assert(pairs@.subrange(0, i as int) =~= pairs@);
    }
}

/// The entitlements as responses for native tokens.
pub open spec fn native_responses(s: Seq<(String, u128)>) -> Seq<NativeEntitlementResponse> {
    Seq::new(s.len(), |i: int| NativeEntitlementResponse { amount: s[i].1, denom: s[i].0 })
}

/// The entitlements as responses for cw20 tokens.
pub open spec fn cw20_responses(s: Seq<(String, u128)>) -> Seq<Cw20EntitlementResponse> {
    Seq::new(s.len(), |i: int| Cw20EntitlementResponse { amount: s[i].1, token_contract: s[i].0 })
}

/// The listed funds as responses.
pub open spec fn denom_responses(s: Seq<(String, u128)>) -> Seq<DenomResponse> {
    Seq::new(s.len(), |i: int| DenomResponse { contract_balance: s[i].1, denom: s[i].0 })
}

/// An optional limit as a count.
pub open spec fn limit_view(limit: Option<u32>) -> Option<usize> {
    match limit {
        Some(l) => Some(l as usize),
        None => None,
    }
}

/// Every share a listing would pay out fits in 128 bits.
pub open spec fn listing_fits(table: StrMap<u128>, start_at: Option<Seq<char>>, limit: Option<usize>, power: u128, total: u128) -> bool {
    forall|pairs: Seq<(String, u128)>|
        #[trigger] table.desc_listing(start_at, limit, pairs) ==> forall|i: int|
            0 <= i < pairs.len() ==> share_fits(#[trigger] pairs[i].1, power, total)
}

fn to_native_responses(s: &Vec<(String, u128)>) -> (r: Vec<NativeEntitlementResponse>)
    ensures
        r@ == native_responses(s@),
{
    let mut r: Vec<NativeEntitlementResponse> = Vec::new();
    let mut i: usize = 0;
    while i < s.len()
        invariant
            i <= s@.len(),
            r@ == native_responses(s@).subrange(0, i as int),
        decreases s.len() - i,
    {
        r.push(NativeEntitlementResponse { amount: s[i].1, denom: s[i].0.clone() });
        proof {
            assert(r@ =~= native_responses(s@).subrange(0, i + 1));
        }
        i = i + 1;
    }
    proof {
        assert(native_responses(s@).subrange(0, i as int) =~= native_responses(s@));
    }
    r
}

fn to_cw20_responses(s: &Vec<(String, u128)>) -> (r: Vec<Cw20EntitlementResponse>)
    ensures
        r@ == cw20_responses(s@),
{
    let mut r: Vec<Cw20EntitlementResponse> = Vec::new();
    let mut i: usize = 0;
    while i < s.len()
        invariant
            i <= s@.len(),
            r@ == cw20_responses(s@).subrange(0, i as int),
        decreases s.len() - i,
    {
        r.push(Cw20EntitlementResponse { amount: s[i].1, token_contract: s[i].0.clone() });
        proof {
            assert(r@ =~= cw20_responses(s@).subrange(0, i + 1));
        }
        i = i + 1;
    }
    proof {
        assert(cw20_responses(s@).subrange(0, i as int) =~= cw20_responses(s@));
    }
    r
}

fn to_denom_responses(s: &Vec<(String, u128)>) -> (r: Vec<DenomResponse>)
    ensures
        r@ == denom_responses(s@),
{
    let mut r: Vec<DenomResponse> = Vec::new();
    let mut i: usize = 0;
    while i < s.len()
        invariant
            i <= s@.len(),
            r@ == denom_responses(s@).subrange(0, i as int),
        decreases s.len() - i,
    {
        r.push(DenomResponse { contract_balance: s[i].1, denom: s[i].0.clone() });
        proof {
            assert(r@ =~= denom_responses(s@).subrange(0, i + 1));
        }
        i = i + 1;
    }
    proof {
        assert(denom_responses(s@).subrange(0, i as int) =~= denom_responses(s@));
    }
    r
}

fn limit_count(limit: Option<u32>) -> (r: Option<usize>)
    ensures
        r == limit_view(limit),
{
    match limit {
        Some(l) => Some(l as usize),
        None => None,
    }
}

impl Distributor {
    /// Pays `sender`, holding `voting_power`, what it may still claim of
    /// the cw20 tokens asked for (all of them where none are named), and
    /// records the claims. Gives each token with the amount to transfer.
    pub fn execute_claim_cw20s(&mut self, sender: String, tokens: Option<Vec<String>>, voting_power: u128) -> (r: Result<Vec<(String, u128)>, ContractError>)
        requires
            old(self).wf(),
            claim_fits(old(self).cw20s, asked_view(tokens), voting_power, old(self).total_power),
        ensures
            final(self).wf(),
            some_missing(old(self).cw20s, asked_view(tokens)) ==> r == Err::<Vec<(String, u128)>, ContractError>(ContractError::Std(StdError::NotFound {}))
                && *final(self) == *old(self),
            !some_missing(old(self).cw20s, asked_view(tokens)) ==> exists|pairs: Seq<(String, u128)>|
                #[trigger] token_pairs(old(self).cw20s, asked_view(tokens), pairs) && ({
                    let items = claimable(pairs, voting_power, old(self).total_power, old(self).cw20_claims, sender@);
                    if claims_fit(old(self).cw20_claims, sender@, items) {
                        &&& r matches Ok(v) && v@ == items
                        &&& claims_added(old(self).cw20_claims, final(self).cw20_claims, sender@, items)
                        &&& *final(self) == (Distributor { cw20_claims: final(self).cw20_claims, ..*old(self) })
                    } else {
                        r == Err::<Vec<(String, u128)>, ContractError>(ContractError::Std(StdError::Overflow {}))
                            && *final(self) == *old(self)
                    }
                }),
    {
        let pairs = match list_token_balance_pairs(&self.cw20s, &tokens) {
            Err(e) => {
                return Err(ContractError::Std(e));
            },
            Ok(p) => p,
        };
        proof {
            assert(token_pairs(self.cw20s, asked_view(tokens), pairs@));
        }
        let ents = match self.compute_entitlements(&pairs, &sender, voting_power, &self.cw20_claims) {
            Err(e) => {
                return Err(ContractError::Std(e));
            },
            Ok(v) => v,
        };
        let items = keep_nonzero(&ents);
        match add_claims(&mut self.cw20_claims, &sender, &items) {
            Err(e) => Err(ContractError::Std(e)),
            Ok(()) => Ok(items),
        }
    }

    /// Pays `sender`, holding `voting_power`, what it may still claim of
    /// the native tokens asked for (all of them where none are named), and
    /// records the claims. Gives the coins to send.
    pub fn execute_claim_natives(&mut self, sender: String, denoms: Option<Vec<String>>, voting_power: u128) -> (r: Result<Vec<(String, u128)>, ContractError>)
        requires
            old(self).wf(),
            claim_fits(old(self).natives, asked_view(denoms), voting_power, old(self).total_power),
        ensures
            final(self).wf(),
            some_missing(old(self).natives, asked_view(denoms)) ==> r == Err::<Vec<(String, u128)>, ContractError>(ContractError::Std(StdError::NotFound {}))
                && *final(self) == *old(self),
            !some_missing(old(self).natives, asked_view(denoms)) ==> exists|pairs: Seq<(String, u128)>|
                #[trigger] token_pairs(old(self).natives, asked_view(denoms), pairs) && ({
                    let items = claimable(pairs, voting_power, old(self).total_power, old(self).native_claims, sender@);
                    if claims_fit(old(self).native_claims, sender@, items) {
                        &&& r matches Ok(v) && v@ == items
                        &&& claims_added(old(self).native_claims, final(self).native_claims, sender@, items)
                        &&& *final(self) == (Distributor { native_claims: final(self).native_claims, ..*old(self) })
                    } else {
                        r == Err::<Vec<(String, u128)>, ContractError>(ContractError::Std(StdError::Overflow {}))
                            && *final(self) == *old(self)
                    }
                }),
    {
        let pairs = match list_token_balance_pairs(&self.natives, &denoms) {
            Err(e) => {
                return Err(ContractError::Std(e));
            },
            Ok(p) => p,
        };
        proof {
            assert(token_pairs(self.natives, asked_view(denoms), pairs@));
        }
        let ents = match self.compute_entitlements(&pairs, &sender, voting_power, &self.native_claims) {
            Err(e) => {
                return Err(ContractError::Std(e));
            },
            Ok(v) => v,
        };
        let items = keep_nonzero(&ents);
        match add_claims(&mut self.native_claims, &sender, &items) {
            Err(e) => Err(ContractError::Std(e)),
            Ok(()) => Ok(items),
        }
    }

    /// Stops distributing the cw20 tokens asked for (all of them where
    /// none are named). Only the admin may. Gives the admin and the
    /// tokens, whose remaining balances go to the admin.
    pub fn execute_withdraw_cw20s(&mut self, sender: String, tokens: Option<Vec<String>>) -> (r: Result<(String, Vec<(String, u128)>), ContractError>)
        ensures
            !old(self).is_admin(sender@) ==> r == Err::<(String, Vec<(String, u128)>), ContractError>(ContractError::Unauthorized {})
                && *final(self) == *old(self),
            old(self).is_admin(sender@) && some_missing(old(self).cw20s, asked_view(tokens)) ==> r == Err::<(String, Vec<(String, u128)>), ContractError>(
                ContractError::Std(StdError::NotFound {}),
            ) && *final(self) == *old(self),
            old(self).is_admin(sender@) && !some_missing(old(self).cw20s, asked_view(tokens)) ==> (r matches Ok((admin, v))
                && admin@ == sender@ && token_pairs(old(self).cw20s, asked_view(tokens), v@)
                && removed_all(old(self).cw20s, final(self).cw20s, v@)
                && *final(self) == (Distributor { cw20s: final(self).cw20s, ..*old(self) })),
    {
        let admin = match &self.admin {
            Some(a) => {
                if *a != sender {
                    return Err(ContractError::Unauthorized {});
                }
                a.clone()
            },
            None => {
                return Err(ContractError::Unauthorized {});
            },
        };
        let pairs = match list_token_balance_pairs(&self.cw20s, &tokens) {
            Err(e) => {
                return Err(ContractError::Std(e));
            },
            Ok(p) => p,
        };
        remove_all(&mut self.cw20s, &pairs);
        Ok((admin, pairs))
    }

    /// Stops distributing the native tokens asked for (all of them where
    /// none are named). Only the admin may. Gives the admin and the
    /// denominations, whose remaining balances go to the admin.
    pub fn execute_withdraw_natives(&mut self, sender: String, denoms: Option<Vec<String>>) -> (r: Result<(String, Vec<(String, u128)>), ContractError>)
        ensures
            !old(self).is_admin(sender@) ==> r == Err::<(String, Vec<(String, u128)>), ContractError>(ContractError::Unauthorized {})
                && *final(self) == *old(self),
            old(self).is_admin(sender@) && some_missing(old(self).natives, asked_view(denoms)) ==> r == Err::<(String, Vec<(String, u128)>), ContractError>(
                ContractError::Std(StdError::NotFound {}),
            ) && *final(self) == *old(self),
            old(self).is_admin(sender@) && !some_missing(old(self).natives, asked_view(denoms)) ==> (r matches Ok((admin, v))
                && admin@ == sender@ && token_pairs(old(self).natives, asked_view(denoms), v@)
                && removed_all(old(self).natives, final(self).natives, v@)
                && *final(self) == (Distributor { natives: final(self).natives, ..*old(self) })),
    {
        let admin = match &self.admin {
            Some(a) => {
                if *a != sender {
                    return Err(ContractError::Unauthorized {});
                }
                a.clone()
            },
            None => {
                return Err(ContractError::Unauthorized {});
            },
        };
        let pairs = match list_token_balance_pairs(&self.natives, &denoms) {
            Err(e) => {
                return Err(ContractError::Std(e));
            },
            Ok(p) => p,
        };
        remove_all(&mut self.natives, &pairs);
        Ok((admin, pairs))
    }

    /// What `address`, holding `voting_power`, may still claim of each
    /// native token, in descending order of denomination from the
    /// greatest, those at or above `start_at`, at most `limit` of them.
    pub fn query_native_entitlements(&self, address: &String, start_at: Option<String>, limit: Option<u32>, voting_power: u128) -> (r: Vec<NativeEntitlementResponse>)
        requires
            self.wf(),
            listing_fits(self.natives, opt_string(start_at), limit_view(limit), voting_power, self.total_power),
        ensures
            exists|pairs: Seq<(String, u128)>|
                #[trigger] self.natives.desc_listing(opt_string(start_at), limit_view(limit), pairs) && r@ == native_responses(
                    entitlement_list(pairs, voting_power, self.total_power, self.native_claims, address@),
                ),
    {
        let lim = limit_count(limit);
        let pairs = match &start_at {
            Some(s) => self.natives.list_desc(Some(s), lim),
            None => self.natives.list_desc(None, lim),
        };
        proof {
            assert(self.natives.desc_listing(opt_string(start_at), limit_view(limit), pairs@));
        }
        let ents = match self.compute_entitlements(&pairs, address, voting_power, &self.native_claims) {
            Ok(v) => v,
            Err(_) => Vec::new(),
        };
        to_native_responses(&ents)
    }

    /// What `address`, holding `voting_power`, may still claim of each
    /// cw20 token, in descending order of token address from the
    /// greatest, those at or above `start_at`, at most `limit` of them.
    pub fn query_cw20_entitlements(&self, address: &String, start_at: Option<String>, limit: Option<u32>, voting_power: u128) -> (r: Vec<Cw20EntitlementResponse>)
        requires
            self.wf(),
            listing_fits(self.cw20s, opt_string(start_at), limit_view(limit), voting_power, self.total_power),
        ensures
            exists|pairs: Seq<(String, u128)>|
                #[trigger] self.cw20s.desc_listing(opt_string(start_at), limit_view(limit), pairs) && r@ == cw20_responses(
                    entitlement_list(pairs, voting_power, self.total_power, self.cw20_claims, address@),
                ),
    {
        let lim = limit_count(limit);
        let pairs = match &start_at {
            Some(s) => self.cw20s.list_desc(Some(s), lim),
            None => self.cw20s.list_desc(None, lim),
        };
        proof {
            assert(self.cw20s.desc_listing(opt_string(start_at), limit_view(limit), pairs@));
        }
        let ents = match self.compute_entitlements(&pairs, address, voting_power, &self.cw20_claims) {
            Ok(v) => v,
            Err(_) => Vec::new(),
        };
        to_cw20_responses(&ents)
    }

    /// What `address`, holding `voting_power`, may still claim of the
    /// native token `denom`: its share less what it has claimed, the
    /// whole share where it has claimed nothing. Fails only where the
    /// token is not distributed.
    pub fn query_native_entitlement(&self, address: &String, denom: String, voting_power: u128) -> (r: Result<NativeEntitlementResponse, StdError>)
        requires
            self.wf(),
            self.natives.get_spec(denom@) matches Some(p) ==> share_fits(p, voting_power, self.total_power)
                && claimed(self.native_claims, address@, denom@) <= entitled(p, voting_power, self.total_power),
        ensures
            match self.natives.get_spec(denom@) {
                None => r == Err::<NativeEntitlementResponse, StdError>(StdError::NotFound {}),
                Some(p) => r == Ok::<NativeEntitlementResponse, StdError>(
                    NativeEntitlementResponse {
                        amount: (entitled(p, voting_power, self.total_power) - claimed(
                            self.native_claims,
                            address@,
                            denom@,
                        )) as u128,
                        denom,
                    },
                ),
            },
    {
        let provided = match self.natives.get(&denom) {
            None => {
                return Err(StdError::NotFound {});
            },
            Some(p) => p,
        };
        let total_entitlement = compute_entitled(provided, voting_power, self.total_power)?;
        let claimed_now: u128 = match self.native_claims.get_ref(address) {
            None => 0,
            Some(inner) => match inner.get(&denom) {
                None => 0,
                Some(c) => c,
            },
        };
        Ok(NativeEntitlementResponse { amount: total_entitlement - claimed_now, denom })
    }

    /// What `address`, holding `voting_power`, may still claim of the cw20
    /// token `token_contract`: its share less what it has claimed, the
    /// whole share where it has claimed nothing. Fails only where the
    /// token is not distributed.
    pub fn query_cw20_entitlement(&self, address: &String, token_contract: String, voting_power: u128) -> (r: Result<Cw20EntitlementResponse, StdError>)
        requires
            self.wf(),
            self.cw20s.get_spec(token_contract@) matches Some(p) ==> share_fits(p, voting_power, self.total_power),
        ensures
            match self.cw20s.get_spec(token_contract@) {
                None => r == Err::<Cw20EntitlementResponse, StdError>(StdError::NotFound {}),
                Some(p) => r == Ok::<Cw20EntitlementResponse, StdError>(
                    Cw20EntitlementResponse {
                        amount: still_entitled(
                            p,
                            voting_power,
                            self.total_power,
                            claimed(self.cw20_claims, address@, token_contract@),
                        ) as u128,
                        token_contract,
                    },
                ),
            },
    {
        let provided = match self.cw20s.get(&token_contract) {
            None => {
                return Err(StdError::NotFound {});
            },
            Some(p) => p,
        };
        let total_entitlement = compute_entitled(provided, voting_power, self.total_power)?;
        let claimed_now: u128 = match self.cw20_claims.get_ref(address) {
            None => 0,
            Some(inner) => match inner.get(&token_contract) {
                None => 0,
                Some(c) => c,
            },
        };
        let amount = if claimed_now > total_entitlement {
            0
        } else {
            total_entitlement - claimed_now
        };
        Ok(Cw20EntitlementResponse { amount, token_contract })
    }

    /// The admin.
    pub fn query_admin(&self) -> (r: AdminResponse)
        ensures
            r.admin == self.admin,
    {
        AdminResponse { admin: self.admin.clone() }
    }

    /// The voting contract and the distribution height.
    pub fn query_voting_contract(&self) -> (r: VotingContractResponse)
        ensures
            r.contract == self.voting_contract,
            r.distribution_height == self.distribution_height,
    {
        VotingContractResponse {
            contract: self.voting_contract.clone(),
            distribution_height: self.distribution_height,
        }
    }

    /// The native tokens being distributed with their funds, in descending
    /// order of denomination from the greatest, those at or above
    /// `start_at`, at most `limit` of them.
    pub fn query_native_denoms(&self, start_at: Option<String>, limit: Option<u32>) -> (r: Vec<DenomResponse>)
        ensures
            exists|pairs: Seq<(String, u128)>|
                #[trigger] self.natives.desc_listing(opt_string(start_at), limit_view(limit), pairs) && r@ == denom_responses(pairs),
    {
        let lim = limit_count(limit);
        let pairs = match &start_at {
            Some(s) => self.natives.list_desc(Some(s), lim),
            None => self.natives.list_desc(None, lim),
        };
        proof {
            assert(self.natives.desc_listing(opt_string(start_at), limit_view(limit), pairs@));
        }
        to_denom_responses(&pairs)
    }

    /// The cw20 tokens being distributed with their funds, in descending
    /// order of token address from the greatest, those at or above
    /// `start_at`, at most `limit` of them.
    pub fn query_cw20_denoms(&self, start_at: Option<String>, limit: Option<u32>) -> (r: Vec<DenomResponse>)
        ensures
            exists|pairs: Seq<(String, u128)>|
                #[trigger] self.cw20s.desc_listing(opt_string(start_at), limit_view(limit), pairs) && r@ == denom_responses(pairs),
    {
        let lim = limit_count(limit);
        let pairs = match &start_at {
            Some(s) => self.cw20s.list_desc(Some(s), lim),
            None => self.cw20s.list_desc(None, lim),
        };
        proof {
            assert(self.cw20s.desc_listing(opt_string(start_at), limit_view(limit), pairs@));
        }
        to_denom_responses(&pairs)
    }
}

/// The native funds as pairs of denomination and amount.
pub open spec fn coin_pairs(funds: Seq<Coin>) -> Seq<(String, u128)> {
    funds.map_values(|c: Coin| (c.denom, c.amount))
}

/// The native funds as pairs of denomination and amount.
pub fn coins_to_pairs(funds: &Vec<Coin>) -> (r: Vec<(String, u128)>)
    ensures
        r@ == coin_pairs(funds@),
{
    let mut r: Vec<(String, u128)> = Vec::new();
    let mut i: usize = 0;
    while i < funds.len()
        invariant
            i <= funds@.len(),
            r@ == coin_pairs(funds@).subrange(0, i as int),
        decreases funds.len() - i,
    {
        r.push((funds[i].denom.clone(), funds[i].amount));
        proof {
            assert(r@ =~= coin_pairs(funds@).subrange(0, i + 1));
        }
        i = i + 1;
    }
    proof {
        assert(coin_pairs(funds@).subrange(0, i as int) =~= coin_pairs(funds@));
    }
    r
}

/// The sum of a list of voting powers.
pub open spec fn power_sum(powers: Seq<u128>) -> int
    decreases powers.len(),
{
    if powers.len() == 0 {
        0
    } else {
        power_sum(powers.drop_last()) + powers.last()
    }
}

/// The sum of the shares of `provided` that each power is entitled to.
pub open spec fn shares_sum(provided: u128, powers: Seq<u128>, total: u128) -> int
    decreases powers.len(),
{
    if powers.len() == 0 {
        0
    } else {
        shares_sum(provided, powers.drop_last(), total) + entitled(provided, powers.last(), total)
    }
}

proof fn lemma_floor_add(a: int, b: int, t: int)
    requires
        a >= 0,
        b >= 0,
        t > 0,
    ensures
        a / t + b / t <= (a + b) / t,
{
    lemma_fundamental_div_mod(a, t);
    lemma_fundamental_div_mod(b, t);
    lemma_fundamental_div_mod(a + b, t);
    lemma_mod_pos_bound(a, t);
    lemma_mod_pos_bound(b, t);
    lemma_mod_pos_bound(a + b, t);
    let qa = a / t;
    let qb = b / t;
    let q = (a + b) / t;
    assert(qa + qb <= q) by (nonlinear_arith)
        requires
            a == t * qa + a % t,
            b == t * qb + b % t,
            a + b == t * q + (a + b) % t,
            0 <= a % t < t,
            0 <= b % t < t,
            0 <= (a + b) % t < t,
            t > 0,
    ;
}

proof fn lemma_shares_below_product(provided: u128, powers: Seq<u128>, total: u128)
    requires
        total > 0,
    ensures
        0 <= power_sum(powers),
        shares_sum(provided, powers, total) <= (provided * power_sum(powers)) / (total as int),
    decreases powers.len(),
{
    if powers.len() > 0 {
        let init = powers.drop_last();
        let w = powers.last();
        lemma_shares_below_product(provided, init, total);
        assert(provided * power_sum(init) >= 0) by (nonlinear_arith)
            requires
                provided >= 0,
                power_sum(init) >= 0,
        ;
        assert(provided * w >= 0) by (nonlinear_arith)
            requires
                provided >= 0,
                w >= 0,
        ;
        lemma_floor_add(provided * power_sum(init), provided * w, total as int);
        lemma_mul_is_distributive_add(provided as int, power_sum(init), w as int);
    } else {
        assert(provided * 0int == 0);
    }
}

/// A holder never has a share larger than the fund: with no more power
/// than the total, the share of `provided` is at most `provided`.
pub proof fn law_share_within_fund(provided: u128, power: u128, total: u128)
    requires
        0 < total,
        power <= total,
    ensures
        0 <= entitled(provided, power, total) <= provided,
        share_fits(provided, power, total),
{
    lemma_mul_inequality(power as int, total as int, provided as int);
    assert(provided * power >= 0) by (nonlinear_arith)
        requires
            provided >= 0,
            power >= 0,
    ;
    assert(provided * power == power * provided) by (nonlinear_arith);
    assert(provided * total == total * provided) by (nonlinear_arith);
    lemma_div_is_ordered(provided * power, provided * total, total as int);
    lemma_div_by_multiple(provided as int, total as int);
    lemma_div_is_ordered(0, provided * power, total as int);
}

/// The shares of all holders together never exceed the fund: when the
/// holders' powers add up to at most the total power, their shares of
/// `provided` add up to at most `provided`.
pub proof fn law_shares_never_exceed_fund(provided: u128, powers: Seq<u128>, total: u128)
    requires
        0 < total,
        power_sum(powers) <= total,
    ensures
        shares_sum(provided, powers, total) <= provided,
{
    lemma_shares_below_product(provided, powers, total);
    lemma_mul_inequality(power_sum(powers), total as int, provided as int);
    assert(provided * power_sum(powers) == power_sum(powers) * provided) by (nonlinear_arith);
    assert(provided * total == total * provided) by (nonlinear_arith);
    lemma_div_is_ordered(provided * power_sum(powers), provided * total, total as int);
    lemma_div_by_multiple(provided as int, total as int);
}

/// Claiming what is left of a share leaves nothing more to claim.
pub proof fn law_claim_exhausts_share(provided: u128, power: u128, total: u128, claimed: int)
    requires
        claimed >= 0,
    ensures
        still_entitled(provided, power, total, claimed + still_entitled(provided, power, total, claimed)) == 0,
{
}

proof fn lemma_nonzero_keeps_sums(l: Seq<(String, u128)>, k: Seq<char>)
    ensures
        amount_sum(nonzero(l), k) == amount_sum(l, k),
    decreases l.len(),
{
    reveal(Seq::filter);
    if l.len() > 0 {
        lemma_nonzero_keeps_sums(l.drop_last(), k);
        let sub = nonzero(l.drop_last());
        if l.last().1 != 0 {
            assert(nonzero(l) == sub.push(l.last()));
            assert(sub.push(l.last()).drop_last() =~= sub);
        } else {
            assert(nonzero(l) == sub);
        }
    }
}

proof fn lemma_amount_sum_at_least(l: Seq<(String, u128)>, i: int, k: Seq<char>)
    requires
        0 <= i < l.len(),
        l[i].0@ == k,
    ensures
        amount_sum(l, k) >= l[i].1,
    decreases l.len(),
{
    lemma_amount_sum_prefix(l.drop_last(), 0, k);
    if i < l.len() - 1 {
        lemma_amount_sum_at_least(l.drop_last(), i, k);
    }
}

proof fn lemma_nonzero_contains(l: Seq<(String, u128)>, j: int)
    requires
        0 <= j < l.len(),
        l[j].1 != 0,
    ensures
        exists|m: int| 0 <= m < nonzero(l).len() && #[trigger] nonzero(l)[m] == l[j],
    decreases l.len(),
{
    reveal(Seq::filter);
    let sub = nonzero(l.drop_last());
    if j == l.len() - 1 {
        assert(nonzero(l) == sub.push(l.last()));
        assert(nonzero(l)[sub.len() as int] == l[j]);
    } else {
        lemma_nonzero_contains(l.drop_last(), j);
        let m = choose|m: int| 0 <= m < sub.len() && #[trigger] sub[m] == l.drop_last()[j];
        if l.last().1 != 0 {
            assert(nonzero(l) == sub.push(l.last()));
            assert(nonzero(l)[m] == sub[m]);
        } else {
            assert(nonzero(l) == sub);
        }
    }
}

proof fn lemma_nonzero_of_zeros(l: Seq<(String, u128)>)
    requires
        forall|i: int| 0 <= i < l.len() ==> (#[trigger] l[i]).1 == 0,
    ensures
        nonzero(l) == Seq::<(String, u128)>::empty(),
    decreases l.len(),
{
    reveal(Seq::filter);
    if l.len() > 0 {
        assert(l.last().1 == 0);
        lemma_nonzero_of_zeros(l.drop_last());
    }
}

/// What is left to claim never grows as more is claimed.
proof fn lemma_still_entitled_antitone(provided: u128, power: u128, total: u128, c: int, more: int)
    requires
        c <= more,
    ensures
        still_entitled(provided, power, total, more) <= still_entitled(provided, power, total, c),
        still_entitled(provided, power, total, c) > 0 && more >= c + still_entitled(provided, power, total, c)
            ==> still_entitled(provided, power, total, more) == 0,
{
}

/// A claim pays out once: once the shares of a claim are recorded, a
/// second claim of the same tokens (or of all of them, as the first
/// was) from the same funds and the same voting power finds nothing
/// left to pay.
pub proof fn law_claim_pays_once(
    table: StrMap<u128>,
    asked: Option<Seq<String>>,
    pairs: Seq<(String, u128)>,
    again: Seq<(String, u128)>,
    power: u128,
    total: u128,
    before: StrMap<StrMap<u128>>,
    after: StrMap<StrMap<u128>>,
    sender: Seq<char>,
)
    requires
        0 < total,
        claim_fits(table, asked, power, total),
        token_pairs(table, asked, pairs),
        token_pairs(table, asked, again),
        claims_fit(before, sender, claimable(pairs, power, total, before, sender)),
        claims_added(before, after, sender, claimable(pairs, power, total, before, sender)),
    ensures
        claimable(again, power, total, after, sender) == Seq::<(String, u128)>::empty(),
{
    if let Some(keys) = asked {
        assert forall|i: int| 0 <= i < keys.len() implies table.get_spec((#[trigger] keys[i])@) is Some by {
            assert(table.get_spec(keys[i]@) == Some(pairs[i].1));
        }
    }
    assert(!some_missing(table, asked));
    assert(forall|i: int| 0 <= i < pairs.len() ==> share_fits(#[trigger] pairs[i].1, power, total));
    let listed = entitlement_list(pairs, power, total, before, sender);
    let items = nonzero(listed);
    let second = entitlement_list(again, power, total, after, sender);
    assert forall|i: int| 0 <= i < second.len() implies (#[trigger] second[i]).1 == 0 by {
        let k = again[i].0@;
        let a = again[i].1;
        // The same token, with the same funds, was listed the first time.
        let j: int = match asked {
            Some(keys) => i,
            None => {
                assert(table.get_spec(k) is Some);
                choose|j: int| 0 <= j < pairs.len() && (#[trigger] pairs[j]).0@ == k
            },
        };
        assert(0 <= j < pairs.len() && pairs[j].0@ == k && pairs[j].1 == a);
        let c = claimed(before, sender, k);
        let e = still_entitled(a, power, total, c);
        assert(share_fits(pairs[j].1, power, total));
        assert(a * power >= 0) by (nonlinear_arith)
            requires
                a >= 0,
                power >= 0,
        ;
        assert(0 <= e <= entitled(a, power, total) < base128());
        assert(listed[j] == (pairs[j].0, e as u128));
        if mentions(items, k) {
            lemma_nonzero_keeps_sums(listed, k);
            lemma_amount_sum_prefix(listed, 0, k);
            assert(claims_fit(before, sender, items));
            assert(claimed(before, sender, k) + amount_sum(items, k) <= u128::MAX);
            assert(claim_entry(after, sender, k) == Some((c + amount_sum(items, k)) as u128));
            assert(claimed(after, sender, k) == c + amount_sum(items, k));
            if e > 0 {
                lemma_amount_sum_at_least(listed, j, k);
            }
            lemma_still_entitled_antitone(a, power, total, c, claimed(after, sender, k));
        } else {
            if e != 0 {
                lemma_nonzero_contains(listed, j);
                let m = choose|m: int| 0 <= m < items.len() && #[trigger] items[m] == listed[j];
                assert(items[m].0@ == k);
            }
            assert(claim_entry(after, sender, k) == claim_entry(before, sender, k));
            assert(claimed(after, sender, k) == c);
        }
    }
    lemma_nonzero_of_zeros(second);
}

} // verus!
