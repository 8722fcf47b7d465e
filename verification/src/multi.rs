//! The hierarchical multi-token ledger: many token ids, each with its own
//! supply and per-owner balances, nested under a per-owner aggregate that is
//! maintained incrementally and proved equal to the sum of that owner's
//! per-id balances.
//!
//! Every table of the ledger is kept in strictly ascending key order, so the
//! in-memory layout is determined by the logical content alone and the
//! encodable snapshot can reproduce it as a canonical form.

use vstd::prelude::*;
use vstd::pervasive::VecAdditionalExecFns;
use crate::account::ActorId;
use crate::account::{actor_lt, actor_less};
use crate::assoc::{
    al_lookup, distinct_keys, find_actor, find_id, find_bytes, contains_actor, lemma_lookup_at,
    lemma_lookup_absent, lemma_lookup_after_update, lemma_lookup_after_insert,
    lemma_lookup_after_push, attr_lookup,
    attr_distinct, lemma_attr_at, lemma_attr_absent, lemma_attr_after_update,
    lemma_attr_after_insert, sorted_kv, lemma_sorted_insert, bytes_lt, bytes_less,
    lemma_bytes_lt_total, lemma_bytes_lt_trans,
};
use crate::errors::TokenError;
use crate::fungible::bal_or_zero;

verus! {

/// A token quantity.
pub type Amount = u128;

/// A token-class identifier within one ledger instance.
pub type Id = u128;

/// An account in its role of asset owner.
pub type Owner = ActorId;

/// An account in its role of approved operator.
pub type Operator = ActorId;

/// What one owner holds of one token id, and whom the owner approved for it.
#[derive(Debug, Clone, PartialEq, Eq)]
pub struct TokenOwnerData {
    pub allowances: Vec<(Operator, Amount)>,
    pub balance: Amount,
}

/// One token id's state: its supply, its per-owner table and its attributes.
#[derive(Debug, Clone, PartialEq, Eq)]
pub struct Token {
    pub total_supply: Amount,
    pub owners: Vec<(Owner, TokenOwnerData)>,
    pub attributes: Vec<(Vec<u8>, Vec<u8>)>,
}

/// One owner's aggregate balance across all ids, and the operators granted
/// approval over every id of that owner.
#[derive(Debug, Clone, PartialEq, Eq)]
pub struct GeneralOwnerData {
    pub balance: Amount,
    pub operators: Vec<Operator>,
}

/// What an approval grants: an exact allowance for one id, or toggling
/// operator-for-all standing.
#[derive(Clone, Copy, PartialEq, Eq, Debug)]
pub enum ApproveType {
    Allowance((Id, Amount)),
    Operator(bool),
}

/// The balance stored for `o` in a per-token owner table (zero when absent).
pub open spec fn tod_bal(s: Seq<(Owner, TokenOwnerData)>, o: Owner) -> Amount {
    match al_lookup(s, o) {
        Some(d) => d.balance,
        None => 0,
    }
}

/// The allowance stored for `(o, op)` in a per-token owner table.
pub open spec fn tod_allow(s: Seq<(Owner, TokenOwnerData)>, o: Owner, op: Operator) -> Amount {
    match al_lookup(s, o) {
        Some(d) => bal_or_zero(d.allowances@, op),
        None => 0,
    }
}

/// The aggregate balance stored for `o` in the general owner table.
pub open spec fn agg_bal(s: Seq<(Owner, GeneralOwnerData)>, o: Owner) -> Amount {
    match al_lookup(s, o) {
        Some(g) => g.balance,
        None => 0,
    }
}

/// The operators recorded for `o` in the general owner table.
pub open spec fn agg_ops(s: Seq<(Owner, GeneralOwnerData)>, o: Owner) -> Seq<Operator> {
    match al_lookup(s, o) {
        Some(g) => g.operators@,
        None => Seq::empty(),
    }
}

/// The ascending order imposed on id-keyed tables.
pub open spec fn id_order() -> spec_fn(Id, Id) -> bool {
    |a: Id, b: Id| a < b
}

/// The ascending order imposed on account-keyed tables.
pub open spec fn actor_order() -> spec_fn(ActorId, ActorId) -> bool {
    |a: ActorId, b: ActorId| actor_lt(a, b)
}

/// The ascending order imposed on byte-string-keyed tables.
pub open spec fn attr_order() -> spec_fn(Vec<u8>, Vec<u8>) -> bool {
    |a: Vec<u8>, b: Vec<u8>| bytes_lt(a@, b@)
}

/// An operator list in strictly ascending account order.
pub open spec fn sorted_actors(s: Seq<Operator>) -> bool {
    forall|i: int, j: int| 0 <= i < j < s.len() ==> actor_lt(s[i], s[j])
}

/// The sum of the balances in a per-token owner table.
pub open spec fn sum_token_balances(s: Seq<(Owner, TokenOwnerData)>) -> int
    decreases s.len(),
{
    if s.len() == 0 {
        0
    } else {
        sum_token_balances(s.drop_last()) + s.last().1.balance
    }
}

/// The sum of the per-id supplies of a token table.
pub open spec fn sum_supplies(s: Seq<(Id, Token)>) -> int
    decreases s.len(),
{
    if s.len() == 0 {
        0
    } else {
        sum_supplies(s.drop_last()) + s.last().1.total_supply
    }
}

/// The sum, over all token ids, of what `o` holds of each.
pub open spec fn sum_owner_across(s: Seq<(Id, Token)>, o: Owner) -> int
    decreases s.len(),
{
    if s.len() == 0 {
        0
    } else {
        sum_owner_across(s.drop_last(), o) + tod_bal(s.last().1.owners@, o)
    }
}

pub proof fn lemma_stb_nonneg(s: Seq<(Owner, TokenOwnerData)>)
    ensures
        sum_token_balances(s) >= 0,
    decreases s.len(),
{
    if s.len() > 0 {
        lemma_stb_nonneg(s.drop_last());
    }
}

pub proof fn lemma_stb_update(s: Seq<(Owner, TokenOwnerData)>, i: int, d: TokenOwnerData)
    requires
        0 <= i < s.len(),
    ensures
        sum_token_balances(s.update(i, (s[i].0, d))) == sum_token_balances(s) - s[i].1.balance
            + d.balance,
    decreases s.len(),
{
    let s2 = s.update(i, (s[i].0, d));
    if i == s.len() - 1 {
        assert(s2.drop_last() =~= s.drop_last());
    } else {
        assert(s2.drop_last() =~= s.drop_last().update(i, (s[i].0, d)));
        lemma_stb_update(s.drop_last(), i, d);
    }
}

pub proof fn lemma_stb_push(s: Seq<(Owner, TokenOwnerData)>, p: (Owner, TokenOwnerData))
    ensures
        sum_token_balances(s.push(p)) == sum_token_balances(s) + p.1.balance,
{
    assert(s.push(p).drop_last() =~= s);
}

/// A stored per-token balance never exceeds the table's sum.
pub proof fn lemma_stb_lookup_le(s: Seq<(Owner, TokenOwnerData)>, o: Owner)
    ensures
        tod_bal(s, o) <= sum_token_balances(s),
    decreases s.len(),
{
    if s.len() == 0 {
        lemma_stb_nonneg(s);
    } else if s.last().0 == o {
        lemma_stb_nonneg(s.drop_last());
    } else {
        lemma_stb_lookup_le(s.drop_last(), o);
    }
}

pub proof fn lemma_ss_nonneg(s: Seq<(Id, Token)>)
    ensures
        sum_supplies(s) >= 0,
    decreases s.len(),
{
    if s.len() > 0 {
        lemma_ss_nonneg(s.drop_last());
    }
}

pub proof fn lemma_ss_update(s: Seq<(Id, Token)>, i: int, t: Token)
    requires
        0 <= i < s.len(),
    ensures
        sum_supplies(s.update(i, (s[i].0, t))) == sum_supplies(s) - s[i].1.total_supply
            + t.total_supply,
    decreases s.len(),
{
    let s2 = s.update(i, (s[i].0, t));
    if i == s.len() - 1 {
        assert(s2.drop_last() =~= s.drop_last());
    } else {
        assert(s2.drop_last() =~= s.drop_last().update(i, (s[i].0, t)));
        lemma_ss_update(s.drop_last(), i, t);
    }
}

pub proof fn lemma_ss_push(s: Seq<(Id, Token)>, p: (Id, Token))
    ensures
        sum_supplies(s.push(p)) == sum_supplies(s) + p.1.total_supply,
{
    assert(s.push(p).drop_last() =~= s);
}

/// A stored per-id supply never exceeds the sum of all supplies.
pub proof fn lemma_ss_lookup_le(s: Seq<(Id, Token)>, id: Id)
    ensures
        (match al_lookup(s, id) {
            Some(t) => t.total_supply as int,
            None => 0,
        }) <= sum_supplies(s),
    decreases s.len(),
{
    if s.len() == 0 {
        lemma_ss_nonneg(s);
    } else if s.last().0 == id {
        lemma_ss_nonneg(s.drop_last());
    } else {
        lemma_ss_lookup_le(s.drop_last(), id);
    }
}

pub proof fn lemma_soa_nonneg(s: Seq<(Id, Token)>, o: Owner)
    ensures
        sum_owner_across(s, o) >= 0,
    decreases s.len(),
{
    if s.len() > 0 {
        lemma_soa_nonneg(s.drop_last(), o);
    }
}

pub proof fn lemma_soa_update(s: Seq<(Id, Token)>, i: int, t: Token, o: Owner)
    requires
        0 <= i < s.len(),
    ensures
        sum_owner_across(s.update(i, (s[i].0, t)), o) == sum_owner_across(s, o) - tod_bal(
            s[i].1.owners@,
            o,
        ) + tod_bal(t.owners@, o),
    decreases s.len(),
{
    let s2 = s.update(i, (s[i].0, t));
    if i == s.len() - 1 {
        assert(s2.drop_last() =~= s.drop_last());
    } else {
        assert(s2.drop_last() =~= s.drop_last().update(i, (s[i].0, t)));
        lemma_soa_update(s.drop_last(), i, t, o);
    }
}

pub proof fn lemma_soa_push(s: Seq<(Id, Token)>, p: (Id, Token), o: Owner)
    ensures
        sum_owner_across(s.push(p), o) == sum_owner_across(s, o) + tod_bal(p.1.owners@, o),
{
    assert(s.push(p).drop_last() =~= s);
}

pub proof fn lemma_stb_insert(s: Seq<(Owner, TokenOwnerData)>, p: int, x: (Owner, TokenOwnerData))
    requires
        0 <= p <= s.len(),
    ensures
        sum_token_balances(s.insert(p, x)) == sum_token_balances(s) + x.1.balance,
    decreases s.len(),
{
    if p == s.len() {
        assert(s.insert(p, x) =~= s.push(x));
        lemma_stb_push(s, x);
    } else {
        s.insert_ensures(p, x);
        s.drop_last().insert_ensures(p, x);
        assert(s.insert(p, x).drop_last() =~= s.drop_last().insert(p, x));
        lemma_stb_insert(s.drop_last(), p, x);
    }
}

pub proof fn lemma_ss_insert(s: Seq<(Id, Token)>, p: int, x: (Id, Token))
    requires
        0 <= p <= s.len(),
    ensures
        sum_supplies(s.insert(p, x)) == sum_supplies(s) + x.1.total_supply,
    decreases s.len(),
{
    if p == s.len() {
        assert(s.insert(p, x) =~= s.push(x));
        lemma_ss_push(s, x);
    } else {
        s.insert_ensures(p, x);
        s.drop_last().insert_ensures(p, x);
        assert(s.insert(p, x).drop_last() =~= s.drop_last().insert(p, x));
        lemma_ss_insert(s.drop_last(), p, x);
    }
}

pub proof fn lemma_soa_insert(s: Seq<(Id, Token)>, p: int, x: (Id, Token), o: Owner)
    requires
        0 <= p <= s.len(),
    ensures
        sum_owner_across(s.insert(p, x), o) == sum_owner_across(s, o) + tod_bal(x.1.owners@, o),
    decreases s.len(),
{
    if p == s.len() {
        assert(s.insert(p, x) =~= s.push(x));
        lemma_soa_push(s, x, o);
    } else {
        s.insert_ensures(p, x);
        s.drop_last().insert_ensures(p, x);
        assert(s.insert(p, x).drop_last() =~= s.drop_last().insert(p, x));
        lemma_soa_insert(s.drop_last(), p, x, o);
    }
}

/// What one id contributes to an owner's across-ids sum is at most that sum.
pub proof fn lemma_soa_elem_le(s: Seq<(Id, Token)>, i: int, o: Owner)
    requires
        0 <= i < s.len(),
    ensures
        tod_bal(s[i].1.owners@, o) <= sum_owner_across(s, o),
    decreases s.len(),
{
    if i == s.len() - 1 {
        lemma_soa_nonneg(s.drop_last(), o);
    } else {
        lemma_soa_elem_le(s.drop_last(), i, o);
    }
}

/// When every id's supply equals the sum of its per-owner balances, one
/// owner's across-ids sum is at most the sum of all supplies.
pub proof fn lemma_soa_le_supplies(s: Seq<(Id, Token)>, o: Owner)
    requires
        forall|i: int|
            0 <= i < s.len() ==> sum_token_balances(#[trigger] s[i].1.owners@)
                == s[i].1.total_supply,
    ensures
        sum_owner_across(s, o) <= sum_supplies(s),
    decreases s.len(),
{
    if s.len() > 0 {
        assert(s[s.len() - 1] == s.last());
        lemma_stb_lookup_le(s.last().1.owners@, o);
        assert(forall|i: int|
            0 <= i < s.drop_last().len() ==> s.drop_last()[i] == s[i]);
        lemma_soa_le_supplies(s.drop_last(), o);
    }
}

/// The hierarchical multi-token ledger's whole state.
#[derive(Debug, Clone)]
pub struct MTState {
    pub tokens: Vec<(Id, Token)>,
    pub owners: Vec<(Owner, GeneralOwnerData)>,
    pub total_supply: Amount,
}

impl MTState {
    /// Well-formedness. Besides distinct table keys it carries the two core
    /// invariants: every id's supply equals the sum of that id's per-owner
    /// balances, and every owner's aggregate balance equals the sum of that
    /// owner's per-id balances; the recorded total supply is the sum of the
    /// per-id supplies.
    pub open spec fn wf(self) -> bool {
        &&& distinct_keys(self.tokens@)
        &&& distinct_keys(self.owners@)
        &&& sorted_kv(self.tokens@, id_order())
        &&& sorted_kv(self.owners@, actor_order())
        &&& (forall|i: int|
            #![trigger self.tokens@[i]]
            0 <= i < self.tokens@.len() ==> {
                &&& distinct_keys(self.tokens@[i].1.owners@)
                &&& attr_distinct(self.tokens@[i].1.attributes@)
                &&& sorted_kv(self.tokens@[i].1.owners@, actor_order())
                &&& sorted_kv(self.tokens@[i].1.attributes@, attr_order())
                &&& sum_token_balances(self.tokens@[i].1.owners@) == self.tokens@[i].1.total_supply
            })
        &&& (forall|i: int, j: int|
            #![trigger self.tokens@[i].1.owners@[j]]
            0 <= i < self.tokens@.len() && 0 <= j < self.tokens@[i].1.owners@.len() ==> {
                &&& distinct_keys(self.tokens@[i].1.owners@[j].1.allowances@)
                &&& sorted_kv(self.tokens@[i].1.owners@[j].1.allowances@, actor_order())
            })
        &&& (forall|i: int|
            #![trigger self.owners@[i]]
            0 <= i < self.owners@.len() ==> {
                &&& self.owners@[i].1.operators@.no_duplicates()
                &&& sorted_actors(self.owners@[i].1.operators@)
            })
        &&& sum_supplies(self.tokens@) == self.total_supply
        &&& (forall|o: Owner|
            #[trigger] agg_bal(self.owners@, o) == sum_owner_across(self.tokens@, o))
    }

    /// The token entry of `id`, if any id with an entry exists.
    pub open spec fn spec_token(self, id: Id) -> Option<Token> {
        al_lookup(self.tokens@, id)
    }

    /// The supply recorded for `id` (zero when the id has no entry).
    pub open spec fn spec_supply_of(self, id: Id) -> Amount {
        match self.spec_token(id) {
            Some(t) => t.total_supply,
            None => 0,
        }
    }

    /// The balance of `o` in `id` (zero when absent).
    pub open spec fn spec_balance(self, o: Owner, id: Id) -> Amount {
        match self.spec_token(id) {
            Some(t) => tod_bal(t.owners@, o),
            None => 0,
        }
    }

    /// The aggregate balance of `o` across all ids (zero when absent).
    pub open spec fn spec_agg_balance(self, o: Owner) -> Amount {
        agg_bal(self.owners@, o)
    }

    /// Whether `op` holds operator-for-all standing for `o`.
    pub open spec fn spec_is_operator(self, o: Owner, op: Operator) -> bool {
        agg_ops(self.owners@, o).contains(op)
    }

    /// The stored per-id allowance of `(o, op)` for `id` (zero when absent).
    pub open spec fn spec_allowance_entry(self, o: Owner, op: Operator, id: Id) -> Amount {
        match self.spec_token(id) {
            Some(t) => tod_allow(t.owners@, o, op),
            None => 0,
        }
    }

    /// What `allowance` answers: the MAX sentinel for an operator-for-all,
    /// else the stored per-id allowance when an id is given, else zero. An
    /// operator-for-all grant never materializes as a per-id allowance.
    pub open spec fn spec_allowance(self, o: Owner, op: Operator, id: Option<Id>) -> Amount {
        if self.spec_is_operator(o, op) {
            Amount::MAX
        } else {
            match id {
                Some(i) => self.spec_allowance_entry(o, op, i),
                None => 0,
            }
        }
    }

    /// The attribute value stored for `key` under `id`, as byte sequences.
    pub open spec fn spec_attr(self, id: Id, key: Seq<u8>) -> Option<Seq<u8>> {
        match self.spec_token(id) {
            Some(t) => attr_lookup(t.attributes@, key),
            None => None,
        }
    }

    /// An empty ledger: no ids, no owners, zero supply.
    pub fn new() -> (r: MTState)
        ensures
            r.wf(),
            r.tokens@ == Seq::<(Id, Token)>::empty(),
            r.owners@ == Seq::<(Owner, GeneralOwnerData)>::empty(),
            r.total_supply == 0,
    {
        MTState { tokens: Vec::new(), owners: Vec::new(), total_supply: 0 }
    }

    /// Mints `amount` of `id` to `to`: the id's supply, the `(id, to)`
    /// balance, `to`'s aggregate and the overall supply all grow by exactly
    /// `amount`, in lockstep; everything else is untouched. Fails with
    /// `InvalidAddress`, changing nothing, when `to` is the zero account.
    pub fn mint(&mut self, to: Owner, id: Id, amount: Amount) -> (r: Result<(), TokenError>)
        requires
            old(self).wf(),
            old(self).total_supply + amount <= Amount::MAX,
        ensures
            to == ActorId::spec_zero() ==> r == Err::<(), TokenError>(TokenError::InvalidAddress)
                && *final(self) == *old(self),
            to != ActorId::spec_zero() ==> {
                &&& r == Ok::<(), TokenError>(())
                &&& final(self).wf()
                &&& final(self).total_supply == old(self).total_supply + amount
                &&& final(self).spec_supply_of(id) == old(self).spec_supply_of(id) + amount
                &&& final(self).spec_balance(to, id) == old(self).spec_balance(to, id) + amount
                &&& final(self).spec_agg_balance(to) == old(self).spec_agg_balance(to) + amount
                &&& final(self).spec_token(id) is Some
                &&& (forall|id2: Id|
                    id2 != id ==> #[trigger] final(self).spec_token(id2) == old(self).spec_token(
                        id2,
                    ))
                &&& (forall|id2: Id|
                    id2 != id ==> #[trigger] final(self).spec_supply_of(id2) == old(self).spec_supply_of(id2))
                &&& (forall|o: Owner, id2: Id|
                    !(o == to && id2 == id) ==> #[trigger] final(self).spec_balance(o, id2) == old(self).spec_balance(o, id2))
                &&& (forall|o: Owner|
                    o != to ==> #[trigger] final(self).spec_agg_balance(o) == old(self).spec_agg_balance(o))
                &&& (forall|o: Owner, op: Operator, id2: Id|
                    #[trigger] final(self).spec_allowance_entry(o, op, id2) == old(self).spec_allowance_entry(o, op, id2))
                &&& (forall|o: Owner, op: Operator|
                    #[trigger] final(self).spec_is_operator(o, op) == old(self).spec_is_operator(
                        o,
                        op,
                    ))
                &&& (forall|id2: Id, key: Seq<u8>|
                    #[trigger] final(self).spec_attr(id2, key) == old(self).spec_attr(id2, key))
            },
    {
        if to.is_zero() {
            return Err(TokenError::InvalidAddress);
        }
        let idx = self.ensure_token(id);
        let ghost mid = *self;
        proof {
            lemma_lookup_at(self.tokens@, idx as int);
            lemma_ss_lookup_le(self.tokens@, id);
            lemma_stb_lookup_le(self.tokens@[idx as int].1.owners@, to);
        }
        let row = self.tokens.remove(idx);
        let mut t = row.1;
        tod_credit(&mut t.owners, to, amount);
        t.total_supply = t.total_supply + amount;
        self.tokens.insert(idx, (row.0, t));
        proof {
            assert(self.tokens@ =~= mid.tokens@.update(idx as int, (id, t)));
            lemma_lookup_after_update(mid.tokens@, idx as int, t);
            lemma_ss_update(mid.tokens@, idx as int, t);
            assert forall|o: Owner|
                sum_owner_across(self.tokens@, o) == sum_owner_across(mid.tokens@, o) + (if o == to {
                    amount as int
                } else {
                    0
                }) by {
                lemma_soa_update(mid.tokens@, idx as int, t, o);
            }
            lemma_soa_le_supplies(mid.tokens@, to);
        }
        agg_credit(&mut self.owners, to, amount);
        self.total_supply = self.total_supply + amount;
        Ok(())
    }

    /// Burns `amount` of `id` from `from`: the reverse of mint, debiting the
    /// four records in lockstep. Fails with `InvalidAddress` for the zero
    /// account and with `InsufficientBalance` when the `(id, from)` balance
    /// is short; a failure changes nothing.
    pub fn burn(&mut self, from: Owner, id: Id, amount: Amount) -> (r: Result<(), TokenError>)
        requires
            old(self).wf(),
        ensures
            from == ActorId::spec_zero() ==> r == Err::<(), TokenError>(TokenError::InvalidAddress)
                && *final(self) == *old(self),
            from != ActorId::spec_zero() && old(self).spec_balance(from, id) < amount ==> r == Err::<
                (),
                TokenError,
            >(TokenError::InsufficientBalance) && *final(self) == *old(self),
            from != ActorId::spec_zero() && old(self).spec_balance(from, id) >= amount ==> {
                &&& r == Ok::<(), TokenError>(())
                &&& final(self).wf()
                &&& final(self).total_supply == old(self).total_supply - amount
                &&& final(self).spec_supply_of(id) == old(self).spec_supply_of(id) - amount
                &&& final(self).spec_balance(from, id) == old(self).spec_balance(from, id) - amount
                &&& final(self).spec_agg_balance(from) == old(self).spec_agg_balance(from) - amount
                &&& (final(self).spec_token(id) is Some) == (old(self).spec_token(id) is Some)
                &&& (forall|id2: Id|
                    id2 != id ==> #[trigger] final(self).spec_token(id2) == old(self).spec_token(
                        id2,
                    ))
                &&& (forall|id2: Id|
                    id2 != id ==> #[trigger] final(self).spec_supply_of(id2) == old(self).spec_supply_of(id2))
                &&& (forall|o: Owner, id2: Id|
                    !(o == from && id2 == id) ==> #[trigger] final(self).spec_balance(o, id2)
                        == old(self).spec_balance(o, id2))
                &&& (forall|o: Owner|
                    o != from ==> #[trigger] final(self).spec_agg_balance(o) == old(self).spec_agg_balance(o))
                &&& (forall|o: Owner, op: Operator, id2: Id|
                    #[trigger] final(self).spec_allowance_entry(o, op, id2) == old(self).spec_allowance_entry(o, op, id2))
                &&& (forall|o: Owner, op: Operator|
                    #[trigger] final(self).spec_is_operator(o, op) == old(self).spec_is_operator(
                        o,
                        op,
                    ))
                &&& (forall|id2: Id, key: Seq<u8>|
                    #[trigger] final(self).spec_attr(id2, key) == old(self).spec_attr(id2, key))
            },
    {
        if from.is_zero() {
            return Err(TokenError::InvalidAddress);
        }
        match find_id(&self.tokens, id) {
            None => {
                proof {
                    lemma_lookup_absent(self.tokens@, id);
                }
                if amount > 0 {
                    Err(TokenError::InsufficientBalance)
                } else {
                    Ok(())
                }
            }
            Some(idx) => {
                proof {
                    lemma_lookup_at(self.tokens@, idx as int);
                }
                let have: u128 = tod_get(&self.tokens[idx].1.owners, from);
                if have < amount {
                    return Err(TokenError::InsufficientBalance);
                }
                let ghost mid = *self;
                proof {
                    lemma_ss_lookup_le(self.tokens@, id);
                    lemma_stb_lookup_le(self.tokens@[idx as int].1.owners@, from);
                    lemma_soa_elem_le(self.tokens@, idx as int, from);
                }
                let row = self.tokens.remove(idx);
                let mut t = row.1;
                tod_debit(&mut t.owners, from, amount);
                t.total_supply = t.total_supply - amount;
                self.tokens.insert(idx, (row.0, t));
                proof {
                    assert(self.tokens@ =~= mid.tokens@.update(idx as int, (id, t)));
                    lemma_lookup_after_update(mid.tokens@, idx as int, t);
                    lemma_ss_update(mid.tokens@, idx as int, t);
                    assert forall|o: Owner|
                        sum_owner_across(self.tokens@, o) == sum_owner_across(mid.tokens@, o) - (
                        if o == from {
                            amount as int
                        } else {
                            0
                        }) by {
                        lemma_soa_update(mid.tokens@, idx as int, t, o);
                    }
                }
                agg_debit(&mut self.owners, from, amount);
                self.total_supply = self.total_supply - amount;
                Ok(())
            }
        }
    }

    /// Records an approval from `owner` to `operator`: an `Allowance` kind
    /// overwrites the `(owner, operator, id)` allowance with the exact
    /// amount; an `Operator` kind adds or removes operator-for-all standing.
    /// The two stores are independent: neither touches the other, and no
    /// balance or supply moves. Fails with `InvalidAddress`, changing
    /// nothing, when `operator` is the zero account.
    pub fn approve(&mut self, owner: Owner, operator: Operator, approve_type: ApproveType) -> (r:
        Result<(), TokenError>)
        requires
            old(self).wf(),
            owner != ActorId::spec_zero(),
        ensures
            operator == ActorId::spec_zero() ==> r == Err::<(), TokenError>(
                TokenError::InvalidAddress,
            ) && *final(self) == *old(self),
            operator != ActorId::spec_zero() ==> {
                &&& r == Ok::<(), TokenError>(())
                &&& final(self).wf()
                &&& final(self).total_supply == old(self).total_supply
                &&& (forall|id2: Id|
                    #[trigger] final(self).spec_supply_of(id2) == old(self).spec_supply_of(id2))
                &&& (forall|o: Owner, id2: Id|
                    #[trigger] final(self).spec_balance(o, id2) == old(self).spec_balance(o, id2))
                &&& (forall|o: Owner|
                    #[trigger] final(self).spec_agg_balance(o) == old(self).spec_agg_balance(o))
                &&& (forall|id2: Id, key: Seq<u8>|
                    #[trigger] final(self).spec_attr(id2, key) == old(self).spec_attr(id2, key))
                &&& (match approve_type {
                    ApproveType::Allowance((aid, aamount)) => {
                        &&& final(self).spec_token(aid) is Some
                        &&& (forall|id2: Id|
                            id2 != aid ==> #[trigger] final(self).spec_token(id2) == old(
                                self,
                            ).spec_token(id2))
                        &&& final(self).spec_allowance_entry(owner, operator, aid) == aamount
                        &&& (forall|o: Owner, op: Operator, id2: Id|
                            !(o == owner && op == operator && id2 == aid) ==> #[trigger] final(self).spec_allowance_entry(o, op, id2) == old(self).spec_allowance_entry(
                                o,
                                op,
                                id2,
                            ))
                        &&& (forall|o: Owner, op: Operator|
                            #[trigger] final(self).spec_is_operator(o, op) == old(self).spec_is_operator(o, op))
                    },
                    ApproveType::Operator(flag) => {
                        &&& final(self).tokens == old(self).tokens
                        &&& final(self).spec_is_operator(owner, operator) == flag
                        &&& (forall|o: Owner, op: Operator|
                            !(o == owner && op == operator) ==> #[trigger] final(self).spec_is_operator(o, op) == old(self).spec_is_operator(o, op))
                        &&& (forall|o: Owner, op: Operator, id2: Id|
                            #[trigger] final(self).spec_allowance_entry(o, op, id2) == old(self).spec_allowance_entry(o, op, id2))
                    },
                })
            },
    {
        if operator.is_zero() {
            return Err(TokenError::InvalidAddress);
        }
        match approve_type {
            ApproveType::Allowance((aid, aamount)) => {
                let idx = self.ensure_token(aid);
                let ghost mid = *self;
                proof {
                    lemma_lookup_at(self.tokens@, idx as int);
                }
                let row = self.tokens.remove(idx);
                let mut t = row.1;
                tod_set_allowance(&mut t.owners, owner, operator, aamount);
                self.tokens.insert(idx, (row.0, t));
                proof {
                    assert(self.tokens@ =~= mid.tokens@.update(idx as int, (aid, t)));
                    lemma_lookup_after_update(mid.tokens@, idx as int, t);
                    lemma_ss_update(mid.tokens@, idx as int, t);
                    assert forall|o: Owner|
                        sum_owner_across(self.tokens@, o) == sum_owner_across(mid.tokens@, o) by {
                        lemma_soa_update(mid.tokens@, idx as int, t, o);
                    }
                }
                Ok(())
            }
            ApproveType::Operator(flag) => {
                ops_set(&mut self.owners, owner, operator, flag);
                Ok(())
            }
        }
    }

    /// The balance of `owner`: for a given id the stored `(id, owner)`
    /// balance, with no id the owner's aggregate across all ids.
    pub fn balance_of(&self, owner: Owner, id: Option<&Id>) -> (r: Amount)
        requires
            self.wf(),
        ensures
            r == (match id {
                Some(i) => self.spec_balance(owner, *i),
                None => self.spec_agg_balance(owner),
            }),
    {
        match id {
            Some(i) => q_balance(&self.tokens, owner, i),
            None => q_agg(&self.owners, owner),
        }
    }

    /// The allowance of `(owner, operator)`: the MAX sentinel when the
    /// operator holds operator-for-all standing, else the stored per-id
    /// allowance when an id is given, else zero.
    pub fn allowance(&self, owner: Owner, operator: Operator, id: Option<&Id>) -> (r: Amount)
        requires
            self.wf(),
        ensures
            r == self.spec_allowance(
                owner,
                operator,
                match id {
                    Some(i) => Some(*i),
                    None => None,
                },
            ),
    {
        q_allowance(&self.tokens, &self.owners, owner, operator, id)
    }

    /// The attribute stored for `key` under `id`, `None` when unset; fails
    /// with `UnknownId` when `id` has no entry at all. The two outcomes are
    /// deliberately distinguishable.
    pub fn get_attribute(&self, id: &Id, key: &Vec<u8>) -> (r: Result<Option<&Vec<u8>>, TokenError>)
        requires
            self.wf(),
        ensures
            self.spec_token(*id) is None ==> r == Err::<Option<&Vec<u8>>, TokenError>(
                TokenError::UnknownId,
            ),
            self.spec_token(*id) is Some ==> (match r {
                Ok(opt) => match opt {
                    Some(v) => self.spec_attr(*id, key@) == Some(v@),
                    None => self.spec_attr(*id, key@) is None,
                },
                Err(_) => false,
            }),
    {
        q_attr(&self.tokens, id, key)
    }

    /// Stores `value` under `key` for the id, overwriting any earlier value;
    /// fails with `UnknownId`, changing nothing, when `id` has no entry.
    pub fn set_attribute(&mut self, id: &Id, key: Vec<u8>, value: Vec<u8>) -> (r: Result<
        (),
        TokenError,
    >)
        requires
            old(self).wf(),
        ensures
            old(self).spec_token(*id) is None ==> r == Err::<(), TokenError>(TokenError::UnknownId)
                && *final(self) == *old(self),
            old(self).spec_token(*id) is Some ==> {
                &&& r == Ok::<(), TokenError>(())
                &&& final(self).wf()
                &&& final(self).owners == old(self).owners
                &&& final(self).total_supply == old(self).total_supply
                &&& final(self).spec_token(*id) is Some
                &&& (forall|id2: Id|
                    id2 != *id ==> #[trigger] final(self).spec_token(id2) == old(self).spec_token(
                        id2,
                    ))
                &&& final(self).spec_attr(*id, key@) == Some(value@)
                &&& (forall|id2: Id, k2: Seq<u8>|
                    !(id2 == *id && k2 == key@) ==> #[trigger] final(self).spec_attr(id2, k2)
                        == old(self).spec_attr(id2, k2))
                &&& (forall|id2: Id|
                    #[trigger] final(self).spec_supply_of(id2) == old(self).spec_supply_of(id2))
                &&& (forall|o: Owner, id2: Id|
                    #[trigger] final(self).spec_balance(o, id2) == old(self).spec_balance(o, id2))
                &&& (forall|o: Owner, op: Operator, id2: Id|
                    #[trigger] final(self).spec_allowance_entry(o, op, id2) == old(self).spec_allowance_entry(o, op, id2))
            },
    {
        match find_id(&self.tokens, *id) {
            None => {
                proof {
                    lemma_lookup_absent(self.tokens@, *id);
                }
                Err(TokenError::UnknownId)
            }
            Some(idx) => {
                proof {
                    lemma_lookup_at(self.tokens@, idx as int);
                }
                let ghost mid = *self;
                let row = self.tokens.remove(idx);
                let mut t = row.1;
                attr_set(&mut t.attributes, key, value);
                self.tokens.insert(idx, (row.0, t));
                proof {
                    assert(self.tokens@ =~= mid.tokens@.update(idx as int, (*id, t)));
                    lemma_lookup_after_update(mid.tokens@, idx as int, t);
                    lemma_ss_update(mid.tokens@, idx as int, t);
                    assert forall|o: Owner|
                        sum_owner_across(self.tokens@, o) == sum_owner_across(mid.tokens@, o) by {
                        lemma_soa_update(mid.tokens@, idx as int, t, o);
                    }
                }
                Ok(())
            }
        }
    }

    /// Finds the entry of `id`, creating an empty one (zero supply, no
    /// owners, no attributes) when absent; every query answers as before.
    fn ensure_token(&mut self, id: Id) -> (i: usize)
        requires
            old(self).wf(),
        ensures
            final(self).wf(),
            final(self).owners == old(self).owners,
            final(self).total_supply == old(self).total_supply,
            (i as int) < final(self).tokens@.len(),
            final(self).tokens@[i as int].0 == id,
            al_lookup(final(self).tokens@, id) == Some(final(self).tokens@[i as int].1),
            forall|id2: Id|
                id2 != id ==> #[trigger] al_lookup(final(self).tokens@, id2) == al_lookup(
                    old(self).tokens@,
                    id2,
                ),
            ({
                let t = final(self).tokens@[i as int].1;
                &&& t.total_supply == old(self).spec_supply_of(id)
                &&& (forall|o: Owner| #[trigger] tod_bal(t.owners@, o) == old(self).spec_balance(o, id))
                &&& (forall|o: Owner, op: Operator|
                    #[trigger] tod_allow(t.owners@, o, op) == old(self).spec_allowance_entry(
                        o,
                        op,
                        id,
                    ))
                &&& (forall|key: Seq<u8>|
                    #[trigger] attr_lookup(t.attributes@, key) == old(self).spec_attr(id, key))
            }),
    {
        match find_id(&self.tokens, id) {
            Some(i) => {
                proof {
                    lemma_lookup_at(self.tokens@, i as int);
                }
                i
            }
            None => {
                proof {
                    lemma_lookup_absent(self.tokens@, id);
                }
                let t = Token { total_supply: 0, owners: Vec::new(), attributes: Vec::new() };
                let p = pos_id(&self.tokens, id);
                proof {
                    let lt = id_order();
                    assert forall|a: int| 0 <= a < p as int implies lt(self.tokens@[a].0, id) by {}
                    assert forall|b: int|
                        p as int <= b < self.tokens@.len() implies lt(id, self.tokens@[b].0) by {}
                    lemma_lookup_after_insert(self.tokens@, p as int, id, t);
                    lemma_ss_insert(self.tokens@, p as int, (id, t));
                    assert forall|o: Owner|
                        sum_owner_across(self.tokens@.insert(p as int, (id, t)), o)
                            == sum_owner_across(self.tokens@, o) by {
                        lemma_soa_insert(self.tokens@, p as int, (id, t), o);
                    }
                    lemma_sorted_insert(self.tokens@, p as int, (id, t), id_order());
                    self.tokens@.insert_ensures(p as int, (id, t));
                }
                self.tokens.insert(p, (id, t));
                p
            }
        }
    }
}

/// The balance of `o` in a per-token owner table.
pub(crate) fn tod_get(v: &Vec<(Owner, TokenOwnerData)>, o: Owner) -> (r: Amount)
    requires
        distinct_keys(v@),
    ensures
        r == tod_bal(v@, o),
{
    match find_actor(v, o) {
        Some(i) => {
            proof {
                lemma_lookup_at(v@, i as int);
            }
            v[i].1.balance
        }
        None => {
            proof {
                lemma_lookup_absent(v@, o);
            }
            0
        }
    }
}

/// Adds `amount` to the balance of `k`, creating the row (with no
/// allowances) when absent.
fn tod_credit(v: &mut Vec<(Owner, TokenOwnerData)>, k: Owner, amount: Amount)
    requires
        distinct_keys(old(v)@),
        sorted_kv(old(v)@, actor_order()),
        forall|j: int|
            0 <= j < old(v)@.len() ==> {
                &&& distinct_keys(#[trigger] old(v)@[j].1.allowances@)
                &&& sorted_kv(old(v)@[j].1.allowances@, actor_order())
            },
        tod_bal(old(v)@, k) + amount <= Amount::MAX,
    ensures
        distinct_keys(final(v)@),
        sorted_kv(final(v)@, actor_order()),
        forall|j: int|
            0 <= j < final(v)@.len() ==> {
                &&& distinct_keys(#[trigger] final(v)@[j].1.allowances@)
                &&& sorted_kv(final(v)@[j].1.allowances@, actor_order())
            },
        sum_token_balances(final(v)@) == sum_token_balances(old(v)@) + amount,
        forall|o: Owner|
            #[trigger] tod_bal(final(v)@, o) == (if o == k {
                (tod_bal(old(v)@, k) + amount) as Amount
            } else {
                tod_bal(old(v)@, o)
            }),
        forall|o: Owner, op: Operator|
            #[trigger] tod_allow(final(v)@, o, op) == tod_allow(old(v)@, o, op),
{
    match find_actor(v, k) {
        Some(i) => {
            proof {
                lemma_lookup_at(v@, i as int);
            }
            let row = v.remove(i);
            let d = TokenOwnerData {
                balance: row.1.balance + amount,
                allowances: row.1.allowances,
            };
            v.insert(i, (k, d));
            proof {
                assert(v@ =~= old(v)@.update(i as int, (k, d)));
                lemma_lookup_after_update(old(v)@, i as int, d);
                lemma_stb_update(old(v)@, i as int, d);
                assert(forall|x: int| 0 <= x < v@.len() ==> v@[x].0 == old(v)@[x].0);
                assert(sorted_kv(v@, actor_order()));
            }
        }
        None => {
            let d = TokenOwnerData { balance: amount, allowances: Vec::new() };
            let p = pos_actor(v, k);
            proof {
                let lt = actor_order();
                assert forall|a: int| 0 <= a < p as int implies lt(v@[a].0, k) by {}
                assert forall|b: int| p as int <= b < v@.len() implies lt(k, v@[b].0) by {}
                lemma_lookup_absent(v@, k);
                lemma_lookup_after_insert(v@, p as int, k, d);
                lemma_stb_insert(v@, p as int, (k, d));
                lemma_sorted_insert(v@, p as int, (k, d), actor_order());
                v@.insert_ensures(p as int, (k, d));
            }
            v.insert(p, (k, d));
        }
    }
}

/// Subtracts `amount` from the balance of `k`; the stored balance covers it.
fn tod_debit(v: &mut Vec<(Owner, TokenOwnerData)>, k: Owner, amount: Amount)
    requires
        distinct_keys(old(v)@),
        sorted_kv(old(v)@, actor_order()),
        forall|j: int|
            0 <= j < old(v)@.len() ==> {
                &&& distinct_keys(#[trigger] old(v)@[j].1.allowances@)
                &&& sorted_kv(old(v)@[j].1.allowances@, actor_order())
            },
        tod_bal(old(v)@, k) >= amount,
    ensures
        distinct_keys(final(v)@),
        sorted_kv(final(v)@, actor_order()),
        forall|j: int|
            0 <= j < final(v)@.len() ==> {
                &&& distinct_keys(#[trigger] final(v)@[j].1.allowances@)
                &&& sorted_kv(final(v)@[j].1.allowances@, actor_order())
            },
        sum_token_balances(final(v)@) == sum_token_balances(old(v)@) - amount,
        forall|o: Owner|
            #[trigger] tod_bal(final(v)@, o) == (if o == k {
                (tod_bal(old(v)@, k) - amount) as Amount
            } else {
                tod_bal(old(v)@, o)
            }),
        forall|o: Owner, op: Operator|
            #[trigger] tod_allow(final(v)@, o, op) == tod_allow(old(v)@, o, op),
{
    match find_actor(v, k) {
        Some(i) => {
            proof {
                lemma_lookup_at(v@, i as int);
            }
            let row = v.remove(i);
            let d = TokenOwnerData {
                balance: row.1.balance - amount,
                allowances: row.1.allowances,
            };
            v.insert(i, (k, d));
            proof {
                assert(v@ =~= old(v)@.update(i as int, (k, d)));
                lemma_lookup_after_update(old(v)@, i as int, d);
                lemma_stb_update(old(v)@, i as int, d);
                assert(forall|x: int| 0 <= x < v@.len() ==> v@[x].0 == old(v)@[x].0);
                assert(sorted_kv(v@, actor_order()));
            }
        }
        None => {
            proof {
                lemma_lookup_absent(v@, k);
            }
            // The stored balance is zero, so `amount` is zero.
        }
    }
}

/// Overwrites the allowance of `(owner, operator)` with `amount`, creating
/// the owner row (with balance zero) when absent.
fn tod_set_allowance(v: &mut Vec<(Owner, TokenOwnerData)>, owner: Owner, operator: Operator, amount: Amount)
    requires
        distinct_keys(old(v)@),
        sorted_kv(old(v)@, actor_order()),
        forall|j: int|
            0 <= j < old(v)@.len() ==> {
                &&& distinct_keys(#[trigger] old(v)@[j].1.allowances@)
                &&& sorted_kv(old(v)@[j].1.allowances@, actor_order())
            },
    ensures
        distinct_keys(final(v)@),
        sorted_kv(final(v)@, actor_order()),
        forall|j: int|
            0 <= j < final(v)@.len() ==> {
                &&& distinct_keys(#[trigger] final(v)@[j].1.allowances@)
                &&& sorted_kv(final(v)@[j].1.allowances@, actor_order())
            },
        sum_token_balances(final(v)@) == sum_token_balances(old(v)@),
        forall|o: Owner| #[trigger] tod_bal(final(v)@, o) == tod_bal(old(v)@, o),
        tod_allow(final(v)@, owner, operator) == amount,
        forall|o: Owner, op: Operator|
            !(o == owner && op == operator) ==> #[trigger] tod_allow(final(v)@, o, op) == tod_allow(
                old(v)@,
                o,
                op,
            ),
{
    match find_actor(v, owner) {
        Some(i) => {
            proof {
                lemma_lookup_at(v@, i as int);
            }
            let row = v.remove(i);
            let mut inner = row.1.allowances;
            let ghost inner0 = inner@;
            match find_actor(&inner, operator) {
                Some(j) => {
                    proof {
                        lemma_lookup_at(inner@, j as int);
                        lemma_lookup_after_update(inner@, j as int, amount);
                    }
                    inner.set(j, (operator, amount));
                    proof {
                        assert(forall|x: int| 0 <= x < inner@.len() ==> inner@[x].0 == inner0[x].0);
                        assert(sorted_kv(inner@, actor_order()));
                    }
                }
                None => {
                    let q = pos_actor(&inner, operator);
                    proof {
                        let lt = actor_order();
                        assert forall|a: int| 0 <= a < q as int implies lt(inner@[a].0, operator) by {}
                        assert forall|b: int| q as int <= b < inner@.len() implies lt(
                            operator,
                            inner@[b].0,
                        ) by {}
                        lemma_lookup_absent(inner@, operator);
                        lemma_lookup_after_insert(inner@, q as int, operator, amount);
                        lemma_sorted_insert(inner@, q as int, (operator, amount), actor_order());
                        inner@.insert_ensures(q as int, (operator, amount));
                    }
                    inner.insert(q, (operator, amount));
                }
            }
            let d = TokenOwnerData { balance: row.1.balance, allowances: inner };
            v.insert(i, (owner, d));
            proof {
                assert(v@ =~= old(v)@.update(i as int, (owner, d)));
                lemma_lookup_after_update(old(v)@, i as int, d);
                lemma_stb_update(old(v)@, i as int, d);
                assert(forall|x: int| 0 <= x < v@.len() ==> v@[x].0 == old(v)@[x].0);
                assert(sorted_kv(v@, actor_order()));
            }
        }
        None => {
            let mut inner: Vec<(Operator, Amount)> = Vec::new();
            proof {
                lemma_lookup_after_push(inner@, operator, amount);
            }
            inner.push((operator, amount));
            let d = TokenOwnerData { balance: 0, allowances: inner };
            let p = pos_actor(v, owner);
            proof {
                let lt = actor_order();
                assert forall|a: int| 0 <= a < p as int implies lt(v@[a].0, owner) by {}
                assert forall|b: int| p as int <= b < v@.len() implies lt(owner, v@[b].0) by {}
                lemma_lookup_absent(v@, owner);
                lemma_lookup_after_insert(v@, p as int, owner, d);
                lemma_stb_insert(v@, p as int, (owner, d));
                lemma_sorted_insert(v@, p as int, (owner, d), actor_order());
                v@.insert_ensures(p as int, (owner, d));
            }
            v.insert(p, (owner, d));
        }
    }
}

/// Adds `amount` to the aggregate balance of `k`, creating the row (with no
/// operators) when absent.
fn agg_credit(v: &mut Vec<(Owner, GeneralOwnerData)>, k: Owner, amount: Amount)
    requires
        distinct_keys(old(v)@),
        sorted_kv(old(v)@, actor_order()),
        forall|j: int|
            0 <= j < old(v)@.len() ==> {
                &&& (#[trigger] old(v)@[j].1.operators@).no_duplicates()
                &&& sorted_actors(old(v)@[j].1.operators@)
            },
        agg_bal(old(v)@, k) + amount <= Amount::MAX,
    ensures
        distinct_keys(final(v)@),
        sorted_kv(final(v)@, actor_order()),
        forall|j: int|
            0 <= j < final(v)@.len() ==> {
                &&& (#[trigger] final(v)@[j].1.operators@).no_duplicates()
                &&& sorted_actors(final(v)@[j].1.operators@)
            },
        forall|o: Owner|
            #[trigger] agg_bal(final(v)@, o) == (if o == k {
                (agg_bal(old(v)@, k) + amount) as Amount
            } else {
                agg_bal(old(v)@, o)
            }),
        forall|o: Owner| #[trigger] agg_ops(final(v)@, o) == agg_ops(old(v)@, o),
{
    match find_actor(v, k) {
        Some(i) => {
            proof {
                lemma_lookup_at(v@, i as int);
            }
            let row = v.remove(i);
            let g = GeneralOwnerData { balance: row.1.balance + amount, operators: row.1.operators };
            v.insert(i, (k, g));
            proof {
                assert(v@ =~= old(v)@.update(i as int, (k, g)));
                lemma_lookup_after_update(old(v)@, i as int, g);
                assert(forall|x: int| 0 <= x < v@.len() ==> v@[x].0 == old(v)@[x].0);
                assert(sorted_kv(v@, actor_order()));
            }
        }
        None => {
            let g = GeneralOwnerData { balance: amount, operators: Vec::new() };
            let p = pos_actor(v, k);
            proof {
                let lt = actor_order();
                assert forall|a: int| 0 <= a < p as int implies lt(v@[a].0, k) by {}
                assert forall|b: int| p as int <= b < v@.len() implies lt(k, v@[b].0) by {}
                lemma_lookup_absent(v@, k);
                lemma_lookup_after_insert(v@, p as int, k, g);
                lemma_sorted_insert(v@, p as int, (k, g), actor_order());
                v@.insert_ensures(p as int, (k, g));
            }
            v.insert(p, (k, g));
        }
    }
}

/// Subtracts `amount` from the aggregate balance of `k`; it covers it.
fn agg_debit(v: &mut Vec<(Owner, GeneralOwnerData)>, k: Owner, amount: Amount)
    requires
        distinct_keys(old(v)@),
        sorted_kv(old(v)@, actor_order()),
        forall|j: int|
            0 <= j < old(v)@.len() ==> {
                &&& (#[trigger] old(v)@[j].1.operators@).no_duplicates()
                &&& sorted_actors(old(v)@[j].1.operators@)
            },
        agg_bal(old(v)@, k) >= amount,
    ensures
        distinct_keys(final(v)@),
        sorted_kv(final(v)@, actor_order()),
        forall|j: int|
            0 <= j < final(v)@.len() ==> {
                &&& (#[trigger] final(v)@[j].1.operators@).no_duplicates()
                &&& sorted_actors(final(v)@[j].1.operators@)
            },
        forall|o: Owner|
            #[trigger] agg_bal(final(v)@, o) == (if o == k {
                (agg_bal(old(v)@, k) - amount) as Amount
            } else {
                agg_bal(old(v)@, o)
            }),
        forall|o: Owner| #[trigger] agg_ops(final(v)@, o) == agg_ops(old(v)@, o),
{
    match find_actor(v, k) {
        Some(i) => {
            proof {
                lemma_lookup_at(v@, i as int);
            }
            let row = v.remove(i);
            let g = GeneralOwnerData { balance: row.1.balance - amount, operators: row.1.operators };
            v.insert(i, (k, g));
            proof {
                assert(v@ =~= old(v)@.update(i as int, (k, g)));
                lemma_lookup_after_update(old(v)@, i as int, g);
                assert(forall|x: int| 0 <= x < v@.len() ==> v@[x].0 == old(v)@[x].0);
                assert(sorted_kv(v@, actor_order()));
            }
        }
        None => {
            proof {
                lemma_lookup_absent(v@, k);
            }
            // The stored aggregate is zero, so `amount` is zero.
        }
    }
}

proof fn lemma_ops_insert(s: Seq<Operator>, p: int, x: Operator)
    requires
        sorted_actors(s),
        !s.contains(x),
        0 <= p <= s.len(),
        forall|a: int| 0 <= a < p ==> actor_lt(s[a], x),
        forall|b: int| p <= b < s.len() ==> actor_lt(x, s[b]),
    ensures
        sorted_actors(s.insert(p, x)),
        s.insert(p, x).no_duplicates(),
        forall|y: Operator| #[trigger] s.insert(p, x).contains(y) == (s.contains(y) || y == x),
{
    let s2 = s.insert(p, x);
    s.insert_ensures(p, x);
    assert forall|i: int, j: int| 0 <= i < j < s2.len() implies actor_lt(s2[i], s2[j]) by {
        if i < p {
            assert(s2[i] == s[i]);
        } else if i > p {
            assert(s2[i] == s[i - 1]);
        }
        if j < p {
            assert(s2[j] == s[j]);
        } else if j > p {
            assert(s2[j] == s[j - 1]);
        }
    }
    assert forall|i: int, j: int| 0 <= i < s2.len() && 0 <= j < s2.len() && i != j implies s2[i]
        != s2[j] by {
        if i < j {
            assert(actor_lt(s2[i], s2[j]));
        } else {
            assert(actor_lt(s2[j], s2[i]));
        }
    }
    assert forall|y: Operator| #[trigger] s2.contains(y) == (s.contains(y) || y == x) by {
        if s2.contains(y) {
            let j = choose|j: int| 0 <= j < s2.len() && s2[j] == y;
            if j < p {
                assert(s[j] == y);
            } else if j > p {
                assert(s[j - 1] == y);
            }
        }
        if s.contains(y) {
            let j = choose|j: int| 0 <= j < s.len() && s[j] == y;
            if j < p {
                assert(s2[j] == y);
            } else {
                assert(s2[j + 1] == y);
            }
        }
        assert(s2[p] == x);
    }
}

proof fn lemma_ops_remove(s: Seq<Operator>, i: int)
    requires
        s.no_duplicates(),
        sorted_actors(s),
        0 <= i < s.len(),
    ensures
        s.remove(i).no_duplicates(),
        sorted_actors(s.remove(i)),
        !s.remove(i).contains(s[i]),
        forall|y: Operator|
            y != s[i] ==> #[trigger] s.remove(i).contains(y) == s.contains(y),
{
    s.remove_ensures(i);
    assert forall|a: int, b: int| 0 <= a < b < s.remove(i).len() implies actor_lt(
        s.remove(i)[a],
        s.remove(i)[b],
    ) by {
        if a >= i {
            assert(s.remove(i)[a] == s[a + 1]);
        }
        if b >= i {
            assert(s.remove(i)[b] == s[b + 1]);
        }
    }
    let s2 = s.remove(i);
    assert forall|y: Operator| s2.contains(y) implies (s.contains(y) && (y != s[i] || false)) by {
        let j = choose|j: int| 0 <= j < s2.len() && s2[j] == y;
        if j < i {
            assert(s[j] == y);
        } else {
            assert(s[j + 1] == y);
        }
    }
    assert forall|y: Operator| y != s[i] && s.contains(y) implies #[trigger] s2.contains(y) by {
        let j = choose|j: int| 0 <= j < s.len() && s[j] == y;
        if j < i {
            assert(s2[j] == y);
        } else {
            assert(s2[j - 1] == y);
        }
    }
}

/// Grants or revokes the operator-for-all standing of `operator` for
/// `owner`, creating the owner row (with balance zero) when absent; balances
/// and every other operator relation are untouched.
fn ops_set(v: &mut Vec<(Owner, GeneralOwnerData)>, owner: Owner, operator: Operator, flag: bool)
    requires
        distinct_keys(old(v)@),
        sorted_kv(old(v)@, actor_order()),
        forall|j: int|
            0 <= j < old(v)@.len() ==> {
                &&& (#[trigger] old(v)@[j].1.operators@).no_duplicates()
                &&& sorted_actors(old(v)@[j].1.operators@)
            },
    ensures
        distinct_keys(final(v)@),
        sorted_kv(final(v)@, actor_order()),
        forall|j: int|
            0 <= j < final(v)@.len() ==> {
                &&& (#[trigger] final(v)@[j].1.operators@).no_duplicates()
                &&& sorted_actors(final(v)@[j].1.operators@)
            },
        forall|o: Owner| #[trigger] agg_bal(final(v)@, o) == agg_bal(old(v)@, o),
        agg_ops(final(v)@, owner).contains(operator) == flag,
        forall|o: Owner, op: Operator|
            !(o == owner && op == operator) ==> #[trigger] agg_ops(final(v)@, o).contains(op)
                == agg_ops(old(v)@, o).contains(op),
{
    match find_actor(v, owner) {
        Some(i) => {
            proof {
                lemma_lookup_at(v@, i as int);
            }
            let row = v.remove(i);
            let mut ops = row.1.operators;
            if flag {
                if !contains_actor(&ops, operator) {
                    let q = pos_operator(&ops, operator);
                    proof {
                        lemma_ops_insert(ops@, q as int, operator);
                        ops@.insert_ensures(q as int, operator);
                    }
                    ops.insert(q, operator);
                }
            } else {
                match find_operator(&ops, operator) {
                    Some(j) => {
                        proof {
                            lemma_ops_remove(ops@, j as int);
                        }
                        ops.remove(j);
                    }
                    None => {
                    }
                }
            }
            let g = GeneralOwnerData { balance: row.1.balance, operators: ops };
            v.insert(i, (owner, g));
            proof {
                assert(v@ =~= old(v)@.update(i as int, (owner, g)));
                lemma_lookup_after_update(old(v)@, i as int, g);
                assert(forall|x: int| 0 <= x < v@.len() ==> v@[x].0 == old(v)@[x].0);
                assert(sorted_kv(v@, actor_order()));
            }
        }
        None => {
            let mut ops: Vec<Operator> = Vec::new();
            if flag {
                proof {
                    lemma_ops_insert(ops@, 0, operator);
                    ops@.insert_ensures(0, operator);
                    assert(ops@.insert(0, operator) =~= ops@.push(operator));
                }
                ops.push(operator);
            }
            let g = GeneralOwnerData { balance: 0, operators: ops };
            let p = pos_actor(v, owner);
            proof {
                let lt = actor_order();
                assert forall|a: int| 0 <= a < p as int implies lt(v@[a].0, owner) by {}
                assert forall|b: int| p as int <= b < v@.len() implies lt(owner, v@[b].0) by {}
                lemma_lookup_absent(v@, owner);
                lemma_lookup_after_insert(v@, p as int, owner, g);
                lemma_sorted_insert(v@, p as int, (owner, g), actor_order());
                v@.insert_ensures(p as int, (owner, g));
            }
            v.insert(p, (owner, g));
        }
    }
}

/// Finds the index of `k` in a plain account list.
fn find_operator(v: &Vec<Operator>, k: Operator) -> (r: Option<usize>)
    ensures
        match r {
            Some(i) => 0 <= (i as int) < v@.len() && v@[i as int] == k,
            None => !v@.contains(k),
        },
{
    let mut i: usize = 0;
    while i < v.len()
        invariant
            i <= v.len(),
            forall|j: int| 0 <= j < i ==> v@[j] != k,
        decreases v.len() - i,
    {
        if v[i] == k {
            return Some(i);
        }
        i = i + 1;
    }
    None
}

/// The position where the absent id `k` belongs in an ascending table.
fn pos_id<V>(v: &Vec<(u128, V)>, k: u128) -> (p: usize)
    requires
        sorted_kv(v@, id_order()),
        forall|j: int| 0 <= j < v@.len() ==> v@[j].0 != k,
    ensures
        p <= v.len(),
        forall|a: int| 0 <= a < p ==> v@[a].0 < k,
        forall|b: int| (p as int) <= b < v@.len() ==> k < v@[b].0,
{
    let mut p: usize = 0;
    while p < v.len() && v[p].0 < k
        invariant
            p <= v.len(),
            sorted_kv(v@, id_order()),
            forall|j: int| 0 <= j < v@.len() ==> v@[j].0 != k,
            forall|a: int| 0 <= a < p ==> v@[a].0 < k,
        decreases v.len() - p,
    {
        p = p + 1;
    }
    proof {
        let lt = id_order();
        assert forall|b: int| (p as int) <= b < v@.len() implies k < v@[b].0 by {
            if b > p as int {
                assert(lt(v@[p as int].0, v@[b].0));
            }
        }
    }
    p
}

/// The position where the absent account key `k` belongs.
fn pos_actor<V>(v: &Vec<(ActorId, V)>, k: ActorId) -> (p: usize)
    requires
        sorted_kv(v@, actor_order()),
        forall|j: int| 0 <= j < v@.len() ==> v@[j].0 != k,
    ensures
        p <= v.len(),
        forall|a: int| 0 <= a < p ==> actor_lt(v@[a].0, k),
        forall|b: int| (p as int) <= b < v@.len() ==> actor_lt(k, v@[b].0),
{
    let mut p: usize = 0;
    while p < v.len() && actor_less(&v[p].0, &k)
        invariant
            p <= v.len(),
            sorted_kv(v@, actor_order()),
            forall|j: int| 0 <= j < v@.len() ==> v@[j].0 != k,
            forall|a: int| 0 <= a < p ==> actor_lt(v@[a].0, k),
        decreases v.len() - p,
    {
        p = p + 1;
    }
    proof {
        let lt = actor_order();
        assert forall|b: int| (p as int) <= b < v@.len() implies actor_lt(k, v@[b].0) by {
            assert(actor_lt(k, v@[p as int].0));
            if b > p as int {
                assert(lt(v@[p as int].0, v@[b].0));
            }
        }
    }
    p
}

/// The position where the absent operator `k` belongs in an ascending list.
fn pos_operator(v: &Vec<Operator>, k: Operator) -> (p: usize)
    requires
        sorted_actors(v@),
        !v@.contains(k),
    ensures
        p <= v.len(),
        forall|a: int| 0 <= a < p ==> actor_lt(v@[a], k),
        forall|b: int| (p as int) <= b < v@.len() ==> actor_lt(k, v@[b]),
{
    let mut p: usize = 0;
    while p < v.len() && actor_less(&v[p], &k)
        invariant
            p <= v.len(),
            sorted_actors(v@),
            !v@.contains(k),
            forall|a: int| 0 <= a < p ==> actor_lt(v@[a], k),
        decreases v.len() - p,
    {
        p = p + 1;
    }
    proof {
        assert forall|b: int| (p as int) <= b < v@.len() implies actor_lt(k, v@[b]) by {
            assert(v@[p as int] != k);
            assert(actor_lt(k, v@[p as int]));
            if b > p as int {
                assert(actor_lt(v@[p as int], v@[b]));
            }
        }
    }
    p
}

/// The position where the absent byte-string key `k` belongs.
fn pos_attr(v: &Vec<(Vec<u8>, Vec<u8>)>, k: &Vec<u8>) -> (p: usize)
    requires
        sorted_kv(v@, attr_order()),
        forall|j: int| 0 <= j < v@.len() ==> v@[j].0@ != k@,
    ensures
        p <= v.len(),
        forall|a: int| 0 <= a < p ==> bytes_lt(v@[a].0@, k@),
        forall|b: int| (p as int) <= b < v@.len() ==> bytes_lt(k@, v@[b].0@),
{
    let mut p: usize = 0;
    while p < v.len() && bytes_less(&v[p].0, k)
        invariant
            p <= v.len(),
            sorted_kv(v@, attr_order()),
            forall|j: int| 0 <= j < v@.len() ==> v@[j].0@ != k@,
            forall|a: int| 0 <= a < p ==> bytes_lt(v@[a].0@, k@),
        decreases v.len() - p,
    {
        p = p + 1;
    }
    proof {
        let lt = attr_order();
        assert forall|b: int| (p as int) <= b < v@.len() implies bytes_lt(k@, v@[b].0@) by {
            lemma_bytes_lt_total(k@, v@[p as int].0@);
            if b > p as int {
                assert(lt(v@[p as int].0, v@[b].0));
                lemma_bytes_lt_trans(k@, v@[p as int].0@, v@[b].0@);
            }
        }
    }
    p
}

/// Overwrites the attribute stored for `key` with `value`, creating the
/// entry when absent.
fn attr_set(v: &mut Vec<(Vec<u8>, Vec<u8>)>, key: Vec<u8>, value: Vec<u8>)
    requires
        attr_distinct(old(v)@),
        sorted_kv(old(v)@, attr_order()),
    ensures
        attr_distinct(final(v)@),
        sorted_kv(final(v)@, attr_order()),
        attr_lookup(final(v)@, key@) == Some(value@),
        forall|k2: Seq<u8>|
            k2 != key@ ==> #[trigger] attr_lookup(final(v)@, k2) == attr_lookup(old(v)@, k2),
{
    match find_bytes(v, &key) {
        Some(i) => {
            let ghost s_mid = v@.update(i as int, (v@[i as int].0, value));
            proof {
                lemma_attr_after_update(v@, i as int, value);
            }
            v.set(i, (key, value));
            proof {
                assert(forall|j: int|
                    0 <= j < v@.len() ==> s_mid[j].0@ == v@[j].0@ && s_mid[j].1@ == v@[j].1@);
                assert(attr_distinct(v@));
                assert forall|k2: Seq<u8>| #[trigger] attr_lookup(v@, k2) == attr_lookup(
                    s_mid,
                    k2,
                ) by {
                    lemma_attr_same_views(s_mid, v@, k2);
                }
                let lt = attr_order();
                assert forall|x: int, y: int| 0 <= x < y < v@.len() implies lt(v@[x].0, v@[y].0) by {
                    assert(lt(old(v)@[x].0, old(v)@[y].0));
                    assert(v@[x].0@ == old(v)@[x].0@);
                    assert(v@[y].0@ == old(v)@[y].0@);
                }
                assert(sorted_kv(v@, attr_order()));
            }
        }
        None => {
            let p = pos_attr(v, &key);
            proof {
                let lt = attr_order();
                assert forall|a: int| 0 <= a < p as int implies lt(v@[a].0, key) by {}
                assert forall|b: int| p as int <= b < v@.len() implies lt(key, v@[b].0) by {}
                lemma_attr_after_insert(v@, p as int, key, value);
                lemma_sorted_insert(v@, p as int, (key, value), attr_order());
                v@.insert_ensures(p as int, (key, value));
            }
            v.insert(p, (key, value));
        }
    }
}

/// Two attribute tables whose entries agree at the level of views answer
/// every lookup alike.
proof fn lemma_attr_same_views(s1: Seq<(Vec<u8>, Vec<u8>)>, s2: Seq<(Vec<u8>, Vec<u8>)>, k: Seq<u8>)
    requires
        s1.len() == s2.len(),
        forall|j: int| 0 <= j < s1.len() ==> s1[j].0@ == s2[j].0@ && s1[j].1@ == s2[j].1@,
    ensures
        attr_lookup(s1, k) == attr_lookup(s2, k),
    decreases s1.len(),
{
    if s1.len() > 0 {
        lemma_attr_same_views(s1.drop_last(), s2.drop_last(), k);
    }
}

/// The supply stored for `id` in a token table (zero when absent).
pub(crate) fn q_supply(tokens: &Vec<(Id, Token)>, id: &Id) -> (r: Amount)
    requires
        distinct_keys(tokens@),
    ensures
        r == (match al_lookup(tokens@, *id) {
            Some(t) => t.total_supply,
            None => 0,
        }),
{
    match find_id(tokens, *id) {
        Some(i) => {
            proof {
                lemma_lookup_at(tokens@, i as int);
            }
            tokens[i].1.total_supply
        }
        None => {
            proof {
                lemma_lookup_absent(tokens@, *id);
            }
            0
        }
    }
}

/// The `(id, owner)` balance read from a token table (zero when absent).
pub(crate) fn q_balance(tokens: &Vec<(Id, Token)>, owner: Owner, id: &Id) -> (r: Amount)
    requires
        distinct_keys(tokens@),
        forall|i: int|
            #![trigger tokens@[i]]
            0 <= i < tokens@.len() ==> distinct_keys(tokens@[i].1.owners@),
    ensures
        r == (match al_lookup(tokens@, *id) {
            Some(t) => tod_bal(t.owners@, owner),
            None => 0,
        }),
{
    match find_id(tokens, *id) {
        Some(i) => {
            proof {
                lemma_lookup_at(tokens@, i as int);
            }
            tod_get(&tokens[i].1.owners, owner)
        }
        None => {
            proof {
                lemma_lookup_absent(tokens@, *id);
            }
            0
        }
    }
}

/// The aggregate balance read from a general owner table (zero when absent).
pub(crate) fn q_agg(owners: &Vec<(Owner, GeneralOwnerData)>, owner: Owner) -> (r: Amount)
    requires
        distinct_keys(owners@),
    ensures
        r == agg_bal(owners@, owner),
{
    match find_actor(owners, owner) {
        Some(i) => {
            proof {
                lemma_lookup_at(owners@, i as int);
            }
            owners[i].1.balance
        }
        None => {
            proof {
                lemma_lookup_absent(owners@, owner);
            }
            0
        }
    }
}

/// The allowance answer over a token table and a general owner table: the
/// MAX sentinel for an operator-for-all, else the stored per-id allowance
/// when an id is given, else zero.
pub(crate) fn q_allowance(
    tokens: &Vec<(Id, Token)>,
    owners: &Vec<(Owner, GeneralOwnerData)>,
    owner: Owner,
    operator: Operator,
    id: Option<&Id>,
) -> (r: Amount)
    requires
        distinct_keys(tokens@),
        distinct_keys(owners@),
        forall|i: int|
            #![trigger tokens@[i]]
            0 <= i < tokens@.len() ==> distinct_keys(tokens@[i].1.owners@),
        forall|i: int, j: int|
            #![trigger tokens@[i].1.owners@[j]]
            0 <= i < tokens@.len() && 0 <= j < tokens@[i].1.owners@.len() ==> distinct_keys(
                tokens@[i].1.owners@[j].1.allowances@,
            ),
    ensures
        r == (if agg_ops(owners@, owner).contains(operator) {
            Amount::MAX
        } else {
            match id {
                Some(i) => match al_lookup(tokens@, *i) {
                    Some(t) => tod_allow(t.owners@, owner, operator),
                    None => 0,
                },
                None => 0,
            }
        }),
{
    let is_op: bool = match find_actor(owners, owner) {
        Some(i) => {
            proof {
                lemma_lookup_at(owners@, i as int);
            }
            contains_actor(&owners[i].1.operators, operator)
        }
        None => {
            proof {
                lemma_lookup_absent(owners@, owner);
            }
            false
        }
    };
    if is_op {
        return Amount::MAX;
    }
    match id {
        Some(unwrapped_id) => {
            match find_id(tokens, *unwrapped_id) {
                Some(i) => {
                    proof {
                        lemma_lookup_at(tokens@, i as int);
                    }
                    let t = &tokens[i].1;
                    match find_actor(&t.owners, owner) {
                        Some(j) => {
                            proof {
                                lemma_lookup_at(t.owners@, j as int);
                                assert(distinct_keys(
                                    tokens@[i as int].1.owners@[j as int].1.allowances@,
                                ));
                            }
                            let d = &t.owners[j].1;
                            match find_actor(&d.allowances, operator) {
                                Some(l) => {
                                    proof {
                                        lemma_lookup_at(d.allowances@, l as int);
                                    }
                                    d.allowances[l].1
                                }
                                None => {
                                    proof {
                                        lemma_lookup_absent(d.allowances@, operator);
                                    }
                                    0
                                }
                            }
                        }
                        None => {
                            proof {
                                lemma_lookup_absent(t.owners@, owner);
                            }
                            0
                        }
                    }
                }
                None => {
                    proof {
                        lemma_lookup_absent(tokens@, *unwrapped_id);
                    }
                    0
                }
            }
        }
        None => 0,
    }
}

/// The attribute stored for `key` under `id` in a token table; `UnknownId`
/// when the id has no entry.
pub(crate) fn q_attr<'a>(tokens: &'a Vec<(Id, Token)>, id: &Id, key: &Vec<u8>) -> (r: Result<
    Option<&'a Vec<u8>>,
    TokenError,
>)
    requires
        distinct_keys(tokens@),
        forall|i: int|
            #![trigger tokens@[i]]
            0 <= i < tokens@.len() ==> attr_distinct(tokens@[i].1.attributes@),
    ensures
        al_lookup(tokens@, *id) is None ==> r == Err::<Option<&'a Vec<u8>>, TokenError>(
            TokenError::UnknownId,
        ),
        al_lookup(tokens@, *id) matches Some(t) ==> (match r {
            Ok(opt) => match opt {
                Some(v) => attr_lookup(t.attributes@, key@) == Some(v@),
                None => attr_lookup(t.attributes@, key@) is None,
            },
            Err(_) => false,
        }),
{
    match find_id(tokens, *id) {
        None => {
            proof {
                lemma_lookup_absent(tokens@, *id);
            }
            Err(TokenError::UnknownId)
        }
        Some(i) => {
            proof {
                lemma_lookup_at(tokens@, i as int);
            }
            let t = &tokens[i].1;
            match find_bytes(&t.attributes, key) {
                Some(j) => {
                    proof {
                        lemma_attr_at(t.attributes@, j as int);
                    }
                    Ok(Some(&t.attributes[j].1))
                }
                None => {
                    proof {
                        lemma_attr_absent(t.attributes@, key@);
                    }
                    Ok(None)
                }
            }
        }
    }
}

} // verus!
