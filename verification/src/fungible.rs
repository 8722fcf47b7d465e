//! The single-balance fungible ledger: balances, allowances and supply,
//! with mint, burn, transfer and approve, plus the read-only query surface.

use vstd::prelude::*;
use vstd::pervasive::VecAdditionalExecFns;
use crate::account::ActorId;
use crate::assoc::{
    al_lookup, distinct_keys, sum_vals, find_actor, lemma_lookup_at, lemma_lookup_absent,
    lemma_lookup_after_update, lemma_lookup_after_push, lemma_sum_vals_nonneg,
    lemma_sum_vals_update, lemma_sum_vals_push,
};
use crate::errors::TokenError;

verus! {

/// The balance stored for `a`, an absent entry standing for zero.
pub open spec fn bal_or_zero(s: Seq<(ActorId, u128)>, a: ActorId) -> u128 {
    match al_lookup(s, a) {
        Some(v) => v,
        None => 0,
    }
}

/// The allowance stored for `(owner, spender)`, an absent row or entry
/// standing for zero.
pub open spec fn allow_or_zero(
    s: Seq<(ActorId, Vec<(ActorId, u128)>)>,
    owner: ActorId,
    spender: ActorId,
) -> u128 {
    match al_lookup(s, owner) {
        Some(inner) => bal_or_zero(inner@, spender),
        None => 0,
    }
}

/// A stored balance never exceeds the sum of all stored balances.
pub proof fn lemma_bal_le_sum(s: Seq<(ActorId, u128)>, a: ActorId)
    requires
        distinct_keys(s),
    ensures
        bal_or_zero(s, a) <= sum_vals(s),
    decreases s.len(),
{
    if s.len() == 0 {
        lemma_sum_vals_nonneg(s);
    } else if s.last().0 == a {
        lemma_sum_vals_nonneg(s.drop_last());
    } else {
        lemma_bal_le_sum(s.drop_last(), a);
    }
}

/// The reply confirming a completed mint, burn or transfer: `amount` moved
/// from `from` to `to`, the zero account standing for "none".
#[derive(Clone, Copy, PartialEq, Eq, Structural, Debug)]
pub struct FTTransfer {
    pub from: ActorId,
    pub to: ActorId,
    pub amount: u128,
}

/// The reply confirming that `from` approved `to` for exactly `amount`.
#[derive(Clone, Copy, PartialEq, Eq, Structural, Debug)]
pub struct FTApproval {
    pub from: ActorId,
    pub to: ActorId,
    pub amount: u128,
}

/// A read-only request over the fungible ledger.
#[derive(Clone, Copy, PartialEq, Eq, Structural, Debug)]
pub enum FTQuery {
    Name,
    Symbol,
    Decimals,
    TotalSupply,
    BalanceOf { account: ActorId },
}

/// The reply matching each [`FTQuery`] variant one to one.
#[derive(Clone, PartialEq, Eq, Debug)]
pub enum FTQueryReply {
    Name(String),
    Symbol(String),
    Decimals(u8),
    TotalSupply(u128),
    BalanceOf(u128),
}

/// The fungible ledger's whole state. Balances and allowances are sparse
/// tables: an absent entry stands for zero.
#[derive(Debug)]
pub struct FTState {
    pub name: String,
    pub symbol: String,
    pub total_supply: u128,
    pub decimals: u8,
    pub balances: Vec<(ActorId, u128)>,
    pub allowances: Vec<(ActorId, Vec<(ActorId, u128)>)>,
}

impl FTState {
    /// Well-formedness: tables have distinct keys and the stored balances
    /// sum exactly to the recorded total supply.
    pub open spec fn wf(self) -> bool {
        &&& distinct_keys(self.balances@)
        &&& distinct_keys(self.allowances@)
        &&& (forall|i: int|
            0 <= i < self.allowances@.len() ==> distinct_keys(#[trigger] self.allowances@[i].1@))
        &&& sum_vals(self.balances@) == self.total_supply
    }

    /// The balance of `a` (zero when absent).
    pub open spec fn spec_balance(self, a: ActorId) -> u128 {
        bal_or_zero(self.balances@, a)
    }

    /// The stored allowance of `(owner, spender)` (zero when absent).
    pub open spec fn spec_allowance(self, owner: ActorId, spender: ActorId) -> u128 {
        allow_or_zero(self.allowances@, owner, spender)
    }

    /// Direct authorization to move `amount` out of `from`: the caller is
    /// `from` itself, or `from` is the transaction's original signer (who
    /// may be distinct from the immediate caller in a multi-hop call
    /// chain), or — preserved observed behavior — the caller's *own*
    /// balance covers the amount.
    pub open spec fn spec_auth_direct(
        self,
        caller: ActorId,
        origin: ActorId,
        from: ActorId,
        amount: u128,
    ) -> bool {
        ||| caller == from
        ||| origin == from
        ||| self.spec_balance(caller) >= amount
    }

    /// The whole authorization check: direct, or covered by the stored
    /// allowance of `(from, caller)`.
    pub open spec fn spec_can_transfer(
        self,
        caller: ActorId,
        origin: ActorId,
        from: ActorId,
        amount: u128,
    ) -> bool {
        ||| self.spec_auth_direct(caller, origin, from, amount)
        ||| self.spec_allowance(from, caller) >= amount
    }

    /// An empty ledger: no holders, no allowances, zero supply.
    pub fn new() -> (r: FTState)
        ensures
            r.wf(),
            r.total_supply == 0,
            r.balances@ == Seq::<(ActorId, u128)>::empty(),
            r.allowances@ == Seq::<(ActorId, Vec<(ActorId, u128)>)>::empty(),
            r.name@ == Seq::<char>::empty(),
            r.symbol@ == Seq::<char>::empty(),
            r.decimals == 0,
    {
        FTState {
            name: String::new(),
            symbol: String::new(),
            total_supply: 0,
            decimals: 0,
            balances: Vec::new(),
            allowances: Vec::new(),
        }
    }

    /// The balance of `account`, zero for an account never credited.
    pub fn balance_of(&self, account: ActorId) -> (r: u128)
        requires
            self.wf(),
        ensures
            r == self.spec_balance(account),
    {
        match find_actor(&self.balances, account) {
            Some(i) => {
                proof {
                    lemma_lookup_at(self.balances@, i as int);
                }
                self.balances[i].1
            }
            None => {
                proof {
                    lemma_lookup_absent(self.balances@, account);
                }
                0
            }
        }
    }

    /// The stored allowance of `(owner, spender)`, zero when never approved.
    pub fn allowance_of(&self, owner: ActorId, spender: ActorId) -> (r: u128)
        requires
            self.wf(),
        ensures
            r == self.spec_allowance(owner, spender),
    {
        match find_actor(&self.allowances, owner) {
            Some(i) => {
                proof {
                    lemma_lookup_at(self.allowances@, i as int);
                }
                let inner = &self.allowances[i].1;
                match find_actor(inner, spender) {
                    Some(j) => {
                        proof {
                            lemma_lookup_at(inner@, j as int);
                        }
                        inner[j].1
                    }
                    None => {
                        proof {
                            lemma_lookup_absent(inner@, spender);
                        }
                        0
                    }
                }
            }
            None => {
                proof {
                    lemma_lookup_absent(self.allowances@, owner);
                }
                0
            }
        }
    }

    /// Mints `amount` to the caller: credits the caller's balance and the
    /// total supply by exactly `amount`, touching nothing else. No cap is
    /// enforced, deliberately.
    pub fn mint(&mut self, caller: ActorId, amount: u128) -> (r: FTTransfer)
        requires
            old(self).wf(),
            caller != ActorId::spec_zero(),
            old(self).total_supply + amount <= u128::MAX,
        ensures
            final(self).wf(),
            final(self).total_supply == old(self).total_supply + amount,
            final(self).spec_balance(caller) == old(self).spec_balance(caller) + amount,
            forall|a: ActorId|
                a != caller ==> #[trigger] final(self).spec_balance(a) == old(self).spec_balance(a),
            final(self).allowances == old(self).allowances,
            forall|o: ActorId, sp: ActorId|
                #[trigger] final(self).spec_allowance(o, sp) == old(self).spec_allowance(o, sp),
            final(self).name == old(self).name,
            final(self).symbol == old(self).symbol,
            final(self).decimals == old(self).decimals,
            r == (FTTransfer { from: ActorId::spec_zero(), to: caller, amount }),
    {
        proof {
            lemma_bal_le_sum(self.balances@, caller);
        }
        credit(&mut self.balances, caller, amount);
        self.total_supply = self.total_supply + amount;
        FTTransfer { from: ActorId::zero(), to: caller, amount }
    }

    /// Burns `amount` from the caller: fails with `InsufficientBalance`, and
    /// changes nothing, when the caller's balance is short; otherwise debits
    /// the caller and the total supply by exactly `amount`.
    pub fn burn(&mut self, caller: ActorId, amount: u128) -> (r: Result<
        FTTransfer,
        TokenError,
    >)
        requires
            old(self).wf(),
            caller != ActorId::spec_zero(),
        ensures
            old(self).spec_balance(caller) < amount ==> r == Err::<FTTransfer, TokenError>(
                TokenError::InsufficientBalance,
            ) && *final(self) == *old(self),
            old(self).spec_balance(caller) >= amount ==> {
                &&& r == Ok::<FTTransfer, TokenError>(
                    FTTransfer { from: caller, to: ActorId::spec_zero(), amount },
                )
                &&& final(self).wf()
                &&& final(self).total_supply == old(self).total_supply - amount
                &&& final(self).spec_balance(caller) == old(self).spec_balance(caller) - amount
                &&& forall|a: ActorId|
                    a != caller ==> #[trigger] final(self).spec_balance(a) == old(self).spec_balance(a)
                &&& final(self).allowances == old(self).allowances
                &&& forall|o: ActorId, sp: ActorId|
                    #[trigger] final(self).spec_allowance(o, sp) == old(self).spec_allowance(o, sp)
                &&& final(self).name == old(self).name
                &&& final(self).symbol == old(self).symbol
                &&& final(self).decimals == old(self).decimals
            },
    {
        let have: u128 = self.balance_of(caller);
        if have < amount {
            return Err(TokenError::InsufficientBalance);
        }
        proof {
            lemma_bal_le_sum(self.balances@, caller);
        }
        debit(&mut self.balances, caller, amount);
        self.total_supply = self.total_supply - amount;
        Ok(FTTransfer { from: caller, to: ActorId::zero(), amount })
    }

    /// Pure authorization check for moving `amount` out of `from`; reads the
    /// ledger and mutates nothing. Spending the authorizing allowance is a
    /// separate, explicit step inside [`Self::transfer`].
    pub fn can_transfer(
        &self,
        caller: ActorId,
        origin: ActorId,
        from: ActorId,
        amount: u128,
    ) -> (r: bool)
        requires
            self.wf(),
        ensures
            r == self.spec_can_transfer(caller, origin, from, amount),
    {
        if caller == from || origin == from || self.balance_of(caller) >= amount {
            return true;
        }
        self.allowance_of(from, caller) >= amount
    }

    /// Moves `amount` from `from` to `to`.
    ///
    /// Fails with `InvalidAddress` when either endpoint is the zero account,
    /// with `NotAuthorized` when the authorization check refuses the
    /// caller (neither a direct right nor a covering allowance),
    /// and with `InsufficientBalance` when `from`'s balance is short; a
    /// failure changes nothing. On success the two balances change by exactly
    /// `amount`, the total supply is unchanged, and — only when the caller
    /// was authorized by allowance rather than directly — the allowance of
    /// `(from, caller)` is debited by `amount`.
    pub fn transfer(
        &mut self,
        caller: ActorId,
        origin: ActorId,
        from: ActorId,
        to: ActorId,
        amount: u128,
    ) -> (r: Result<FTTransfer, TokenError>)
        requires
            old(self).wf(),
        ensures
            final(self).name == old(self).name,
            final(self).symbol == old(self).symbol,
            final(self).decimals == old(self).decimals,
            final(self).total_supply == old(self).total_supply,
            ({
                let s = *old(self);
                if from == ActorId::spec_zero() || to == ActorId::spec_zero() {
                    r == Err::<FTTransfer, TokenError>(TokenError::InvalidAddress) && *final(self)
                        == s
                } else if !s.spec_can_transfer(caller, origin, from, amount) {
                    r == Err::<FTTransfer, TokenError>(TokenError::NotAuthorized)
                        && *final(self) == s
                } else if s.spec_balance(from) < amount {
                    r == Err::<FTTransfer, TokenError>(TokenError::InsufficientBalance)
                        && *final(self) == s
                } else {
                    &&& r == Ok::<FTTransfer, TokenError>(FTTransfer { from, to, amount })
                    &&& final(self).wf()
                    &&& (from != to ==> final(self).spec_balance(from) == s.spec_balance(from)
                        - amount && final(self).spec_balance(to) == s.spec_balance(to) + amount)
                    &&& (from == to ==> final(self).spec_balance(from) == s.spec_balance(from))
                    &&& forall|a: ActorId|
                        a != from && a != to ==> #[trigger] final(self).spec_balance(a)
                            == s.spec_balance(a)
                    &&& (s.spec_auth_direct(caller, origin, from, amount) ==> final(self).allowances
                        == s.allowances && (forall|o: ActorId, sp: ActorId|
                        #[trigger] final(self).spec_allowance(o, sp) == s.spec_allowance(o, sp)))
                    &&& (!s.spec_auth_direct(caller, origin, from, amount) ==> {
                        &&& final(self).spec_allowance(from, caller) == s.spec_allowance(
                            from,
                            caller,
                        ) - amount
                        &&& forall|o: ActorId, sp: ActorId|
                            !(o == from && sp == caller)
                                ==> #[trigger] final(self).spec_allowance(o, sp)
                                == s.spec_allowance(o, sp)
                    })
                }
            }),
    {
        if from.is_zero() || to.is_zero() {
            return Err(TokenError::InvalidAddress);
        }
        let direct = caller == from || origin == from || self.balance_of(caller) >= amount;
        if !direct {
            if self.allowance_of(from, caller) < amount {
                return Err(TokenError::NotAuthorized);
            }
        }
        if self.balance_of(from) < amount {
            return Err(TokenError::InsufficientBalance);
        }
        debit(&mut self.balances, from, amount);
        proof {
            lemma_bal_le_sum(self.balances@, to);
        }
        credit(&mut self.balances, to, amount);
        if !direct {
            let cur: u128 = self.allowance_of(from, caller);
            set_allowance(&mut self.allowances, from, caller, cur - amount);
        }
        Ok(FTTransfer { from, to, amount })
    }

    /// Overwrites — never adds to — the stored allowance of
    /// `(caller, spender)` with `amount`; fails with `InvalidAddress`, and
    /// changes nothing, when `spender` is the zero account.
    pub fn approve(&mut self, caller: ActorId, spender: ActorId, amount: u128) -> (r: Result<
        FTApproval,
        TokenError,
    >)
        requires
            old(self).wf(),
            caller != ActorId::spec_zero(),
        ensures
            spender == ActorId::spec_zero() ==> r == Err::<FTApproval, TokenError>(
                TokenError::InvalidAddress,
            ) && *final(self) == *old(self),
            spender != ActorId::spec_zero() ==> {
                &&& r == Ok::<FTApproval, TokenError>(
                    FTApproval { from: caller, to: spender, amount },
                )
                &&& final(self).wf()
                &&& final(self).spec_allowance(caller, spender) == amount
                &&& forall|o: ActorId, sp: ActorId|
                    !(o == caller && sp == spender) ==> #[trigger] final(self).spec_allowance(o, sp)
                        == old(self).spec_allowance(o, sp)
                &&& final(self).balances == old(self).balances
                &&& forall|x: ActorId|
                    #[trigger] final(self).spec_balance(x) == old(self).spec_balance(x)
                &&& final(self).total_supply == old(self).total_supply
                &&& final(self).name == old(self).name
                &&& final(self).symbol == old(self).symbol
                &&& final(self).decimals == old(self).decimals
            },
    {
        if spender.is_zero() {
            return Err(TokenError::InvalidAddress);
        }
        set_allowance(&mut self.allowances, caller, spender, amount);
        Ok(FTApproval { from: caller, to: spender, amount })
    }

    /// Answers a read-only query with the matching reply variant; never
    /// mutates the ledger.
    pub fn proc_state(&self, query: FTQuery) -> (r: Option<FTQueryReply>)
        requires
            self.wf(),
        ensures
            r == Some(
                match query {
                    FTQuery::Name => FTQueryReply::Name(self.name),
                    FTQuery::Symbol => FTQueryReply::Symbol(self.symbol),
                    FTQuery::Decimals => FTQueryReply::Decimals(self.decimals),
                    FTQuery::TotalSupply => FTQueryReply::TotalSupply(self.total_supply),
                    FTQuery::BalanceOf { account } => FTQueryReply::BalanceOf(
                        self.spec_balance(account),
                    ),
                },
            ),
    {
        let reply = match query {
            FTQuery::Name => FTQueryReply::Name(self.name.clone()),
            FTQuery::Symbol => FTQueryReply::Symbol(self.symbol.clone()),
            FTQuery::Decimals => FTQueryReply::Decimals(self.decimals),
            FTQuery::TotalSupply => FTQueryReply::TotalSupply(self.total_supply),
            FTQuery::BalanceOf { account } => FTQueryReply::BalanceOf(self.balance_of(account)),
        };
        Some(reply)
    }
}

impl Default for FTState {
    /// The empty ledger, as [`FTState::new`] builds it.
    fn default() -> (r: FTState)
        ensures
            r.wf(),
            r.total_supply == 0,
            r.balances@ == Seq::<(ActorId, u128)>::empty(),
            r.allowances@ == Seq::<(ActorId, Vec<(ActorId, u128)>)>::empty(),
            r.name@ == Seq::<char>::empty(),
            r.symbol@ == Seq::<char>::empty(),
            r.decimals == 0,
    {
        FTState::new()
    }
}

/// Adds `amount` to the balance stored for `k`, creating the entry if absent.
fn credit(v: &mut Vec<(ActorId, u128)>, k: ActorId, amount: u128)
    requires
        distinct_keys(old(v)@),
        bal_or_zero(old(v)@, k) + amount <= u128::MAX,
    ensures
        distinct_keys(final(v)@),
        sum_vals(final(v)@) == sum_vals(old(v)@) + amount,
        forall|a: ActorId|
            #[trigger] bal_or_zero(final(v)@, a) == (if a == k {
                (bal_or_zero(old(v)@, k) + amount) as u128
            } else {
                bal_or_zero(old(v)@, a)
            }),
{
    match find_actor(v, k) {
        Some(i) => {
            proof {
                lemma_lookup_at(v@, i as int);
                lemma_lookup_after_update(v@, i as int, (v@[i as int].1 + amount) as u128);
                lemma_sum_vals_update(v@, i as int, (v@[i as int].1 + amount) as u128);
            }
            let cur: u128 = v[i].1;
            v.set(i, (k, cur + amount));
        }
        None => {
            proof {
                lemma_lookup_absent(v@, k);
                lemma_lookup_after_push(v@, k, amount);
                lemma_sum_vals_push(v@, (k, amount));
            }
            v.push((k, amount));
        }
    }
}

/// Subtracts `amount` from the balance stored for `k`; the balance covers it.
fn debit(v: &mut Vec<(ActorId, u128)>, k: ActorId, amount: u128)
    requires
        distinct_keys(old(v)@),
        bal_or_zero(old(v)@, k) >= amount,
    ensures
        distinct_keys(final(v)@),
        sum_vals(final(v)@) == sum_vals(old(v)@) - amount,
        forall|a: ActorId|
            #[trigger] bal_or_zero(final(v)@, a) == (if a == k {
                (bal_or_zero(old(v)@, k) - amount) as u128
            } else {
                bal_or_zero(old(v)@, a)
            }),
{
    match find_actor(v, k) {
        Some(i) => {
            proof {
                lemma_lookup_at(v@, i as int);
                lemma_lookup_after_update(v@, i as int, (v@[i as int].1 - amount) as u128);
                lemma_sum_vals_update(v@, i as int, (v@[i as int].1 - amount) as u128);
            }
            let cur: u128 = v[i].1;
            v.set(i, (k, cur - amount));
        }
        None => {
            proof {
                lemma_lookup_absent(v@, k);
            }
            // The stored balance is zero, so `amount` is zero and there is
            // nothing to debit.
        }
    }
}

/// Overwrites the allowance stored for `(owner, spender)` with `amount`,
/// creating the rows if absent.
fn set_allowance(
    v: &mut Vec<(ActorId, Vec<(ActorId, u128)>)>,
    owner: ActorId,
    spender: ActorId,
    amount: u128,
)
    requires
        distinct_keys(old(v)@),
        forall|i: int| 0 <= i < old(v)@.len() ==> distinct_keys(#[trigger] old(v)@[i].1@),
    ensures
        distinct_keys(final(v)@),
        forall|i: int| 0 <= i < final(v)@.len() ==> distinct_keys(#[trigger] final(v)@[i].1@),
        allow_or_zero(final(v)@, owner, spender) == amount,
        forall|o: ActorId, sp: ActorId|
            !(o == owner && sp == spender) ==> #[trigger] allow_or_zero(final(v)@, o, sp)
                == allow_or_zero(old(v)@, o, sp),
{
    match find_actor(v, owner) {
        Some(i) => {
            proof {
                lemma_lookup_at(v@, i as int);
            }
            let row = v.remove(i);
            let mut inner = row.1;
            proof {
                assert(old(v)@[i as int].1 == inner);
            }
            match find_actor(&inner, spender) {
                Some(j) => {
                    proof {
                        lemma_lookup_at(inner@, j as int);
                        lemma_lookup_after_update(inner@, j as int, amount);
                    }
                    inner.set(j, (spender, amount));
                }
                None => {
                    proof {
                        lemma_lookup_absent(inner@, spender);
                        lemma_lookup_after_push(inner@, spender, amount);
                    }
                    inner.push((spender, amount));
                }
            }
            v.insert(i, (owner, inner));
            proof {
                assert(v@ =~= old(v)@.update(i as int, (owner, inner)));
                lemma_lookup_after_update(old(v)@, i as int, inner);
            }
        }
        None => {
            proof {
                lemma_lookup_absent(v@, owner);
            }
            let mut inner: Vec<(ActorId, u128)> = Vec::new();
            proof {
                lemma_lookup_after_push(inner@, spender, amount);
            }
            inner.push((spender, amount));
            proof {
                lemma_lookup_after_push(old(v)@, owner, inner);
            }
            v.push((owner, inner));
        }
    }
}

} // verus!
