//! The encodable multi token state: a detached, order-stable projection of
//! the live hierarchical ledger into plain pair tables, suitable for
//! serialization, external queries and equality comparison.
//!
//! The projection imposes a canonical, content-determined order — every
//! table stands in strictly ascending key order, never in an incidental
//! iteration order — so converting logically equal ledgers yields
//! structurally equal snapshots. Every query is proved to answer exactly as
//! the live ledger would have at the moment of conversion.

use vstd::prelude::*;
use crate::account::ActorId;
use crate::assoc::{al_lookup, distinct_keys, attr_lookup, attr_distinct};
use crate::errors::TokenError;
use crate::multi;
use crate::multi::{
    Amount, Id, Owner, Operator, Token, GeneralOwnerData, tod_bal, tod_allow, agg_ops, agg_bal,
    q_supply, q_balance, q_agg, q_allowance, q_attr, id_order, actor_order, attr_order,
    sorted_actors,
};
use crate::assoc::sorted_kv;

verus! {

/// The encodable multi token state.
#[derive(Debug, Clone, PartialEq, Eq)]
pub struct MTState {
    pub tokens: Vec<(Id, Token)>,
    pub owners: Vec<(Owner, GeneralOwnerData)>,
    pub total_supply: Amount,
}

/// The snapshot a live ledger projects to: the same tables, detached.
pub open spec fn spec_from(state: multi::MTState) -> MTState {
    MTState { tokens: state.tokens, owners: state.owners, total_supply: state.total_supply }
}

impl MTState {
    /// The canonical, content-determined layout: every table of the
    /// snapshot — token ids, owners, each token's per-owner rows, each
    /// row's allowances, each owner's operators, and each token's attribute
    /// keys — stands in strictly ascending key order. Two logically equal
    /// ledgers therefore convert to structurally equal snapshots.
    pub open spec fn canonical(self) -> bool {
        &&& sorted_kv(self.tokens@, id_order())
        &&& sorted_kv(self.owners@, actor_order())
        &&& (forall|i: int|
            #![trigger self.tokens@[i]]
            0 <= i < self.tokens@.len() ==> {
                &&& sorted_kv(self.tokens@[i].1.owners@, actor_order())
                &&& sorted_kv(self.tokens@[i].1.attributes@, attr_order())
            })
        &&& (forall|i: int, j: int|
            #![trigger self.tokens@[i].1.owners@[j]]
            0 <= i < self.tokens@.len() && 0 <= j < self.tokens@[i].1.owners@.len()
                ==> sorted_kv(self.tokens@[i].1.owners@[j].1.allowances@, actor_order()))
        &&& (forall|i: int|
            #![trigger self.owners@[i]]
            0 <= i < self.owners@.len() ==> sorted_actors(self.owners@[i].1.operators@))
    }

    /// Well-formedness: every table of the snapshot has distinct keys.
    pub open spec fn wf(self) -> bool {
        &&& distinct_keys(self.tokens@)
        &&& distinct_keys(self.owners@)
        &&& (forall|i: int|
            #![trigger self.tokens@[i]]
            0 <= i < self.tokens@.len() ==> {
                &&& distinct_keys(self.tokens@[i].1.owners@)
                &&& attr_distinct(self.tokens@[i].1.attributes@)
            })
        &&& (forall|i: int, j: int|
            #![trigger self.tokens@[i].1.owners@[j]]
            0 <= i < self.tokens@.len() && 0 <= j < self.tokens@[i].1.owners@.len()
                ==> distinct_keys(self.tokens@[i].1.owners@[j].1.allowances@))
    }

    /// What `total_supply` answers.
    pub open spec fn spec_total_supply(self, id: Option<Id>) -> Amount {
        match id {
            Some(i) => match al_lookup(self.tokens@, i) {
                Some(t) => t.total_supply,
                None => 0,
            },
            None => self.total_supply,
        }
    }

    /// What `balance_of` answers.
    pub open spec fn spec_balance_of(self, owner: Owner, id: Option<Id>) -> Amount {
        match id {
            Some(i) => match al_lookup(self.tokens@, i) {
                Some(t) => tod_bal(t.owners@, owner),
                None => 0,
            },
            None => agg_bal(self.owners@, owner),
        }
    }

    /// What `allowance` answers: the MAX sentinel for an operator-for-all,
    /// else the stored per-id allowance when an id is given, else zero.
    pub open spec fn spec_allowance(self, owner: Owner, operator: Operator, id: Option<Id>) -> Amount {
        if agg_ops(self.owners@, owner).contains(operator) {
            Amount::MAX
        } else {
            match id {
                Some(i) => match al_lookup(self.tokens@, i) {
                    Some(t) => tod_allow(t.owners@, owner, operator),
                    None => 0,
                },
                None => 0,
            }
        }
    }

    /// The attribute stored for `key` under `id`, as byte sequences.
    pub open spec fn spec_attr(self, id: Id, key: Seq<u8>) -> Option<Seq<u8>> {
        match al_lookup(self.tokens@, id) {
            Some(t) => attr_lookup(t.attributes@, key),
            None => None,
        }
    }

    /// Gets the current total token supply: with an id, that id's supply
    /// (zero for an unknown id); with no id, the supply of all tokens.
    pub fn total_supply(&self, id: Option<&Id>) -> (r: Amount)
        requires
            self.wf(),
        ensures
            r == self.spec_total_supply(
                match id {
                    Some(i) => Some(*i),
                    None => None,
                },
            ),
    {
        match id {
            Some(unwrapped_id) => q_supply(&self.tokens, unwrapped_id),
            None => self.total_supply,
        }
    }

    /// Returns a balance of `owner`'s tokens: with an id, the stored
    /// `(id, owner)` balance; with no id, the owner's aggregate balance.
    pub fn balance_of(&self, owner: Owner, id: Option<&Id>) -> (r: Amount)
        requires
            self.wf(),
        ensures
            r == self.spec_balance_of(
                owner,
                match id {
                    Some(i) => Some(*i),
                    None => None,
                },
            ),
    {
        match id {
            Some(unwrapped_id) => q_balance(&self.tokens, owner, unwrapped_id),
            None => q_agg(&self.owners, owner),
        }
    }

    /// Returns an allowance of `owner`'s tokens for `operator`: the MAX
    /// sentinel when `operator` is allowed for all of `owner`'s tokens,
    /// else the approved amount for the given id (zero when none), else
    /// zero when no id is given.
    pub fn allowance(&self, owner: Owner, operator: Operator, id: Option<&Id>) -> (r: Amount)
        requires
            self.wf(),
        ensures
            r == self.spec_allowance(
                owner,
                operator,
                match id {
                    Some(i) => Some(*i),
                    None => None,
                },
            ),
    {
        q_allowance(&self.tokens, &self.owners, owner, operator, id)
    }

    /// Gets the attribute with `key` for the tokens with `id`; `None` when
    /// the attribute is unset, `UnknownId` when the id has no entry.
    pub fn get_attribute(&self, id: &Id, key: &Vec<u8>) -> (r: Result<Option<&Vec<u8>>, TokenError>)
        requires
            self.wf(),
        ensures
            al_lookup(self.tokens@, *id) is None ==> r == Err::<Option<&Vec<u8>>, TokenError>(
                TokenError::UnknownId,
            ),
            al_lookup(self.tokens@, *id) is Some ==> (match r {
                Ok(opt) => match opt {
                    Some(v) => self.spec_attr(*id, key@) == Some(v@),
                    None => self.spec_attr(*id, key@) is None,
                },
                Err(_) => false,
            }),
    {
        q_attr(&self.tokens, id, key)
    }
}

impl From<multi::MTState> for MTState {
    /// Projects the live hierarchical ledger into its detached snapshot.
    /// The ledger maintains every table in strictly ascending key order, so
    /// the projection — which adds, drops and reorders nothing — hands out
    /// the canonical form directly.
    fn from(state: multi::MTState) -> (r: MTState) {
        MTState { tokens: state.tokens, owners: state.owners, total_supply: state.total_supply }
    }
}

impl vstd::std_specs::convert::FromSpecImpl<multi::MTState> for MTState {
    open spec fn obeys_from_spec() -> bool {
        true
    }

    open spec fn from_spec(state: multi::MTState) -> MTState {
        spec_from(state)
    }
}

/// Round trip of the queryable state through the encodable snapshot:
/// converting a live ledger yields a canonical (ascending-key) snapshot,
/// and asking it for `total_supply`, `balance_of`, `allowance` or
/// `get_attribute` answers exactly as the live ledger did at the moment of
/// conversion, for every owner, operator, id and attribute key.
pub proof fn lemma_snapshot_queries_agree(
    live: multi::MTState,
    snap: MTState,
    owner: Owner,
    operator: Operator,
    id: Id,
    key: Seq<u8>,
)
    requires
        live.wf(),
        snap == spec_from(live),
    ensures
        snap.wf(),
        snap.canonical(),
        snap.spec_total_supply(None) == live.total_supply,
        snap.spec_total_supply(Some(id)) == live.spec_supply_of(id),
        snap.spec_balance_of(owner, Some(id)) == live.spec_balance(owner, id),
        snap.spec_balance_of(owner, None) == live.spec_agg_balance(owner),
        snap.spec_allowance(owner, operator, Some(id)) == live.spec_allowance(
            owner,
            operator,
            Some(id),
        ),
        snap.spec_allowance(owner, operator, None) == live.spec_allowance(owner, operator, None),
        al_lookup(snap.tokens@, id) == live.spec_token(id),
        snap.spec_attr(id, key) == live.spec_attr(id, key),
{
}

} // verus!
