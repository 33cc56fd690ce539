//! The engine's top-level state: keyed repositories for pool state,
//! ledgers, analytics and user order indexes, plus the global
//! configuration constants and the operator allow-list.
//!
//! [`TWAMMState`] is the executable representation; its abstract view is a
//! [`StateView`], a record of mathematical maps that every contract is
//! stated over.

use vstd::prelude::*;
use crate::errors::TWAMMError;
use crate::keymap::KeyMap;
use crate::types::{Order, PoolAnalytics, PoolState, orders_wf};

verus! {

/// The storage key of the (user, pool) order index.  `u128` has room for
/// both halves, so the packing is injective.
pub open spec fn user_pool_key(user: u64, pool_id: u64) -> u128 {
    ((user as u128) * 0x1_0000_0000_0000_0000 + (pool_id as u128)) as u128
}

/// Distinct (user, pool) pairs occupy distinct storage slots.
pub proof fn lemma_user_pool_key_injective(u1: u64, p1: u64, u2: u64, p2: u64)
    requires
        user_pool_key(u1, p1) == user_pool_key(u2, p2),
    ensures
        u1 == u2,
        p1 == p2,
{
}

/// Pack a (user, pool) pair into its storage key.
pub fn make_user_pool_key(user: u64, pool_id: u64) -> (k: u128)
    ensures
        k == user_pool_key(user, pool_id),
{
    (user as u128) * 0x1_0000_0000_0000_0000 + (pool_id as u128)
}

/// Reindex a storage-keyed map by the `u64` identifier it is keyed with.
pub open spec fn cast_view<T>(m: Map<u128, T>) -> Map<u64, T> {
    Map::new(|k: u64| m.contains_key(k as u128), |k: u64| m[k as u128])
}

pub proof fn lemma_cast_view_insert<T>(m: Map<u128, T>, k: u64, v: T)
    ensures
        cast_view(m.insert(k as u128, v)) == cast_view(m).insert(k, v),
{
    assert(cast_view(m.insert(k as u128, v)) =~= cast_view(m).insert(k, v));
}

/// Reindex the per-pool ledgers, abstracting each to a sequence.
pub open spec fn orders_view(m: Map<u128, Vec<Order>>) -> Map<u64, Seq<Order>> {
    Map::new(|k: u64| m.contains_key(k as u128), |k: u64| m[k as u128]@)
}

pub proof fn lemma_orders_view_insert(m: Map<u128, Vec<Order>>, k: u64, v: Vec<Order>)
    ensures
        orders_view(m.insert(k as u128, v)) == orders_view(m).insert(k, v@),
{
    assert(orders_view(m.insert(k as u128, v)) =~= orders_view(m).insert(k, v@));
}

/// Abstract the per-(user, pool) identifier lists to sequences.
pub open spec fn ids_view(m: Map<u128, Vec<u64>>) -> Map<u128, Seq<u64>> {
    Map::new(|k: u128| m.contains_key(k), |k: u128| m[k]@)
}

pub proof fn lemma_ids_view_insert(m: Map<u128, Vec<u64>>, k: u128, v: Vec<u64>)
    ensures
        ids_view(m.insert(k, v)) == ids_view(m).insert(k, v@),
{
    assert(ids_view(m.insert(k, v)) =~= ids_view(m).insert(k, v@));
}

/// The mathematical image of a [`TWAMMState`]: what every contract in the
/// engine is stated over.
#[verifier::ext_equal]
pub struct StateView {
    pub operators: Map<u64, bool>,
    pub pools: Map<u64, PoolState>,
    pub orders: Map<u64, Seq<Order>>,
    pub analytics: Map<u64, PoolAnalytics>,
    /// Keyed by [`user_pool_key`].
    pub user_orders: Map<u128, Seq<u64>>,
    pub min_duration: u64,
    pub max_duration: u64,
    pub execution_interval: u64,
    pub protocol_fee_bps: u128,
    pub bps_denominator: u128,
    pub min_order_amount: u128,
    pub max_orders_per_user: u64,
    pub max_slippage_bps: u128,
}

impl StateView {
    /// A pool's aggregate state; an unseen pool reads as all zero.
    pub open spec fn pool_of(self, pool_id: u64) -> PoolState {
        if self.pools.contains_key(pool_id) {
            self.pools[pool_id]
        } else {
            PoolState::spec_default()
        }
    }

    /// A pool's ledger, in creation order; an unseen pool reads as empty.
    pub open spec fn orders_of(self, pool_id: u64) -> Seq<Order> {
        if self.orders.contains_key(pool_id) {
            self.orders[pool_id]
        } else {
            Seq::empty()
        }
    }

    /// A pool's analytics record; an unseen pool reads as all zero.
    pub open spec fn analytics_of(self, pool_id: u64) -> PoolAnalytics {
        if self.analytics.contains_key(pool_id) {
            self.analytics[pool_id]
        } else {
            PoolAnalytics::spec_default()
        }
    }

    /// The identifiers of the orders a user holds in a pool.
    pub open spec fn user_orders_of(self, user: u64, pool_id: u64) -> Seq<u64> {
        let k = user_pool_key(user, pool_id);
        if self.user_orders.contains_key(k) {
            self.user_orders[k]
        } else {
            Seq::empty()
        }
    }

    /// Whether an address is on the operator allow-list.
    pub open spec fn is_authorized(self, operator: u64) -> bool {
        self.operators.contains_key(operator) && self.operators[operator]
    }
}

/// Global engine state.  Each entity is owned exclusively by its keyed
/// storage slot; every operation reads a slot, produces a new value and
/// writes it back.
pub struct TWAMMState {
    pub authorized_operators: KeyMap<bool>,
    pub pool_states: KeyMap<PoolState>,
    pub orders: KeyMap<Vec<Order>>,
    pub pool_analytics: KeyMap<PoolAnalytics>,
    /// Keyed by [`user_pool_key`].
    pub user_order_indexes: KeyMap<Vec<u64>>,
    pub min_duration: u64,
    pub max_duration: u64,
    pub execution_interval: u64,
    pub protocol_fee_bps: u128,
    pub bps_denominator: u128,
    pub min_order_amount: u128,
    pub max_orders_per_user: u64,
    pub max_slippage_bps: u128,
}

impl View for TWAMMState {
    type V = StateView;

    open spec fn view(&self) -> StateView {
        StateView {
            operators: cast_view(self.authorized_operators@),
            pools: cast_view(self.pool_states@),
            orders: orders_view(self.orders@),
            analytics: cast_view(self.pool_analytics@),
            user_orders: ids_view(self.user_order_indexes@),
            min_duration: self.min_duration,
            max_duration: self.max_duration,
            execution_interval: self.execution_interval,
            protocol_fee_bps: self.protocol_fee_bps,
            bps_denominator: self.bps_denominator,
            min_order_amount: self.min_order_amount,
            max_orders_per_user: self.max_orders_per_user,
            max_slippage_bps: self.max_slippage_bps,
        }
    }
}

impl TWAMMState {
    /// The state invariant: every repository is well formed and every
    /// order in every ledger satisfies the order invariant.
    pub open spec fn inv(self) -> bool {
        &&& self.authorized_operators.wf()
        &&& self.pool_states.wf()
        &&& self.orders.wf()
        &&& self.pool_analytics.wf()
        &&& self.user_order_indexes.wf()
        &&& forall|k: u128| #[trigger] self.orders@.contains_key(k) ==> orders_wf(self.orders@[k]@)
    }

    /// Fresh state: empty repositories, zero configuration.
    pub fn new() -> (r: Self)
        ensures
            r.inv(),
            r@.operators == Map::<u64, bool>::empty(),
            r@.pools == Map::<u64, PoolState>::empty(),
            r@.orders == Map::<u64, Seq<Order>>::empty(),
            r@.analytics == Map::<u64, PoolAnalytics>::empty(),
            r@.user_orders == Map::<u128, Seq<u64>>::empty(),
            r@.min_duration == 0,
            r@.max_duration == 0,
            r@.execution_interval == 0,
            r@.protocol_fee_bps == 0,
            r@.bps_denominator == 0,
            r@.min_order_amount == 0,
            r@.max_orders_per_user == 0,
            r@.max_slippage_bps == 0,
    {
        let r = TWAMMState {
            authorized_operators: KeyMap::new(),
            pool_states: KeyMap::new(),
            orders: KeyMap::new(),
            pool_analytics: KeyMap::new(),
            user_order_indexes: KeyMap::new(),
            min_duration: 0,
            max_duration: 0,
            execution_interval: 0,
            protocol_fee_bps: 0,
            bps_denominator: 0,
            min_order_amount: 0,
            max_orders_per_user: 0,
            max_slippage_bps: 0,
        };
        proof {
            assert(r@.operators =~= Map::<u64, bool>::empty());
            assert(r@.pools =~= Map::<u64, PoolState>::empty());
            assert(r@.orders =~= Map::<u64, Seq<Order>>::empty());
            assert(r@.analytics =~= Map::<u64, PoolAnalytics>::empty());
            assert(r@.user_orders =~= Map::<u128, Seq<u64>>::empty());
        }
        r
    }

    /// Set the default configuration constants and allow-list the
    /// deployer as the initial authorized operator.
    pub fn initialize(&mut self, deployer: u64)
        requires
            old(self).inv(),
        ensures
            final(self).inv(),
            final(self)@ == (StateView {
                operators: old(self)@.operators.insert(deployer, true),
                min_duration: 600,
                max_duration: 2592000,
                execution_interval: 300,
                protocol_fee_bps: 10,
                bps_denominator: 10000,
                min_order_amount: 10000000000000000,
                max_orders_per_user: 10,
                max_slippage_bps: 500,
                ..old(self)@
            }),
    {
        self.min_duration = 600; // 10 minutes
        self.max_duration = 2592000; // 30 days
        self.execution_interval = 300; // 5 minutes
        self.protocol_fee_bps = 10; // 0.1%
        self.bps_denominator = 10000;
        self.min_order_amount = 10000000000000000; // 0.01 of an 18-decimal token
        self.max_orders_per_user = 10;
        self.max_slippage_bps = 500; // 5%
        self.authorized_operators.set(deployer as u128, true);
        proof {
            lemma_cast_view_insert(old(self).authorized_operators@, deployer, true);
            assert(self@ =~~= (StateView {
                operators: old(self)@.operators.insert(deployer, true),
                min_duration: 600,
                max_duration: 2592000,
                execution_interval: 300,
                protocol_fee_bps: 10,
                bps_denominator: 10000,
                min_order_amount: 10000000000000000,
                max_orders_per_user: 10,
                max_slippage_bps: 500,
                ..old(self)@
            }));
        }
    }

    /// Whether an address is on the operator allow-list.
    pub fn is_authorized(&self, operator: u64) -> (r: bool)
        requires
            self.inv(),
        ensures
            r == self@.is_authorized(operator),
    {
        match self.authorized_operators.get(operator as u128) {
            Some(b) => *b,
            None => false,
        }
    }

    /// Allow-list an operator.  Only an authorized caller may do so.
    pub fn add_authorized_operator(&mut self, sender: u64, operator: u64) -> (r: Result<
        (),
        TWAMMError,
    >)
        requires
            old(self).inv(),
        ensures
            final(self).inv(),
            !old(self)@.is_authorized(sender) ==> r == Err::<(), TWAMMError>(
                TWAMMError::Unauthorized,
            ) && *final(self) == *old(self),
            old(self)@.is_authorized(sender) ==> r == Ok::<(), TWAMMError>(()) && final(self)@
                == (StateView {
                operators: old(self)@.operators.insert(operator, true),
                ..old(self)@
            }),
    {
        if !self.is_authorized(sender) {
            return Err(TWAMMError::Unauthorized);
        }
        self.authorized_operators.set(operator as u128, true);
        proof {
            lemma_cast_view_insert(old(self).authorized_operators@, operator, true);
            assert(self@ =~~= (StateView {
                operators: old(self)@.operators.insert(operator, true),
                ..old(self)@
            }));
        }
        Ok(())
    }

    /// Drop an operator from the allow-list.  Only an authorized caller
    /// may do so.
    pub fn remove_authorized_operator(&mut self, sender: u64, operator: u64) -> (r: Result<
        (),
        TWAMMError,
    >)
        requires
            old(self).inv(),
        ensures
            final(self).inv(),
            !old(self)@.is_authorized(sender) ==> r == Err::<(), TWAMMError>(
                TWAMMError::Unauthorized,
            ) && *final(self) == *old(self),
            old(self)@.is_authorized(sender) ==> r == Ok::<(), TWAMMError>(()) && final(self)@
                == (StateView {
                operators: old(self)@.operators.insert(operator, false),
                ..old(self)@
            }),
    {
        if !self.is_authorized(sender) {
            return Err(TWAMMError::Unauthorized);
        }
        self.authorized_operators.set(operator as u128, false);
        proof {
            lemma_cast_view_insert(old(self).authorized_operators@, operator, false);
            assert(self@ =~~= (StateView {
                operators: old(self)@.operators.insert(operator, false),
                ..old(self)@
            }));
        }
        Ok(())
    }

    /// Read a pool's aggregate state; an unseen pool reads as all zero.
    pub fn get_pool_state(&self, pool_id: u64) -> (r: PoolState)
        requires
            self.inv(),
        ensures
            r == self@.pool_of(pool_id),
    {
        match self.pool_states.get(pool_id as u128) {
            Some(p) => *p,
            None => PoolState::default(),
        }
    }

    /// Read an order by pool and identifier.
    pub fn get_order(&self, pool_id: u64, order_id: u64) -> (r: Result<Order, TWAMMError>)
        requires
            self.inv(),
        ensures
            order_id < self@.orders_of(pool_id).len() ==> r == Ok::<Order, TWAMMError>(
                self@.orders_of(pool_id)[order_id as int],
            ),
            order_id >= self@.orders_of(pool_id).len() ==> r == Err::<Order, TWAMMError>(
                TWAMMError::InvalidOrder,
            ),
    {
        match self.orders.get(pool_id as u128) {
            None => Err(TWAMMError::InvalidOrder),
            Some(os) => {
                if order_id < os.len() as u64 {
                    Ok(os[order_id as usize])
                } else {
                    Err(TWAMMError::InvalidOrder)
                }
            },
        }
    }

    /// Read a pool's analytics record; an unseen pool reads as all zero.
    pub fn get_pool_analytics(&self, pool_id: u64) -> (r: PoolAnalytics)
        requires
            self.inv(),
        ensures
            r == self@.analytics_of(pool_id),
    {
        match self.pool_analytics.get(pool_id as u128) {
            Some(a) => *a,
            None => PoolAnalytics::default(),
        }
    }
}

} // verus!
