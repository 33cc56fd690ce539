//! The order lifecycle: create, cancel and claim.
//!
//! Cancel and claim force a settlement pass first, so both observe an
//! up-to-date ledger.  Because the settlement pass commits before the
//! lifecycle step runs, each spec transition here returns the resulting
//! state together with the outcome: an error raised before settlement
//! leaves the state untouched, one raised after leaves exactly the
//! settled state.

use vstd::prelude::*;
use crate::errors::TWAMMError;
use crate::hooks::{compute_rates, spec_execute, spec_update_rates, lemma_execute_frame};
use crate::state::{
    StateView, TWAMMState, lemma_cast_view_insert, lemma_ids_view_insert, lemma_orders_view_insert,
    make_user_pool_key, user_pool_key,
};
use crate::types::{Order, PoolAnalytics, PoolState};
use crate::utils::{safe_add, safe_div, safe_mul, safe_sub};

verus! {

/// The analytics bookkeeping of one order creation: volume on the input
/// side grows by the committed amount, and the running averages of order
/// size and duration are recomputed over the `n_created` orders the pool
/// has now seen.
pub open spec fn spec_update_analytics(
    a: PoolAnalytics,
    n_created: u128,
    amount_total: u128,
    duration: u64,
    zero_for_one: bool,
    now: u64,
) -> Result<PoolAnalytics, TWAMMError> {
    let vol0 = if zero_for_one {
        a.total_volume_token0 + amount_total
    } else {
        a.total_volume_token0 as int
    };
    if vol0 > u128::MAX {
        Err(TWAMMError::SafeMathError)
    } else {
        let vol1 = if !zero_for_one {
            a.total_volume_token1 + amount_total
        } else {
            a.total_volume_token1 as int
        };
        if vol1 > u128::MAX {
            Err(TWAMMError::SafeMathError)
        } else if n_created == 0 {
            Err(TWAMMError::SafeMathError)
        } else if a.average_order_size * (n_created - 1) > u128::MAX {
            Err(TWAMMError::SafeMathError)
        } else if a.average_order_size * (n_created - 1) + amount_total > u128::MAX {
            Err(TWAMMError::SafeMathError)
        } else if a.average_order_duration * (n_created - 1) > u128::MAX {
            Err(TWAMMError::SafeMathError)
        } else if a.average_order_duration * (n_created - 1) + duration > u128::MAX {
            Err(TWAMMError::SafeMathError)
        } else {
            Ok(
                PoolAnalytics {
                    total_volume_token0: vol0 as u128,
                    total_volume_token1: vol1 as u128,
                    total_fees_collected: a.total_fees_collected,
                    average_order_size: ((a.average_order_size * (n_created - 1) + amount_total)
                        / (n_created as int)) as u128,
                    average_order_duration: ((a.average_order_duration * (n_created - 1)
                        + duration) / (n_created as int)) as u128,
                    last_update_timestamp: now,
                },
            )
        }
    }
}

/// Recompute a pool's analytics record for one new order.
pub fn update_pool_analytics(
    a: PoolAnalytics,
    n_created: u128,
    amount_total: u128,
    duration: u64,
    zero_for_one: bool,
    now: u64,
) -> (r: Result<PoolAnalytics, TWAMMError>)
    ensures
        r == spec_update_analytics(a, n_created, amount_total, duration, zero_for_one, now),
{
    let total_volume_token0 = if zero_for_one {
        match safe_add(a.total_volume_token0, amount_total) {
            Ok(v) => v,
            Err(e) => {
                return Err(e);
            },
        }
    } else {
        a.total_volume_token0
    };
    let total_volume_token1 = if !zero_for_one {
        match safe_add(a.total_volume_token1, amount_total) {
            Ok(v) => v,
            Err(e) => {
                return Err(e);
            },
        }
    } else {
        a.total_volume_token1
    };
    let prev_count = match safe_sub(n_created, 1) {
        Ok(v) => v,
        Err(e) => {
            return Err(e);
        },
    };
    let size_weighted = match safe_mul(a.average_order_size, prev_count) {
        Ok(v) => v,
        Err(e) => {
            return Err(e);
        },
    };
    let size_sum = match safe_add(size_weighted, amount_total) {
        Ok(v) => v,
        Err(e) => {
            return Err(e);
        },
    };
    let average_order_size = match safe_div(size_sum, n_created) {
        Ok(v) => v,
        Err(e) => {
            return Err(e);
        },
    };
    let duration_weighted = match safe_mul(a.average_order_duration, prev_count) {
        Ok(v) => v,
        Err(e) => {
            return Err(e);
        },
    };
    let duration_sum = match safe_add(duration_weighted, duration as u128) {
        Ok(v) => v,
        Err(e) => {
            return Err(e);
        },
    };
    let average_order_duration = match safe_div(duration_sum, n_created) {
        Ok(v) => v,
        Err(e) => {
            return Err(e);
        },
    };
    Ok(
        PoolAnalytics {
            total_volume_token0,
            total_volume_token1,
            total_fees_collected: a.total_fees_collected,
            average_order_size,
            average_order_duration,
            last_update_timestamp: now,
        },
    )
}

/// The whole order-creation transition: validation, the new order
/// appended to the ledger and to the caller's index, the created
/// counter, a rate recomputation over the grown ledger, and the
/// analytics update.  Any error leaves the state untouched.
pub open spec fn spec_create(
    v: StateView,
    pool_id: u64,
    sender: u64,
    zero_for_one: bool,
    amount_total: u128,
    duration: u64,
    start_time: Option<u64>,
    min_amount_out: u128,
    now: u64,
) -> Result<(StateView, u64), TWAMMError> {
    if duration < v.min_duration || duration > v.max_duration {
        Err(TWAMMError::InvalidDuration)
    } else if amount_total < v.min_order_amount {
        Err(TWAMMError::InvalidAmount)
    } else if v.user_orders_of(sender, pool_id).len() >= v.max_orders_per_user {
        Err(TWAMMError::MaxOrdersReached)
    } else {
        let st = match start_time {
            Some(s) => s,
            None => now,
        };
        let et = (st + duration) as u64;
        let order_id = v.orders_of(pool_id).len() as u64;
        let o = Order {
            id: order_id,
            pool_id,
            owner: sender,
            zero_for_one,
            amount_total,
            amount_executed: 0,
            amount_claimed: 0,
            start_time: st,
            end_time: et,
            last_execution_time: st,
            execution_interval: v.execution_interval,
            min_amount_out,
            active: true,
        };
        let ps = v.pool_of(pool_id);
        if ps.total_orders_created == u128::MAX {
            Err(TWAMMError::SafeMathError)
        } else {
            let v1 = StateView {
                orders: v.orders.insert(pool_id, v.orders_of(pool_id).push(o)),
                user_orders: v.user_orders.insert(
                    user_pool_key(sender, pool_id),
                    v.user_orders_of(sender, pool_id).push(order_id),
                ),
                pools: v.pools.insert(
                    pool_id,
                    PoolState { total_orders_created: (ps.total_orders_created + 1) as u128, ..ps },
                ),
                ..v
            };
            match spec_update_rates(v1, pool_id, now) {
                Err(e) => Err(e),
                Ok(v2) => {
                    match spec_update_analytics(
                        v2.analytics_of(pool_id),
                        (ps.total_orders_created + 1) as u128,
                        amount_total,
                        duration,
                        zero_for_one,
                        now,
                    ) {
                        Err(e) => Err(e),
                        Ok(a2) => Ok(
                            (StateView { analytics: v2.analytics.insert(pool_id, a2), ..v2 }, order_id),
                        ),
                    }
                },
            }
        }
    }
}

/// The whole cancellation transition.  The first component is the state
/// the operation leaves behind: unchanged for a validation or settlement
/// error, the settled state for an error after settlement, and the
/// settled state with the order deactivated, the cancelled counter
/// advanced and the rates recomputed on success.  The refunded amount is
/// exactly what the settled order had not executed.
pub open spec fn spec_cancel(v: StateView, pool_id: u64, order_id: u64, sender: u64, now: u64) -> (
    StateView,
    Result<u128, TWAMMError>,
) {
    if !v.orders.contains_key(pool_id) {
        (v, Err(TWAMMError::InvalidOrder))
    } else if order_id >= v.orders_of(pool_id).len() {
        (v, Err(TWAMMError::InvalidOrder))
    } else {
        let o = v.orders_of(pool_id)[order_id as int];
        if o.owner != sender {
            (v, Err(TWAMMError::Unauthorized))
        } else if !o.active {
            (v, Err(TWAMMError::OrderNotActive))
        } else {
            match spec_execute(v, pool_id, now) {
                Err(e) => (v, Err(e)),
                Ok((v1, _did)) => {
                    let o1 = v1.orders_of(pool_id)[order_id as int];
                    if o1.amount_executed > o1.amount_total {
                        (v1, Err(TWAMMError::SafeMathError))
                    } else {
                        let remaining = (o1.amount_total - o1.amount_executed) as u128;
                        let ps1 = v1.pool_of(pool_id);
                        if ps1.total_orders_cancelled == u128::MAX {
                            (v1, Err(TWAMMError::SafeMathError))
                        } else {
                            let v2 = StateView {
                                orders: v1.orders.insert(
                                    pool_id,
                                    v1.orders_of(pool_id).update(
                                        order_id as int,
                                        Order { active: false, ..o1 },
                                    ),
                                ),
                                pools: v1.pools.insert(
                                    pool_id,
                                    PoolState {
                                        total_orders_cancelled: (ps1.total_orders_cancelled
                                            + 1) as u128,
                                        ..ps1
                                    },
                                ),
                                ..v1
                            };
                            match spec_update_rates(v2, pool_id, now) {
                                Err(e) => (v1, Err(e)),
                                Ok(v3) => (v3, Ok(remaining)),
                            }
                        }
                    }
                },
            }
        }
    }
}

/// The whole claim transition.  The first component is the state the
/// operation leaves behind; on success the settled order's claimed
/// amount catches up with its executed amount and the difference is paid
/// out in the opposite token.
pub open spec fn spec_claim(v: StateView, pool_id: u64, order_id: u64, sender: u64, now: u64) -> (
    StateView,
    Result<u128, TWAMMError>,
) {
    if !v.orders.contains_key(pool_id) {
        (v, Err(TWAMMError::InvalidOrder))
    } else if order_id >= v.orders_of(pool_id).len() {
        (v, Err(TWAMMError::InvalidOrder))
    } else {
        let o = v.orders_of(pool_id)[order_id as int];
        if o.owner != sender {
            (v, Err(TWAMMError::Unauthorized))
        } else {
            match spec_execute(v, pool_id, now) {
                Err(e) => (v, Err(e)),
                Ok((v1, _did)) => {
                    let o1 = v1.orders_of(pool_id)[order_id as int];
                    if o1.amount_claimed > o1.amount_executed {
                        (v1, Err(TWAMMError::SafeMathError))
                    } else {
                        let claimable = (o1.amount_executed - o1.amount_claimed) as u128;
                        if claimable == 0 {
                            (v1, Err(TWAMMError::NothingToClaim))
                        } else {
                            (
                                StateView {
                                    orders: v1.orders.insert(
                                        pool_id,
                                        v1.orders_of(pool_id).update(
                                            order_id as int,
                                            Order { amount_claimed: o1.amount_executed, ..o1 },
                                        ),
                                    ),
                                    ..v1
                                },
                                Ok(claimable),
                            )
                        }
                    }
                },
            }
        }
    }
}

/// Copy a borrowed ledger so it can be grown or rewritten.
fn copy_orders(src: &Vec<Order>) -> (r: Vec<Order>)
    ensures
        r@ == src@,
{
    let mut r: Vec<Order> = Vec::new();
    let n = src.len();
    let mut i: usize = 0;
    while i < n
        invariant
            n == src@.len(),
            i <= n,
            r@ == src@.take(i as int),
        decreases n - i,
    {
        r.push(src[i]);
        proof {
            assert(r@ =~= src@.take(i as int + 1));
        }
        i += 1;
    }
    proof {
        assert(src@.take(n as int) =~= src@);
    }
    r
}

/// Copy a borrowed identifier list so it can be grown.
fn copy_ids(src: &Vec<u64>) -> (r: Vec<u64>)
    ensures
        r@ == src@,
{
    let mut r: Vec<u64> = Vec::new();
    let n = src.len();
    let mut i: usize = 0;
    while i < n
        invariant
            n == src@.len(),
            i <= n,
            r@ == src@.take(i as int),
        decreases n - i,
    {
        r.push(src[i]);
        proof {
            assert(r@ =~= src@.take(i as int + 1));
        }
        i += 1;
    }
    proof {
        assert(src@.take(n as int) =~= src@);
    }
    r
}

impl TWAMMState {
    /// Pull the committed amount of the input token from the caller.
    ///
    /// Token custody is the host's concern: this engine keeps only the
    /// notional bookkeeping, so the transfer itself is a stand-in that
    /// always succeeds, as in the interface it models.
    fn transfer_tokens_from(
        &mut self,
        _sender: u64,
        _amount: u128,
        _zero_for_one: bool,
        _pool_id: u64,
    ) -> (r: Result<(), TWAMMError>)
        ensures
            r == Ok::<(), TWAMMError>(()),
            *final(self) == *old(self),
    {
        Ok(())
    }

    /// Pay an amount of one token out to a user; a stand-in exactly like
    /// [`Self::transfer_tokens_from`].
    fn transfer_tokens_to_user(
        &mut self,
        _recipient: u64,
        _amount: u128,
        _zero_for_one: bool,
        _pool_id: u64,
    ) -> (r: Result<(), TWAMMError>)
        ensures
            r == Ok::<(), TWAMMError>(()),
            *final(self) == *old(self),
    {
        Ok(())
    }

    /// Create a new streamed order.
    ///
    /// The window must fit the timestamp type: the caller keeps
    /// `start + duration` within `u64`.
    #[verifier::loop_isolation(false)]
    pub fn create_order(
        &mut self,
        pool_id: u64,
        sender: u64,
        zero_for_one: bool,
        amount_total: u128,
        duration: u64,
        start_time: Option<u64>,
        min_amount_out: u128,
        current_time: u64,
    ) -> (r: Result<u64, TWAMMError>)
        requires
            old(self).inv(),
            (match start_time {
                Some(s) => s,
                None => current_time,
            }) + duration <= u64::MAX,
        ensures
            final(self).inv(),
            match spec_create(
                old(self)@,
                pool_id,
                sender,
                zero_for_one,
                amount_total,
                duration,
                start_time,
                min_amount_out,
                current_time,
            ) {
                Ok((v2, id)) => r == Ok::<u64, TWAMMError>(id) && final(self)@ == v2,
                Err(e) => r == Err::<u64, TWAMMError>(e) && *final(self) == *old(self),
            },
    {
        if duration < self.min_duration || duration > self.max_duration {
            return Err(TWAMMError::InvalidDuration);
        }
        if amount_total < self.min_order_amount {
            return Err(TWAMMError::InvalidAmount);
        }
        let key = make_user_pool_key(sender, pool_id);
        let empty_ids: Vec<u64> = Vec::new();
        let user_orders_ref: &Vec<u64> = match self.user_order_indexes.get(key) {
            Some(v) => v,
            None => &empty_ids,
        };
        proof {
            assert(user_orders_ref@ =~= self@.user_orders_of(sender, pool_id));
        }
        if user_orders_ref.len() as u64 >= self.max_orders_per_user {
            return Err(TWAMMError::MaxOrdersReached);
        }
        let mut user_orders = copy_ids(user_orders_ref);
        let start = match start_time {
            Some(s) => s,
            None => current_time,
        };
        let end = start + duration;
        match self.transfer_tokens_from(sender, amount_total, zero_for_one, pool_id) {
            Ok(u) => u,
            Err(e) => {
                return Err(e);
            },
        };
        let empty_orders: Vec<Order> = Vec::new();
        let orders_ref: &Vec<Order> = match self.orders.get(pool_id as u128) {
            Some(v) => v,
            None => &empty_orders,
        };
        proof {
            assert(orders_ref@ =~= self@.orders_of(pool_id));
        }
        let mut new_orders = copy_orders(orders_ref);
        let order_id = new_orders.len() as u64;
        let order = Order {
            id: order_id,
            pool_id,
            owner: sender,
            zero_for_one,
            amount_total,
            amount_executed: 0,
            amount_claimed: 0,
            start_time: start,
            end_time: end,
            last_execution_time: start,
            execution_interval: self.execution_interval,
            min_amount_out,
            active: true,
        };
        new_orders.push(order);
        user_orders.push(order_id);
        let mut pool_state = self.get_pool_state(pool_id);
        pool_state.total_orders_created = match safe_add(pool_state.total_orders_created, 1) {
            Ok(v) => v,
            Err(e) => {
                return Err(e);
            },
        };
        let (token0_rate, token1_rate) = match compute_rates(&new_orders, current_time) {
            Ok(p) => p,
            Err(e) => {
                return Err(e);
            },
        };
        pool_state.token0_rate = token0_rate;
        pool_state.token1_rate = token1_rate;
        let analytics = self.get_pool_analytics(pool_id);
        let new_analytics = match update_pool_analytics(
            analytics,
            pool_state.total_orders_created,
            amount_total,
            duration,
            zero_for_one,
            current_time,
        ) {
            Ok(a) => a,
            Err(e) => {
                return Err(e);
            },
        };
        self.orders.set(pool_id as u128, new_orders);
        self.user_order_indexes.set(key, user_orders);
        self.pool_states.set(pool_id as u128, pool_state);
        self.pool_analytics.set(pool_id as u128, new_analytics);
        proof {
            lemma_orders_view_insert(old(self).orders@, pool_id, new_orders);
            lemma_ids_view_insert(old(self).user_order_indexes@, key, user_orders);
            lemma_cast_view_insert(old(self).pool_states@, pool_id, pool_state);
            lemma_cast_view_insert(old(self).pool_analytics@, pool_id, new_analytics);
            assert(new_orders@ =~= old(self)@.orders_of(pool_id).push(order));
            assert(self@ =~~= spec_create(
                old(self)@,
                pool_id,
                sender,
                zero_for_one,
                amount_total,
                duration,
                start_time,
                min_amount_out,
                current_time,
            )->Ok_0.0);
        }
        Ok(order_id)
    }

    /// Cancel an active order the caller owns: settle the pool first,
    /// refund exactly what the settled order had not executed, clear its
    /// activity for good, count the cancellation and recompute the rates.
    pub fn cancel_order(&mut self, pool_id: u64, order_id: u64, sender: u64, current_time: u64)
        -> (r: Result<u128, TWAMMError>)
        requires
            old(self).inv(),
        ensures
            final(self).inv(),
            final(self)@ == spec_cancel(old(self)@, pool_id, order_id, sender, current_time).0,
            r == spec_cancel(old(self)@, pool_id, order_id, sender, current_time).1,
    {
        {
            let orders_ref: &Vec<Order> = match self.orders.get(pool_id as u128) {
                Some(v) => v,
                None => {
                    return Err(TWAMMError::InvalidOrder);
                },
            };
            if order_id >= orders_ref.len() as u64 {
                return Err(TWAMMError::InvalidOrder);
            }
            let o = orders_ref[order_id as usize];
            if o.owner != sender {
                return Err(TWAMMError::Unauthorized);
            }
            if !o.active {
                return Err(TWAMMError::OrderNotActive);
            }
        }
        match self.execute_virtual_orders_for_pool(pool_id, current_time) {
            Ok(b) => b,
            Err(e) => {
                return Err(e);
            },
        };
        let ghost v1 = self@;
        proof {
            lemma_execute_frame(old(self)@, pool_id, current_time);
        }
        let orders_ref: &Vec<Order> = match self.orders.get(pool_id as u128) {
            Some(v) => v,
            None => {
                proof {
                    assert(false);
                }
                return Err(TWAMMError::InvalidOrder);
            },
        };
        let o1 = orders_ref[order_id as usize];
        let amount_remaining = match safe_sub(o1.amount_total, o1.amount_executed) {
            Ok(v) => v,
            Err(e) => {
                return Err(e);
            },
        };
        let mut o2 = o1;
        o2.active = false;
        let mut new_orders = copy_orders(orders_ref);
        new_orders.set(order_id as usize, o2);
        let mut pool_state = self.get_pool_state(pool_id);
        pool_state.total_orders_cancelled = match safe_add(pool_state.total_orders_cancelled, 1) {
            Ok(v) => v,
            Err(e) => {
                return Err(e);
            },
        };
        let (token0_rate, token1_rate) = match compute_rates(&new_orders, current_time) {
            Ok(p) => p,
            Err(e) => {
                return Err(e);
            },
        };
        pool_state.token0_rate = token0_rate;
        pool_state.token1_rate = token1_rate;
        match self.transfer_tokens_to_user(sender, amount_remaining, o1.zero_for_one, pool_id) {
            Ok(u) => u,
            Err(e) => {
                return Err(e);
            },
        };
        let ghost orders_mid = self.orders@;
        self.orders.set(pool_id as u128, new_orders);
        let ghost pools_mid = self.pool_states@;
        self.pool_states.set(pool_id as u128, pool_state);
        proof {
            lemma_orders_view_insert(orders_mid, pool_id, new_orders);
            lemma_cast_view_insert(pools_mid, pool_id, pool_state);
            assert(new_orders@ =~= v1.orders_of(pool_id).update(
                order_id as int,
                Order { active: false, ..v1.orders_of(pool_id)[order_id as int] },
            ));
            assert(self@ =~~= spec_cancel(old(self)@, pool_id, order_id, sender, current_time).0);
        }
        Ok(amount_remaining)
    }

    /// Pay out an order's unclaimed proceeds in the opposite token, after
    /// settling the pool.  Completed (inactive) orders can still claim.
    pub fn claim_proceeds(&mut self, pool_id: u64, order_id: u64, sender: u64, current_time: u64)
        -> (r: Result<u128, TWAMMError>)
        requires
            old(self).inv(),
        ensures
            final(self).inv(),
            final(self)@ == spec_claim(old(self)@, pool_id, order_id, sender, current_time).0,
            r == spec_claim(old(self)@, pool_id, order_id, sender, current_time).1,
    {
        {
            let orders_ref: &Vec<Order> = match self.orders.get(pool_id as u128) {
                Some(v) => v,
                None => {
                    return Err(TWAMMError::InvalidOrder);
                },
            };
            if order_id >= orders_ref.len() as u64 {
                return Err(TWAMMError::InvalidOrder);
            }
            let o = orders_ref[order_id as usize];
            if o.owner != sender {
                return Err(TWAMMError::Unauthorized);
            }
        }
        match self.execute_virtual_orders_for_pool(pool_id, current_time) {
            Ok(b) => b,
            Err(e) => {
                return Err(e);
            },
        };
        let ghost v1 = self@;
        proof {
            lemma_execute_frame(old(self)@, pool_id, current_time);
        }
        let orders_ref: &Vec<Order> = match self.orders.get(pool_id as u128) {
            Some(v) => v,
            None => {
                proof {
                    assert(false);
                }
                return Err(TWAMMError::InvalidOrder);
            },
        };
        let o1 = orders_ref[order_id as usize];
        let claimable_amount = match safe_sub(o1.amount_executed, o1.amount_claimed) {
            Ok(v) => v,
            Err(e) => {
                return Err(e);
            },
        };
        if claimable_amount == 0 {
            return Err(TWAMMError::NothingToClaim);
        }
        let mut o2 = o1;
        o2.amount_claimed = o1.amount_executed;
        let mut new_orders = copy_orders(orders_ref);
        new_orders.set(order_id as usize, o2);
        let ghost orders_mid = self.orders@;
        self.orders.set(pool_id as u128, new_orders);
        match self.transfer_tokens_to_user(sender, claimable_amount, !o1.zero_for_one, pool_id) {
            Ok(u) => u,
            Err(e) => {
                return Err(e);
            },
        };
        proof {
            lemma_orders_view_insert(orders_mid, pool_id, new_orders);
            assert(new_orders@ =~= v1.orders_of(pool_id).update(
                order_id as int,
                Order {
                    amount_claimed: v1.orders_of(pool_id)[order_id as int].amount_executed,
                    ..v1.orders_of(pool_id)[order_id as int]
                },
            ));
            assert(self@ =~~= spec_claim(old(self)@, pool_id, order_id, sender, current_time).0);
        }
        Ok(claimable_amount)
    }
}

} // verus!
