//! The virtual-order execution engine: rate recomputation and time-sliced
//! settlement.
//!
//! Each executable operation is specified by a spec-level transition
//! function over [`StateView`]; the operation's contract says that the
//! state after the call is exactly the transition's result, and that any
//! error leaves the state untouched.

use vstd::prelude::*;
use vstd::arithmetic::div_mod::lemma_div_pos_is_pos;
use crate::errors::TWAMMError;
use crate::state::{StateView, TWAMMState, lemma_cast_view_insert, lemma_orders_view_insert};
use crate::types::{Order, PoolState};
use crate::utils::{safe_add, safe_div, safe_mul, safe_sub};

verus! {

// ------------------------------------------------------------------
// Rate recomputation
// ------------------------------------------------------------------

/// The flow an order currently demands, in input-token units per unit
/// time: the floored quotient of what remains to execute by the time left
/// in its window.  Zero for inactive, expired or exhausted orders.
pub open spec fn order_rate(o: Order, now: u64) -> int {
    if o.active && now < o.end_time && o.amount_executed < o.amount_total {
        (o.amount_total - o.amount_executed) / (o.end_time - now)
    } else {
        0
    }
}

/// The aggregate flow demanded in one direction by a ledger of orders.
pub open spec fn rates_sum(orders: Seq<Order>, now: u64, zero_for_one: bool) -> int
    decreases orders.len(),
{
    if orders.len() == 0 {
        0
    } else {
        rates_sum(orders.drop_last(), now, zero_for_one) + if orders.last().zero_for_one
            == zero_for_one {
            order_rate(orders.last(), now)
        } else {
            0
        }
    }
}

pub proof fn lemma_order_rate_nonneg(o: Order, now: u64)
    ensures
        order_rate(o, now) >= 0,
{
    if o.active && now < o.end_time && o.amount_executed < o.amount_total {
        lemma_div_pos_is_pos(
            o.amount_total - o.amount_executed,
            o.end_time - now,
        );
    }
}

/// Floor division under-accrues: over the remaining window, the flow an
/// order is assigned covers all but a dust of its remaining amount, and
/// the dust of one recomputation stays below one unit of flow per time
/// unit, i.e. below the remaining time itself.
pub proof fn lemma_order_rate_dust_bounded(o: Order, now: u64)
    requires
        o.active,
        now < o.end_time,
        o.amount_executed < o.amount_total,
    ensures
        ({
            let remaining_amount = o.amount_total - o.amount_executed;
            let remaining_time = o.end_time - now;
            &&& order_rate(o, now) * remaining_time <= remaining_amount
            &&& remaining_amount - order_rate(o, now) * remaining_time < remaining_time
        }),
{
    let remaining_amount = o.amount_total - o.amount_executed;
    let remaining_time = o.end_time - now;
    vstd::arithmetic::div_mod::lemma_fundamental_div_mod(remaining_amount, remaining_time);
    vstd::arithmetic::div_mod::lemma_mod_bound(remaining_amount, remaining_time);
    assert(remaining_amount == remaining_time * (remaining_amount / remaining_time)
        + remaining_amount % remaining_time);
    vstd::arithmetic::mul::lemma_mul_is_commutative(
        remaining_time,
        remaining_amount / remaining_time,
    );
}

/// Extending a prefix by one order adds exactly that order's
/// contribution.
proof fn lemma_rates_sum_step(orders: Seq<Order>, i: int, now: u64, zero_for_one: bool)
    requires
        0 <= i < orders.len(),
    ensures
        rates_sum(orders.take(i + 1), now, zero_for_one) == rates_sum(
            orders.take(i),
            now,
            zero_for_one,
        ) + if orders[i].zero_for_one == zero_for_one {
            order_rate(orders[i], now)
        } else {
            0
        },
{
    assert(orders.take(i + 1).drop_last() =~= orders.take(i));
    assert(orders.take(i + 1).last() == orders[i]);
}

/// A prefix never demands more flow than the whole ledger.
proof fn lemma_rates_sum_prefix_le(orders: Seq<Order>, i: int, now: u64, zero_for_one: bool)
    requires
        0 <= i <= orders.len(),
    ensures
        rates_sum(orders.take(i), now, zero_for_one) <= rates_sum(orders, now, zero_for_one),
    decreases orders.len() - i,
{
    if i == orders.len() {
        assert(orders.take(i) =~= orders);
    } else {
        lemma_rates_sum_step(orders, i, now, zero_for_one);
        lemma_order_rate_nonneg(orders[i], now);
        lemma_rates_sum_prefix_le(orders, i + 1, now, zero_for_one);
    }
}

/// The result of recomputing a pool's rates: both direction sums replace
/// the stored rates, or `SafeMathError` when a sum exceeds the `u128`
/// range.
pub open spec fn spec_update_rates(v: StateView, pool_id: u64, now: u64) -> Result<
    StateView,
    TWAMMError,
> {
    let os = v.orders_of(pool_id);
    let r0 = rates_sum(os, now, true);
    let r1 = rates_sum(os, now, false);
    if r0 <= u128::MAX && r1 <= u128::MAX {
        Ok(
            StateView {
                pools: v.pools.insert(
                    pool_id,
                    PoolState {
                        token0_rate: r0 as u128,
                        token1_rate: r1 as u128,
                        ..v.pool_of(pool_id)
                    },
                ),
                ..v
            },
        )
    } else {
        Err(TWAMMError::SafeMathError)
    }
}

/// Sum the per-order rates of a ledger in both directions.
///
/// Errs with `SafeMathError` exactly when one of the direction sums
/// exceeds the `u128` range.
pub fn compute_rates(orders: &Vec<Order>, now: u64) -> (r: Result<(u128, u128), TWAMMError>)
    ensures
        rates_sum(orders@, now, true) <= u128::MAX && rates_sum(orders@, now, false) <= u128::MAX
            ==> r == Ok::<(u128, u128), TWAMMError>(
            (
                rates_sum(orders@, now, true) as u128,
                rates_sum(orders@, now, false) as u128,
            ),
        ),
        rates_sum(orders@, now, true) > u128::MAX || rates_sum(orders@, now, false) > u128::MAX
            ==> r == Err::<(u128, u128), TWAMMError>(TWAMMError::SafeMathError),
{
    let mut token0_rate: u128 = 0;
    let mut token1_rate: u128 = 0;
    let n = orders.len();
    let mut i: usize = 0;
    while i < n
        invariant
            n == orders@.len(),
            i <= n,
            token0_rate == rates_sum(orders@.take(i as int), now, true),
            token1_rate == rates_sum(orders@.take(i as int), now, false),
        decreases n - i,
    {
        let o = orders[i];
        proof {
            lemma_rates_sum_step(orders@, i as int, now, true);
            lemma_rates_sum_step(orders@, i as int, now, false);
        }
        if o.active && now < o.end_time {
            let remaining_amount: u128 = if o.amount_executed >= o.amount_total {
                0
            } else {
                o.amount_total - o.amount_executed
            };
            let remaining_time: u64 = o.end_time - now;
            if remaining_amount != 0 {
                let rate = remaining_amount / (remaining_time as u128);
                if o.zero_for_one {
                    token0_rate = match safe_add(token0_rate, rate) {
                        Ok(v) => v,
                        Err(e) => {
                            proof {
                                lemma_rates_sum_prefix_le(orders@, i as int + 1, now, true);
                            }
                            return Err(e);
                        },
                    };
                } else {
                    token1_rate = match safe_add(token1_rate, rate) {
                        Ok(v) => v,
                        Err(e) => {
                            proof {
                                lemma_rates_sum_prefix_le(orders@, i as int + 1, now, false);
                            }
                            return Err(e);
                        },
                    };
                }
            }
        }
        i += 1;
    }
    proof {
        assert(orders@.take(n as int) =~= orders@);
    }
    Ok((token0_rate, token1_rate))
}

// ------------------------------------------------------------------
// Settlement
// ------------------------------------------------------------------

/// The protocol fee taken from a swap of `amount_in`, in basis points:
/// `amount_in * fee_bps / denom`, floored.
pub open spec fn spec_fee(amount_in: u128, fee_bps: u128, denom: u128) -> int
    recommends
        denom > 0,
{
    (amount_in * fee_bps) / (denom as int)
}

/// One virtual swap: deduct the protocol fee, accrue it to the pool's fee
/// counter for the input token, and exchange the rest at the placeholder
/// one-to-one notional price.
pub open spec fn spec_swap(
    ps: PoolState,
    fee_bps: u128,
    denom: u128,
    zero_for_one: bool,
    amount_in: u128,
) -> Result<(PoolState, u128), TWAMMError> {
    if amount_in * fee_bps > u128::MAX {
        Err(TWAMMError::SafeMathError)
    } else if denom == 0 {
        Err(TWAMMError::DivisionByZero)
    } else {
        let fee = spec_fee(amount_in, fee_bps, denom);
        if amount_in < fee {
            Err(TWAMMError::SafeMathError)
        } else if zero_for_one {
            if ps.protocol_fees_token0 + fee > u128::MAX {
                Err(TWAMMError::SafeMathError)
            } else {
                Ok(
                    (
                        PoolState {
                            protocol_fees_token0: (ps.protocol_fees_token0 + fee) as u128,
                            ..ps
                        },
                        (amount_in - fee) as u128,
                    ),
                )
            }
        } else {
            if ps.protocol_fees_token1 + fee > u128::MAX {
                Err(TWAMMError::SafeMathError)
            } else {
                Ok(
                    (
                        PoolState {
                            protocol_fees_token1: (ps.protocol_fees_token1 + fee) as u128,
                            ..ps
                        },
                        (amount_in - fee) as u128,
                    ),
                )
            }
        }
    }
}

/// The balance bookkeeping after the two virtual swaps: add what each
/// direction bought, then subtract what it spent, clamped at the balance
/// so balances never go negative even if bookkeeping lags.
pub open spec fn spec_update_balances(
    ps: PoolState,
    token0_to_swap: u128,
    token1_to_swap: u128,
    token0_bought: u128,
    token1_bought: u128,
) -> Result<PoolState, TWAMMError> {
    let bal0_in = if token0_bought > 0 {
        ps.token0_virtual_balance + token0_bought
    } else {
        ps.token0_virtual_balance as int
    };
    if bal0_in > u128::MAX {
        Err(TWAMMError::SafeMathError)
    } else {
        let bal0 = if token0_to_swap > 0 {
            if token0_to_swap >= bal0_in {
                0
            } else {
                bal0_in - token0_to_swap
            }
        } else {
            bal0_in
        };
        let bal1_in = if token1_bought > 0 {
            ps.token1_virtual_balance + token1_bought
        } else {
            ps.token1_virtual_balance as int
        };
        if bal1_in > u128::MAX {
            Err(TWAMMError::SafeMathError)
        } else {
            let bal1 = if token1_to_swap > 0 {
                if token1_to_swap >= bal1_in {
                    0
                } else {
                    bal1_in - token1_to_swap
                }
            } else {
                bal1_in
            };
            Ok(
                PoolState {
                    token0_virtual_balance: bal0 as u128,
                    token1_virtual_balance: bal1 as u128,
                    ..ps
                },
            )
        }
    }
}

/// One order's share of a settlement tick.
///
/// An inactive or not-yet-started order is skipped.  Otherwise the order
/// is credited the direction-matching swapped total, capped at what
/// remains of its committed amount; on completion the pool's executed
/// counter (threaded through as `counter`) is incremented.
///
/// Note an open correctness question, kept for compatibility: every
/// order is compared against the same pool-wide swapped total, without
/// decrementing a shared remainder, so several simultaneously active
/// orders in one direction can each be credited up to the full amount of
/// a single notional swap.  A corrected allocation would hand each order
/// a pro-rata share of the tick instead.
pub open spec fn spec_fill_order(
    o: Order,
    token0_swapped: u128,
    token1_swapped: u128,
    now: u64,
    counter: u128,
) -> Result<(Order, u128), TWAMMError> {
    if !o.active || now < o.start_time {
        Ok((o, counter))
    } else {
        let avail = if o.amount_executed >= o.amount_total {
            0
        } else {
            o.amount_total - o.amount_executed
        };
        let amt = if o.zero_for_one && token0_swapped != 0 {
            if token0_swapped <= avail {
                token0_swapped as int
            } else {
                avail
            }
        } else if !o.zero_for_one && token1_swapped != 0 {
            if token1_swapped <= avail {
                token1_swapped as int
            } else {
                avail
            }
        } else {
            0
        };
        if amt == 0 {
            Ok((o, counter))
        } else {
            let o2 = Order {
                amount_executed: (o.amount_executed + amt) as u128,
                last_execution_time: now,
                ..o
            };
            if o.amount_executed + amt >= o.amount_total {
                if counter == u128::MAX {
                    Err(TWAMMError::SafeMathError)
                } else {
                    Ok((o2, (counter + 1) as u128))
                }
            } else {
                Ok((o2, counter))
            }
        }
    }
}

/// Distribute a settlement tick across a whole ledger, in ledger order,
/// threading the pool's executed counter through.
pub open spec fn spec_fill_orders(
    orders: Seq<Order>,
    token0_swapped: u128,
    token1_swapped: u128,
    now: u64,
    counter: u128,
) -> Result<(Seq<Order>, u128), TWAMMError>
    decreases orders.len(),
{
    if orders.len() == 0 {
        Ok((Seq::empty(), counter))
    } else {
        match spec_fill_orders(orders.drop_last(), token0_swapped, token1_swapped, now, counter) {
            Err(e) => Err(e),
            Ok((rest, c)) => match spec_fill_order(
                orders.last(),
                token0_swapped,
                token1_swapped,
                now,
                c,
            ) {
                Err(e) => Err(e),
                Ok((o2, c2)) => Ok((rest.push(o2), c2)),
            },
        }
    }
}

proof fn lemma_fill_orders_step(
    orders: Seq<Order>,
    i: int,
    token0_swapped: u128,
    token1_swapped: u128,
    now: u64,
    counter: u128,
)
    requires
        0 <= i < orders.len(),
    ensures
        (match spec_fill_orders(orders.take(i), token0_swapped, token1_swapped, now, counter) {
            Err(e) => spec_fill_orders(orders.take(i + 1), token0_swapped, token1_swapped, now, counter)
                == Err::<(Seq<Order>, u128), TWAMMError>(e),
            Ok((rest, c)) => spec_fill_orders(
                orders.take(i + 1),
                token0_swapped,
                token1_swapped,
                now,
                counter,
            ) == match spec_fill_order(orders[i], token0_swapped, token1_swapped, now, c) {
                Err(e) => Err::<(Seq<Order>, u128), TWAMMError>(e),
                Ok((o2, c2)) => Ok::<(Seq<Order>, u128), TWAMMError>((rest.push(o2), c2)),
            },
        }),
{
    assert(orders.take(i + 1).drop_last() =~= orders.take(i));
    assert(orders.take(i + 1).last() == orders[i]);
}

proof fn lemma_fill_orders_err_extends(
    orders: Seq<Order>,
    i: int,
    token0_swapped: u128,
    token1_swapped: u128,
    now: u64,
    counter: u128,
    e: TWAMMError,
)
    requires
        0 <= i <= orders.len(),
        spec_fill_orders(orders.take(i), token0_swapped, token1_swapped, now, counter)
            == Err::<(Seq<Order>, u128), TWAMMError>(e),
    ensures
        spec_fill_orders(orders, token0_swapped, token1_swapped, now, counter)
            == Err::<(Seq<Order>, u128), TWAMMError>(e),
    decreases orders.len() - i,
{
    if i == orders.len() {
        assert(orders.take(i) =~= orders);
    } else {
        lemma_fill_orders_step(orders, i, token0_swapped, token1_swapped, now, counter);
        lemma_fill_orders_err_extends(
            orders,
            i + 1,
            token0_swapped,
            token1_swapped,
            now,
            counter,
            e,
        );
    }
}

/// A successful settlement tick keeps the ledger's length and every
/// order's identity, window, direction, claim and activity; execution
/// only advances, and never past the committed total.
pub proof fn lemma_fill_orders_props(
    orders: Seq<Order>,
    token0_swapped: u128,
    token1_swapped: u128,
    now: u64,
    counter: u128,
)
    requires
        spec_fill_orders(orders, token0_swapped, token1_swapped, now, counter) matches Ok(_),
    ensures
        ({
            let (os2, c2) = spec_fill_orders(
                orders,
                token0_swapped,
                token1_swapped,
                now,
                counter,
            )->Ok_0;
            &&& os2.len() == orders.len()
            &&& c2 >= counter
            &&& forall|i: int|
                0 <= i < orders.len() ==> {
                    let o = orders[i];
                    let o2 = #[trigger] os2[i];
                    &&& o2.id == o.id
                    &&& o2.pool_id == o.pool_id
                    &&& o2.owner == o.owner
                    &&& o2.zero_for_one == o.zero_for_one
                    &&& o2.amount_total == o.amount_total
                    &&& o2.amount_claimed == o.amount_claimed
                    &&& o2.start_time == o.start_time
                    &&& o2.end_time == o.end_time
                    &&& o2.active == o.active
                    &&& o2.amount_executed >= o.amount_executed
                    &&& o.wf() ==> o2.wf()
                }
        }),
    decreases orders.len(),
{
    if orders.len() > 0 {
        lemma_fill_orders_props(
            orders.drop_last(),
            token0_swapped,
            token1_swapped,
            now,
            counter,
        );
    }
}

/// The whole settlement pass: the no-op cases, the per-direction notional
/// amounts for the elapsed time, both virtual swaps, the balance
/// bookkeeping, the timestamp stamp and the order distribution.
pub open spec fn spec_execute(v: StateView, pool_id: u64, now: u64) -> Result<
    (StateView, bool),
    TWAMMError,
> {
    let ps = v.pool_of(pool_id);
    if ps.token0_rate == 0 && ps.token1_rate == 0 && ps.last_virtual_order_execution_time == now {
        Ok((v, false))
    } else if now <= ps.last_virtual_order_execution_time {
        Ok((v, false))
    } else {
        let te = (now - ps.last_virtual_order_execution_time) as u128;
        if ps.token0_rate * te > u128::MAX || ps.token1_rate * te > u128::MAX {
            Err(TWAMMError::SafeMathError)
        } else {
            spec_execute_swaps(
                v,
                pool_id,
                ps,
                (ps.token0_rate * te) as u128,
                (ps.token1_rate * te) as u128,
                now,
            )
        }
    }
}

/// The tail of [`spec_execute`] once the per-direction notional amounts
/// are known.
pub open spec fn spec_execute_swaps(
    v: StateView,
    pool_id: u64,
    ps: PoolState,
    token0_to_swap: u128,
    token1_to_swap: u128,
    now: u64,
) -> Result<(StateView, bool), TWAMMError> {
    let s0 = if token0_to_swap != 0 {
        spec_swap(ps, v.protocol_fee_bps, v.bps_denominator, true, token0_to_swap)
    } else {
        Ok((ps, 0))
    };
    match s0 {
        Err(e) => Err(e),
        Ok((ps1, token1_bought)) => {
            let s1 = if token1_to_swap != 0 {
                spec_swap(ps1, v.protocol_fee_bps, v.bps_denominator, false, token1_to_swap)
            } else {
                Ok((ps1, 0))
            };
            match s1 {
                Err(e) => Err(e),
                Ok((ps2, token0_bought)) => match spec_update_balances(
                    ps2,
                    token0_to_swap,
                    token1_to_swap,
                    token0_bought,
                    token1_bought,
                ) {
                    Err(e) => Err(e),
                    Ok(ps3) => {
                        let ps4 = PoolState { last_virtual_order_execution_time: now, ..ps3 };
                        if token0_to_swap == 0 && token1_to_swap == 0 {
                            Ok((StateView { pools: v.pools.insert(pool_id, ps4), ..v }, true))
                        } else {
                            match spec_fill_orders(
                                v.orders_of(pool_id),
                                token0_to_swap,
                                token1_to_swap,
                                now,
                                ps4.total_orders_executed,
                            ) {
                                Err(e) => Err(e),
                                Ok((os2, c2)) => Ok(
                                    (
                                        StateView {
                                            pools: v.pools.insert(
                                                pool_id,
                                                PoolState { total_orders_executed: c2, ..ps4 },
                                            ),
                                            orders: v.orders.insert(pool_id, os2),
                                            ..v
                                        },
                                        true,
                                    ),
                                ),
                            }
                        }
                    },
                },
            }
        },
    }
}

/// What a successful settlement leaves untouched: everything but the
/// pool's aggregate state and its ledger's execution progress.  Each
/// order keeps its identity, window, direction, committed total, claim
/// and activity; only `amount_executed` and `last_execution_time` move,
/// and a well-formed order stays well formed.
pub proof fn lemma_execute_frame(v: StateView, pool_id: u64, now: u64)
    requires
        spec_execute(v, pool_id, now) matches Ok(_),
    ensures
        ({
            let (v1, did) = spec_execute(v, pool_id, now)->Ok_0;
            &&& v1.operators == v.operators
            &&& v1.analytics == v.analytics
            &&& v1.user_orders == v.user_orders
            &&& v1.min_duration == v.min_duration
            &&& v1.max_duration == v.max_duration
            &&& v1.execution_interval == v.execution_interval
            &&& v1.protocol_fee_bps == v.protocol_fee_bps
            &&& v1.bps_denominator == v.bps_denominator
            &&& v1.min_order_amount == v.min_order_amount
            &&& v1.max_orders_per_user == v.max_orders_per_user
            &&& v1.max_slippage_bps == v.max_slippage_bps
            &&& v.orders.contains_key(pool_id) ==> v1.orders.contains_key(pool_id)
            &&& v1.orders_of(pool_id).len() == v.orders_of(pool_id).len()
            &&& forall|i: int|
                0 <= i < v.orders_of(pool_id).len() ==> {
                    let o = v.orders_of(pool_id)[i];
                    let o1 = #[trigger] v1.orders_of(pool_id)[i];
                    &&& o1.id == o.id
                    &&& o1.pool_id == o.pool_id
                    &&& o1.owner == o.owner
                    &&& o1.zero_for_one == o.zero_for_one
                    &&& o1.amount_total == o.amount_total
                    &&& o1.amount_claimed == o.amount_claimed
                    &&& o1.start_time == o.start_time
                    &&& o1.end_time == o.end_time
                    &&& o1.active == o.active
                    &&& o1.amount_executed >= o.amount_executed
                    &&& o.wf() ==> o1.wf()
                }
        }),
{
    let ps = v.pool_of(pool_id);
    if ps.token0_rate == 0 && ps.token1_rate == 0 && ps.last_virtual_order_execution_time == now {
    } else if now <= ps.last_virtual_order_execution_time {
    } else {
        let te = (now - ps.last_virtual_order_execution_time) as u128;
        let token0_to_swap = (ps.token0_rate * te) as u128;
        let token1_to_swap = (ps.token1_rate * te) as u128;
        if !(token0_to_swap == 0 && token1_to_swap == 0) {
            let counter = v.pool_of(pool_id).total_orders_executed;
            lemma_fill_orders_props(
                v.orders_of(pool_id),
                token0_to_swap,
                token1_to_swap,
                now,
                counter,
            );
        }
    }
}

impl TWAMMState {
    /// Recompute both of a pool's flow rates from scratch by scanning its
    /// ledger, and store them.  Invoked after every order creation and
    /// cancellation, so rates always reflect the exact current set of
    /// active, unexpired orders.
    pub fn update_virtual_order_rates(&mut self, pool_id: u64, current_time: u64) -> (r: Result<
        (),
        TWAMMError,
    >)
        requires
            old(self).inv(),
        ensures
            final(self).inv(),
            match spec_update_rates(old(self)@, pool_id, current_time) {
                Ok(v2) => r == Ok::<(), TWAMMError>(()) && final(self)@ == v2,
                Err(e) => r == Err::<(), TWAMMError>(e) && *final(self) == *old(self),
            },
    {
        let empty_orders: Vec<Order> = Vec::new();
        let os: &Vec<Order> = match self.orders.get(pool_id as u128) {
            Some(v) => v,
            None => &empty_orders,
        };
        proof {
            assert(os@ =~= self@.orders_of(pool_id));
        }
        let (token0_rate, token1_rate) = match compute_rates(os, current_time) {
            Ok(p) => p,
            Err(e) => {
                return Err(e);
            },
        };
        let mut pool_state = self.get_pool_state(pool_id);
        pool_state.token0_rate = token0_rate;
        pool_state.token1_rate = token1_rate;
        self.pool_states.set(pool_id as u128, pool_state);
        proof {
            lemma_cast_view_insert(old(self).pool_states@, pool_id, pool_state);
            assert(self@ =~~= spec_update_rates(old(self)@, pool_id, current_time)->Ok_0);
        }
        Ok(())
    }

    /// One virtual swap on a working copy of the pool state: take the
    /// protocol fee, accrue it, and return the amount bought at the
    /// placeholder one-to-one notional price.
    ///
    /// The fee and the amount out always rebuild the amount in exactly:
    /// no unit is lost to rounding.
    pub fn execute_virtual_swap(
        &self,
        pool_state: &mut PoolState,
        zero_for_one: bool,
        amount_in: u128,
    ) -> (r: Result<u128, TWAMMError>)
        ensures
            match spec_swap(
                *old(pool_state),
                self.protocol_fee_bps,
                self.bps_denominator,
                zero_for_one,
                amount_in,
            ) {
                Ok((ps2, out)) => r == Ok::<u128, TWAMMError>(out) && *final(pool_state) == ps2,
                Err(e) => r == Err::<u128, TWAMMError>(e) && *final(pool_state) == *old(pool_state),
            },
            r matches Ok(out) ==> {
                let fee = spec_fee(amount_in, self.protocol_fee_bps, self.bps_denominator);
                &&& out + fee == amount_in
                &&& zero_for_one ==> final(pool_state).protocol_fees_token0 == old(pool_state).protocol_fees_token0 + fee
                &&& !zero_for_one ==> final(pool_state).protocol_fees_token1 == old(pool_state).protocol_fees_token1 + fee
            },
    {
        let product = match safe_mul(amount_in, self.protocol_fee_bps) {
            Ok(v) => v,
            Err(e) => {
                return Err(e);
            },
        };
        let protocol_fee = match safe_div(product, self.bps_denominator) {
            Ok(v) => v,
            Err(e) => {
                return Err(e);
            },
        };
        let amount_to_swap = match safe_sub(amount_in, protocol_fee) {
            Ok(v) => v,
            Err(e) => {
                return Err(e);
            },
        };
        if zero_for_one {
            pool_state.protocol_fees_token0 = match safe_add(
                pool_state.protocol_fees_token0,
                protocol_fee,
            ) {
                Ok(v) => v,
                Err(e) => {
                    return Err(e);
                },
            };
        } else {
            pool_state.protocol_fees_token1 = match safe_add(
                pool_state.protocol_fees_token1,
                protocol_fee,
            ) {
                Ok(v) => v,
                Err(e) => {
                    return Err(e);
                },
            };
        }
        Ok(amount_to_swap)
    }

    /// Apply the balance bookkeeping of one settlement tick to a working
    /// copy of the pool state.
    pub fn update_virtual_balances(
        &self,
        pool_state: &mut PoolState,
        token0_to_swap: u128,
        token1_to_swap: u128,
        token0_bought: u128,
        token1_bought: u128,
    ) -> (r: Result<(), TWAMMError>)
        ensures
            match spec_update_balances(
                *old(pool_state),
                token0_to_swap,
                token1_to_swap,
                token0_bought,
                token1_bought,
            ) {
                Ok(ps2) => r == Ok::<(), TWAMMError>(()) && *final(pool_state) == ps2,
                Err(e) => r == Err::<(), TWAMMError>(e) && *final(pool_state) == *old(pool_state),
            },
    {
        let mut bal0 = pool_state.token0_virtual_balance;
        if token0_bought > 0 {
            bal0 = match safe_add(bal0, token0_bought) {
                Ok(v) => v,
                Err(e) => {
                    return Err(e);
                },
            };
        }
        if token0_to_swap > 0 {
            let clamped = if token0_to_swap >= bal0 {
                bal0
            } else {
                token0_to_swap
            };
            bal0 = match safe_sub(bal0, clamped) {
                Ok(v) => v,
                Err(e) => {
                    return Err(e);
                },
            };
        }
        let mut bal1 = pool_state.token1_virtual_balance;
        if token1_bought > 0 {
            bal1 = match safe_add(bal1, token1_bought) {
                Ok(v) => v,
                Err(e) => {
                    return Err(e);
                },
            };
        }
        if token1_to_swap > 0 {
            let clamped = if token1_to_swap >= bal1 {
                bal1
            } else {
                token1_to_swap
            };
            bal1 = match safe_sub(bal1, clamped) {
                Ok(v) => v,
                Err(e) => {
                    return Err(e);
                },
            };
        }
        pool_state.token0_virtual_balance = bal0;
        pool_state.token1_virtual_balance = bal1;
        Ok(())
    }

    /// Distribute one settlement tick across the pool's ledger.
    ///
    /// On success the new ledger is committed and the executed counter on
    /// the working pool state advances; on error neither is touched, so
    /// the caller stays atomic.
    #[verifier::loop_isolation(false)]
    pub fn update_orders_after_execution(
        &mut self,
        pool_id: u64,
        pool_state: &mut PoolState,
        token0_swapped: u128,
        token1_swapped: u128,
        current_time: u64,
    ) -> (r: Result<(), TWAMMError>)
        requires
            old(self).inv(),
        ensures
            final(self).inv(),
            token0_swapped == 0 && token1_swapped == 0 ==> r == Ok::<(), TWAMMError>(())
                && *final(self) == *old(self) && *final(pool_state) == *old(pool_state),
            !(token0_swapped == 0 && token1_swapped == 0) ==> match spec_fill_orders(
                old(self)@.orders_of(pool_id),
                token0_swapped,
                token1_swapped,
                current_time,
                old(pool_state).total_orders_executed,
            ) {
                Ok((os2, c2)) => r == Ok::<(), TWAMMError>(()) && final(self)@ == (StateView {
                    orders: old(self)@.orders.insert(pool_id, os2),
                    ..old(self)@
                }) && *final(pool_state) == (PoolState {
                    total_orders_executed: c2,
                    ..*old(pool_state)
                }),
                Err(e) => r == Err::<(), TWAMMError>(e) && *final(self) == *old(self)
                    && *final(pool_state) == *old(pool_state),
            },
    {
        if token0_swapped == 0 && token1_swapped == 0 {
            return Ok(());
        }
        let empty_orders: Vec<Order> = Vec::new();
        let os: &Vec<Order> = match self.orders.get(pool_id as u128) {
            Some(v) => v,
            None => &empty_orders,
        };
        proof {
            assert(os@ =~= self@.orders_of(pool_id));
        }
        let ghost c0 = pool_state.total_orders_executed;
        let mut new_orders: Vec<Order> = Vec::new();
        let mut counter: u128 = pool_state.total_orders_executed;
        let n = os.len();
        let mut i: usize = 0;
        while i < n
            invariant
                n == os@.len(),
                i <= n,
                spec_fill_orders(
                    os@.take(i as int),
                    token0_swapped,
                    token1_swapped,
                    current_time,
                    c0,
                ) == Ok::<(Seq<Order>, u128), TWAMMError>((new_orders@, counter)),
            decreases n - i,
        {
            let o = os[i];
            proof {
                lemma_fill_orders_step(
                    os@,
                    i as int,
                    token0_swapped,
                    token1_swapped,
                    current_time,
                    c0,
                );
            }
            if !o.active || current_time < o.start_time {
                new_orders.push(o);
            } else {
                let avail: u128 = if o.amount_executed >= o.amount_total {
                    0
                } else {
                    o.amount_total - o.amount_executed
                };
                let amount_to_execute: u128 = if o.zero_for_one && token0_swapped != 0 {
                    if token0_swapped <= avail {
                        token0_swapped
                    } else {
                        avail
                    }
                } else if !o.zero_for_one && token1_swapped != 0 {
                    if token1_swapped <= avail {
                        token1_swapped
                    } else {
                        avail
                    }
                } else {
                    0
                };
                if amount_to_execute == 0 {
                    new_orders.push(o);
                } else {
                    let new_executed = match safe_add(o.amount_executed, amount_to_execute) {
                        Ok(v) => v,
                        Err(e) => {
                            proof {
                                // the credit is capped at what remains, so the
                                // sum stays within the committed total
                                assert(amount_to_execute <= avail);
                                assert(o.amount_executed + amount_to_execute <= o.amount_total);
                                assert(false);
                            }
                            return Err(e);
                        },
                    };
                    let mut o2 = o;
                    o2.last_execution_time = current_time;
                    if new_executed >= o.amount_total {
                        o2.amount_executed = o.amount_total;
                        counter = match safe_add(counter, 1) {
                            Ok(v) => v,
                            Err(e) => {
                                proof {
                                    lemma_fill_orders_err_extends(
                                        os@,
                                        i as int + 1,
                                        token0_swapped,
                                        token1_swapped,
                                        current_time,
                                        c0,
                                        TWAMMError::SafeMathError,
                                    );
                                }
                                return Err(e);
                            },
                        };
                    } else {
                        o2.amount_executed = new_executed;
                    }
                    new_orders.push(o2);
                }
            }
            i += 1;
        }
        proof {
            assert(os@.take(n as int) =~= os@);
            lemma_fill_orders_props(os@, token0_swapped, token1_swapped, current_time, c0);
        }
        self.orders.set(pool_id as u128, new_orders);
        pool_state.total_orders_executed = counter;
        proof {
            lemma_orders_view_insert(old(self).orders@, pool_id, new_orders);
            assert(final(self)@ =~~= (StateView {
                orders: old(self)@.orders.insert(pool_id, new_orders@),
                ..old(self)@
            }));
        }
        Ok(())
    }

    /// Bring a pool's virtual balances and every order's executed amount
    /// up to date with elapsed time.  Returns `false` when there was
    /// nothing to do, `true` when work was performed; an error leaves the
    /// state exactly as it was.
    pub fn execute_virtual_orders_for_pool(&mut self, pool_id: u64, current_time: u64) -> (r:
        Result<bool, TWAMMError>)
        requires
            old(self).inv(),
        ensures
            final(self).inv(),
            match spec_execute(old(self)@, pool_id, current_time) {
                Ok((v2, did)) => r == Ok::<bool, TWAMMError>(did) && final(self)@ == v2,
                Err(e) => r == Err::<bool, TWAMMError>(e) && *final(self) == *old(self),
            },
    {
        let mut pool_state = self.get_pool_state(pool_id);
        if pool_state.token0_rate == 0 && pool_state.token1_rate == 0
            && pool_state.last_virtual_order_execution_time == current_time {
            return Ok(false);
        }
        if current_time <= pool_state.last_virtual_order_execution_time {
            return Ok(false);
        }
        let time_elapsed: u64 = current_time - pool_state.last_virtual_order_execution_time;
        let token0_to_swap = match safe_mul(pool_state.token0_rate, time_elapsed as u128) {
            Ok(v) => v,
            Err(e) => {
                return Err(e);
            },
        };
        let token1_to_swap = match safe_mul(pool_state.token1_rate, time_elapsed as u128) {
            Ok(v) => v,
            Err(e) => {
                return Err(e);
            },
        };
        let token1_bought = if token0_to_swap != 0 {
            match self.execute_virtual_swap(&mut pool_state, true, token0_to_swap) {
                Ok(v) => v,
                Err(e) => {
                    return Err(e);
                },
            }
        } else {
            0
        };
        let token0_bought = if token1_to_swap != 0 {
            match self.execute_virtual_swap(&mut pool_state, false, token1_to_swap) {
                Ok(v) => v,
                Err(e) => {
                    return Err(e);
                },
            }
        } else {
            0
        };
        match self.update_virtual_balances(
            &mut pool_state,
            token0_to_swap,
            token1_to_swap,
            token0_bought,
            token1_bought,
        ) {
            Ok(u) => u,
            Err(e) => {
                return Err(e);
            },
        };
        pool_state.last_virtual_order_execution_time = current_time;
        match self.update_orders_after_execution(
            pool_id,
            &mut pool_state,
            token0_to_swap,
            token1_to_swap,
            current_time,
        ) {
            Ok(u) => u,
            Err(e) => {
                return Err(e);
            },
        };
        let ghost pools_before = self.pool_states@;
        self.pool_states.set(pool_id as u128, pool_state);
        proof {
            lemma_cast_view_insert(pools_before, pool_id, pool_state);
            assert(self@ =~~= spec_execute(old(self)@, pool_id, current_time)->Ok_0.0);
        }
        Ok(true)
    }
}

} // verus!
