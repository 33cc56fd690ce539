//! The engine's data model: orders, per-pool aggregate state, and derived
//! analytics.
//!
//! Token amounts, rates, balances, fees and counters are `u128`; block
//! timestamps and durations are `u64`.  Pool identifiers, addresses and
//! order identifiers are plain `u64` values: the engine only ever compares
//! them for equality, so any injective encoding chosen by the host works.

use vstd::prelude::*;

verus! {

/// One user's streamed trade.
///
/// The committed total, window boundaries and direction are immutable
/// after creation; the execution engine advances `amount_executed` and
/// `last_execution_time`, and the claim and cancel operations advance
/// `amount_claimed` and clear `active`.  Orders are never deleted: a
/// cancelled or fully claimed order remains in the ledger as a historical
/// record.
#[derive(Debug, Clone, Copy, PartialEq, Eq, Structural)]
pub struct Order {
    pub id: u64,
    pub pool_id: u64,
    pub owner: u64,
    /// `true`: selling token0 for token1; `false`: the reverse.
    pub zero_for_one: bool,
    /// Committed input amount.
    pub amount_total: u128,
    /// Cumulative amount converted so far.
    pub amount_executed: u128,
    /// Cumulative amount paid out so far.
    pub amount_claimed: u128,
    pub start_time: u64,
    pub end_time: u64,
    pub last_execution_time: u64,
    /// Informational cadence; not enforced as a hard gate by the engine.
    pub execution_interval: u64,
    /// Slippage floor; currently advisory.
    pub min_amount_out: u128,
    pub active: bool,
}

impl Order {
    /// The order invariant: execution never exceeds the committed total,
    /// payouts never exceed execution, and the window is well formed.
    pub open spec fn wf(self) -> bool {
        &&& self.amount_executed <= self.amount_total
        &&& self.amount_claimed <= self.amount_executed
        &&& self.start_time <= self.end_time
    }

    /// The all-zero order.
    pub open spec fn spec_default() -> Order {
        Order {
            id: 0,
            pool_id: 0,
            owner: 0,
            zero_for_one: false,
            amount_total: 0,
            amount_executed: 0,
            amount_claimed: 0,
            start_time: 0,
            end_time: 0,
            last_execution_time: 0,
            execution_interval: 0,
            min_amount_out: 0,
            active: false,
        }
    }
}

impl Default for Order {
    fn default() -> (r: Order)
        ensures
            r == Order::spec_default(),
    {
        Order {
            id: 0,
            pool_id: 0,
            owner: 0,
            zero_for_one: false,
            amount_total: 0,
            amount_executed: 0,
            amount_claimed: 0,
            start_time: 0,
            end_time: 0,
            last_execution_time: 0,
            execution_interval: 0,
            min_amount_out: 0,
            active: false,
        }
    }
}

/// Per-pool aggregate state: virtual balances pending claim, the current
/// aggregate flow rates in each direction, accrued protocol fees and
/// lifetime counters.  An unseen pool reads as the all-zero state.
#[derive(Debug, Clone, Copy, PartialEq, Eq, Structural)]
pub struct PoolState {
    pub last_virtual_order_execution_time: u64,
    pub token0_virtual_balance: u128,
    pub token1_virtual_balance: u128,
    /// Aggregate demand, token0 per unit time, across active orders
    /// selling token0.
    pub token0_rate: u128,
    pub token1_rate: u128,
    pub protocol_fees_token0: u128,
    pub protocol_fees_token1: u128,
    pub total_orders_created: u128,
    pub total_orders_executed: u128,
    pub total_orders_cancelled: u128,
}

impl PoolState {
    /// The all-zero pool state, i.e. what an untouched pool reads as.
    pub open spec fn spec_default() -> PoolState {
        PoolState {
            last_virtual_order_execution_time: 0,
            token0_virtual_balance: 0,
            token1_virtual_balance: 0,
            token0_rate: 0,
            token1_rate: 0,
            protocol_fees_token0: 0,
            protocol_fees_token1: 0,
            total_orders_created: 0,
            total_orders_executed: 0,
            total_orders_cancelled: 0,
        }
    }
}

impl Default for PoolState {
    fn default() -> (r: PoolState)
        ensures
            r == PoolState::spec_default(),
    {
        PoolState {
            last_virtual_order_execution_time: 0,
            token0_virtual_balance: 0,
            token1_virtual_balance: 0,
            token0_rate: 0,
            token1_rate: 0,
            protocol_fees_token0: 0,
            protocol_fees_token1: 0,
            total_orders_created: 0,
            total_orders_executed: 0,
            total_orders_cancelled: 0,
        }
    }
}

/// Derived per-pool statistics, updated as a side effect of order
/// creation and read-only everywhere else.
#[derive(Debug, Clone, Copy, PartialEq, Eq, Structural)]
pub struct PoolAnalytics {
    pub total_volume_token0: u128,
    pub total_volume_token1: u128,
    pub total_fees_collected: u128,
    pub average_order_size: u128,
    pub average_order_duration: u128,
    pub last_update_timestamp: u64,
}

impl PoolAnalytics {
    /// The all-zero analytics record.
    pub open spec fn spec_default() -> PoolAnalytics {
        PoolAnalytics {
            total_volume_token0: 0,
            total_volume_token1: 0,
            total_fees_collected: 0,
            average_order_size: 0,
            average_order_duration: 0,
            last_update_timestamp: 0,
        }
    }
}

impl Default for PoolAnalytics {
    fn default() -> (r: PoolAnalytics)
        ensures
            r == PoolAnalytics::spec_default(),
    {
        PoolAnalytics {
            total_volume_token0: 0,
            total_volume_token1: 0,
            total_fees_collected: 0,
            average_order_size: 0,
            average_order_duration: 0,
            last_update_timestamp: 0,
        }
    }
}

/// Every order in a ledger satisfies the order invariant.
pub open spec fn orders_wf(orders: Seq<Order>) -> bool {
    forall|i: int| 0 <= i < orders.len() ==> (#[trigger] orders[i]).wf()
}

} // verus!
