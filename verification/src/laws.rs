//! Engine-wide laws, proved from the spec transitions the operation
//! contracts are stated over.

use vstd::prelude::*;
use crate::errors::TWAMMError;
use crate::hooks::{lemma_execute_frame, spec_execute, spec_update_rates};
use crate::orders::{spec_cancel, spec_claim};
use crate::state::{StateView, TWAMMState};
use crate::types::Order;

verus! {

/// Under the state invariant, every order in every ledger respects the
/// lifecycle bounds: execution never exceeds the committed total and
/// payouts never exceed execution.  Every operation of the engine
/// requires and preserves the invariant, so this holds at every point in
/// an order's life.
pub proof fn lemma_inv_orders_bounded(s: TWAMMState, pool_id: u64, i: int)
    requires
        s.inv(),
        0 <= i < s@.orders_of(pool_id).len(),
    ensures
        s@.orders_of(pool_id)[i].amount_executed <= s@.orders_of(pool_id)[i].amount_total,
        s@.orders_of(pool_id)[i].amount_claimed <= s@.orders_of(pool_id)[i].amount_executed,
{
    assert(s.orders@.contains_key(pool_id as u128));
    assert(s@.orders_of(pool_id)[i].wf());
}

/// Rate recomputation is idempotent: recomputing immediately again, with
/// no time passing and no order change, reproduces the same state —
/// in particular, identical rates.
pub proof fn lemma_update_rates_idempotent(v: StateView, pool_id: u64, now: u64)
    requires
        spec_update_rates(v, pool_id, now) matches Ok(_),
    ensures
        ({
            let v1 = spec_update_rates(v, pool_id, now)->Ok_0;
            spec_update_rates(v1, pool_id, now) == Ok::<StateView, TWAMMError>(v1)
        }),
{
    let v1 = spec_update_rates(v, pool_id, now)->Ok_0;
    let v2 = spec_update_rates(v1, pool_id, now)->Ok_0;
    assert(v2.pools =~= v1.pools);
    assert(v2 =~~= v1);
}

/// A second settlement with no elapsed time is a no-op: it reports that
/// no work was performed and leaves the state exactly as it was.
pub proof fn lemma_execute_twice_same_time(v: StateView, pool_id: u64, now: u64)
    requires
        spec_execute(v, pool_id, now) matches Ok(_),
    ensures
        ({
            let (v1, did) = spec_execute(v, pool_id, now)->Ok_0;
            spec_execute(v1, pool_id, now) == Ok::<(StateView, bool), TWAMMError>((v1, false))
        }),
{
    let (v1, did) = spec_execute(v, pool_id, now)->Ok_0;
    if did {
        assert(v1.pool_of(pool_id).last_virtual_order_execution_time == now);
    }
}

/// A pool's settlement clock never runs backwards.
pub proof fn lemma_execute_time_monotone(v: StateView, pool_id: u64, now: u64)
    requires
        spec_execute(v, pool_id, now) matches Ok(_),
    ensures
        ({
            let (v1, did) = spec_execute(v, pool_id, now)->Ok_0;
            v1.pool_of(pool_id).last_virtual_order_execution_time >= v.pool_of(
                pool_id,
            ).last_virtual_order_execution_time
        }),
{
}

/// A cancellation refunds exactly what the order had not executed at the
/// time of cancellation, i.e. after the forced settlement pass: the
/// refund and the settled executed amount rebuild the committed total.
pub proof fn lemma_cancel_refunds_unexecuted(
    v: StateView,
    pool_id: u64,
    order_id: u64,
    sender: u64,
    now: u64,
)
    requires
        spec_cancel(v, pool_id, order_id, sender, now).1 matches Ok(_),
    ensures
        ({
            let refund = spec_cancel(v, pool_id, order_id, sender, now).1->Ok_0;
            let settled = spec_execute(v, pool_id, now)->Ok_0.0.orders_of(pool_id)[order_id as int];
            refund + settled.amount_executed == settled.amount_total
        }),
{
}

/// A successful claim takes everything there was to take: an immediate
/// second claim by the same owner fails with `NothingToClaim`.
pub proof fn lemma_claim_leaves_nothing_to_claim(
    v: StateView,
    pool_id: u64,
    order_id: u64,
    sender: u64,
    now: u64,
)
    requires
        spec_claim(v, pool_id, order_id, sender, now).1 matches Ok(_),
    ensures
        spec_claim(
            spec_claim(v, pool_id, order_id, sender, now).0,
            pool_id,
            order_id,
            sender,
            now,
        ).1 == Err::<u128, TWAMMError>(TWAMMError::NothingToClaim),
{
    lemma_execute_frame(v, pool_id, now);
    let (v1, did) = spec_execute(v, pool_id, now)->Ok_0;
    let o1 = v1.orders_of(pool_id)[order_id as int];
    let vc = spec_claim(v, pool_id, order_id, sender, now).0;
    assert(vc.orders_of(pool_id)[order_id as int] == (Order {
        amount_claimed: o1.amount_executed,
        ..o1
    }));
    assert(vc.pool_of(pool_id) == v1.pool_of(pool_id));
    if did {
        assert(v1.pool_of(pool_id).last_virtual_order_execution_time == now);
    }
    assert(spec_execute(vc, pool_id, now) == Ok::<(StateView, bool), TWAMMError>((vc, false)));
}

/// Cancellation is terminal: once an order has been cancelled, a second
/// cancellation by its owner fails with `OrderNotActive`, at any later
/// time.
pub proof fn lemma_cancel_is_terminal(
    v: StateView,
    pool_id: u64,
    order_id: u64,
    sender: u64,
    now: u64,
    later: u64,
)
    requires
        spec_cancel(v, pool_id, order_id, sender, now).1 matches Ok(_),
    ensures
        spec_cancel(
            spec_cancel(v, pool_id, order_id, sender, now).0,
            pool_id,
            order_id,
            sender,
            later,
        ).1 == Err::<u128, TWAMMError>(TWAMMError::OrderNotActive),
{
    lemma_execute_frame(v, pool_id, now);
    let (v1, _did) = spec_execute(v, pool_id, now)->Ok_0;
    let o1 = v1.orders_of(pool_id)[order_id as int];
    let v3 = spec_cancel(v, pool_id, order_id, sender, now).0;
    assert(v3.orders_of(pool_id)[order_id as int] == (Order { active: false, ..o1 }));
}

} // verus!
