use twamm::errors::TWAMMError;
use twamm::state::TWAMMState;
use twamm::types::PoolState;

const POOL: u64 = 1;
const ALICE: u64 = 7;

/// A state whose configuration admits small test orders.
fn setup() -> TWAMMState {
    let mut s = TWAMMState::new();
    s.min_duration = 60;
    s.max_duration = 2_592_000;
    s.execution_interval = 300;
    s.protocol_fee_bps = 10;
    s.bps_denominator = 10_000;
    s.min_order_amount = 1_000;
    s.max_orders_per_user = 10;
    s.max_slippage_bps = 500;
    s
}

#[test]
fn scenario_half_executed_order() {
    let mut s = setup();
    // stamp the pool's settlement clock so elapsed time runs from 1000
    s.execute_virtual_orders_for_pool(POOL, 1000).unwrap();
    let id = s
        .create_order(POOL, ALICE, true, 1_000_000, 3600, Some(1000), 0, 1000)
        .unwrap();
    assert_eq!(id, 0);

    // rate = floor(1_000_000 / 3600) = 277 token0 per unit time
    let ps = s.get_pool_state(POOL);
    assert_eq!(ps.token0_rate, 277);
    assert_eq!(ps.token1_rate, 0);
    assert_eq!(ps.total_orders_created, 1);

    // settle halfway through the window
    assert_eq!(s.execute_virtual_orders_for_pool(POOL, 2800), Ok(true));

    let o = s.get_order(POOL, 0).unwrap();
    // 277 * 1800 = 498_600 notionally swapped, all credited to the order
    assert_eq!(o.amount_executed, 498_600);
    assert!(o.active);
    assert_eq!(o.last_execution_time, 2800);
    assert_eq!(o.amount_claimed, 0);

    let ps = s.get_pool_state(POOL);
    // fee = 498_600 * 10 / 10_000 = 498; the rest was bought as token1
    assert_eq!(ps.protocol_fees_token0, 498);
    assert_eq!(ps.token1_virtual_balance, 498_102);
    assert_eq!(ps.token0_virtual_balance, 0);
    assert_eq!(ps.last_virtual_order_execution_time, 2800);
    // fee conservation, observed through the pool's bookkeeping
    assert_eq!(ps.protocol_fees_token0 + ps.token1_virtual_balance, 498_600);
}

#[test]
fn execute_twice_with_no_elapsed_time_is_a_noop() {
    let mut s = setup();
    // stamp the pool's settlement clock so elapsed time runs from 1000
    s.execute_virtual_orders_for_pool(POOL, 1000).unwrap();
    s.create_order(POOL, ALICE, true, 1_000_000, 3600, Some(1000), 0, 1000)
        .unwrap();
    assert_eq!(s.execute_virtual_orders_for_pool(POOL, 2800), Ok(true));
    let pool_before = s.get_pool_state(POOL);
    let order_before = s.get_order(POOL, 0).unwrap();

    assert_eq!(s.execute_virtual_orders_for_pool(POOL, 2800), Ok(false));

    assert_eq!(s.get_pool_state(POOL), pool_before);
    assert_eq!(s.get_order(POOL, 0).unwrap(), order_before);
}

#[test]
fn execute_on_untouched_pool() {
    let mut s = setup();
    // zero rates and a matching timestamp: nothing to do
    assert_eq!(s.execute_virtual_orders_for_pool(42, 0), Ok(false));
    // zero rates but elapsed time: only the settlement clock advances
    assert_eq!(s.execute_virtual_orders_for_pool(42, 5), Ok(true));
    let ps = s.get_pool_state(42);
    assert_eq!(ps.last_virtual_order_execution_time, 5);
    assert_eq!(ps.token0_virtual_balance, 0);
    assert_eq!(ps.token1_virtual_balance, 0);
    assert_eq!(s.execute_virtual_orders_for_pool(42, 5), Ok(false));
}

#[test]
fn update_rates_is_idempotent() {
    let mut s = setup();
    // stamp the pool's settlement clock so elapsed time runs from 1000
    s.execute_virtual_orders_for_pool(POOL, 1000).unwrap();
    s.create_order(POOL, ALICE, true, 1_000_000, 3600, Some(1000), 0, 1000)
        .unwrap();
    s.create_order(POOL, ALICE, false, 720_000, 7200, Some(1000), 0, 1000)
        .unwrap();

    assert_eq!(s.update_virtual_order_rates(POOL, 1000), Ok(()));
    let first = s.get_pool_state(POOL);
    assert_eq!(s.update_virtual_order_rates(POOL, 1000), Ok(()));
    let second = s.get_pool_state(POOL);

    assert_eq!(first.token0_rate, 277);
    assert_eq!(first.token1_rate, 100);
    assert_eq!(second.token0_rate, first.token0_rate);
    assert_eq!(second.token1_rate, first.token1_rate);
    assert_eq!(second, first);
}

#[test]
fn rates_exclude_expired_and_inactive_orders() {
    let mut s = setup();
    // stamp the pool's settlement clock so elapsed time runs from 1000
    s.execute_virtual_orders_for_pool(POOL, 1000).unwrap();
    s.create_order(POOL, ALICE, true, 1_000_000, 3600, Some(1000), 0, 1000)
        .unwrap();
    // past the window's end the order demands nothing
    assert_eq!(s.update_virtual_order_rates(POOL, 5000), Ok(()));
    assert_eq!(s.get_pool_state(POOL).token0_rate, 0);
}

#[test]
fn each_order_is_credited_against_the_whole_tick() {
    // Documents the allocation quirk kept for compatibility: orders in
    // one direction are not handed shares of the swapped total; each is
    // credited up to the whole of it.
    let mut s = setup();
    s.execute_virtual_orders_for_pool(POOL, 1000).unwrap();
    s.create_order(POOL, ALICE, true, 5_000, 3600, Some(1000), 0, 1000).unwrap();
    s.create_order(POOL, ALICE, true, 5_000, 3600, Some(1000), 0, 1000).unwrap();
    // each order demands 1 per unit time, so the tick swaps 2 * 1800
    assert_eq!(s.execute_virtual_orders_for_pool(POOL, 2800), Ok(true));
    assert_eq!(s.get_order(POOL, 0).unwrap().amount_executed, 3_600);
    assert_eq!(s.get_order(POOL, 1).unwrap().amount_executed, 3_600);
}

#[test]
fn rate_dust_stays_below_one_unit_per_time_unit() {
    let mut s = setup();
    s.create_order(POOL, ALICE, true, 1_000_000, 3600, Some(1000), 0, 1000)
        .unwrap();
    let rate = s.get_pool_state(POOL).token0_rate;
    // floored rate under-accrues by less than one unit per time unit
    let covered = rate * 3600;
    assert!(covered <= 1_000_000);
    assert!(1_000_000 - covered < 3600);
}

#[test]
fn virtual_swap_takes_and_conserves_the_fee() {
    let s = setup();
    let mut ps = PoolState::default();
    let out = s.execute_virtual_swap(&mut ps, true, 10_000).unwrap();
    assert_eq!(out, 9_990);
    assert_eq!(ps.protocol_fees_token0, 10);
    assert_eq!(ps.protocol_fees_token1, 0);
    assert_eq!(out + ps.protocol_fees_token0, 10_000);

    let out = s.execute_virtual_swap(&mut ps, false, 999).unwrap();
    // 999 * 10 / 10_000 floors to 0: no fee on dust
    assert_eq!(out, 999);
    assert_eq!(ps.protocol_fees_token1, 0);
}

#[test]
fn virtual_swap_rejects_zero_denominator() {
    let mut s = setup();
    s.bps_denominator = 0;
    let mut ps = PoolState::default();
    assert_eq!(
        s.execute_virtual_swap(&mut ps, true, 10_000),
        Err(TWAMMError::DivisionByZero)
    );
    assert_eq!(ps, PoolState::default());
}

#[test]
fn balance_update_clamps_at_zero() {
    let s = setup();
    let mut ps = PoolState::default();
    ps.token0_virtual_balance = 100;
    // spend 500 of token0 against a balance of 100, buy 300 of token1
    assert_eq!(s.update_virtual_balances(&mut ps, 500, 0, 0, 300), Ok(()));
    assert_eq!(ps.token0_virtual_balance, 0);
    assert_eq!(ps.token1_virtual_balance, 300);
}
