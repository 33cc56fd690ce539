use twamm::errors::TWAMMError;
use twamm::state::TWAMMState;

const POOL: u64 = 1;
const ALICE: u64 = 7;
const BOB: u64 = 8;

/// A state whose configuration admits small test orders.
fn setup() -> TWAMMState {
    let mut s = TWAMMState::new();
    s.min_duration = 60;
    s.max_duration = 2_592_000;
    s.execution_interval = 300;
    s.protocol_fee_bps = 10;
    s.bps_denominator = 10_000;
    s.min_order_amount = 1_000;
    s.max_orders_per_user = 10;
    s.max_slippage_bps = 500;
    s
}

#[test]
fn create_rejects_bad_durations() {
    let mut s = setup();
    assert_eq!(
        s.create_order(POOL, ALICE, true, 5_000, 59, Some(1000), 0, 1000),
        Err(TWAMMError::InvalidDuration)
    );
    assert_eq!(
        s.create_order(POOL, ALICE, true, 5_000, 2_592_001, Some(1000), 0, 1000),
        Err(TWAMMError::InvalidDuration)
    );
}

#[test]
fn create_rejects_small_amounts() {
    let mut s = setup();
    assert_eq!(
        s.create_order(POOL, ALICE, true, 999, 3600, Some(1000), 0, 1000),
        Err(TWAMMError::InvalidAmount)
    );
}

#[test]
fn create_enforces_the_per_user_order_cap() {
    let mut s = setup();
    s.max_orders_per_user = 2;
    assert!(s.create_order(POOL, ALICE, true, 5_000, 3600, Some(1000), 0, 1000).is_ok());
    assert!(s.create_order(POOL, ALICE, true, 5_000, 3600, Some(1000), 0, 1000).is_ok());
    assert_eq!(
        s.create_order(POOL, ALICE, true, 5_000, 3600, Some(1000), 0, 1000),
        Err(TWAMMError::MaxOrdersReached)
    );
    // the cap is per (user, pool): another user and another pool both fit
    assert!(s.create_order(POOL, BOB, true, 5_000, 3600, Some(1000), 0, 1000).is_ok());
    assert!(s.create_order(2, ALICE, true, 5_000, 3600, Some(1000), 0, 1000).is_ok());
}

#[test]
fn create_assigns_sequential_identifiers() {
    let mut s = setup();
    assert_eq!(s.create_order(POOL, ALICE, true, 5_000, 3600, Some(1000), 0, 1000), Ok(0));
    assert_eq!(s.create_order(POOL, BOB, false, 6_000, 7200, None, 0, 1500), Ok(1));

    let first = s.get_order(POOL, 0).unwrap();
    assert_eq!(first.id, 0);
    assert_eq!(first.owner, ALICE);
    assert_eq!(first.pool_id, POOL);
    assert!(first.zero_for_one);
    assert_eq!(first.amount_total, 5_000);
    assert_eq!(first.amount_executed, 0);
    assert_eq!(first.amount_claimed, 0);
    assert_eq!(first.start_time, 1000);
    assert_eq!(first.end_time, 4600);
    assert!(first.active);

    // an omitted start time resolves to the current time
    let second = s.get_order(POOL, 1).unwrap();
    assert_eq!(second.start_time, 1500);
    assert_eq!(second.end_time, 8700);
    assert!(!second.zero_for_one);
}

#[test]
fn get_order_rejects_unknown_identifiers() {
    let mut s = setup();
    assert_eq!(s.get_order(POOL, 0), Err(TWAMMError::InvalidOrder));
    s.create_order(POOL, ALICE, true, 5_000, 3600, Some(1000), 0, 1000).unwrap();
    assert_eq!(s.get_order(POOL, 1), Err(TWAMMError::InvalidOrder));
    assert_eq!(s.get_order(99, 0), Err(TWAMMError::InvalidOrder));
}

#[test]
fn cancel_refunds_exactly_what_was_not_executed() {
    let mut s = setup();
    // stamp the pool's settlement clock so elapsed time runs from 1000
    s.execute_virtual_orders_for_pool(POOL, 1000).unwrap();
    s.create_order(POOL, ALICE, true, 1_000_000, 3600, Some(1000), 0, 1000)
        .unwrap();
    // cancelling halfway settles first: 277 * 1800 = 498_600 executed
    assert_eq!(s.cancel_order(POOL, 0, ALICE, 2800), Ok(501_400));

    let o = s.get_order(POOL, 0).unwrap();
    assert!(!o.active);
    assert_eq!(o.amount_executed, 498_600);

    let ps = s.get_pool_state(POOL);
    assert_eq!(ps.total_orders_cancelled, 1);
    // the cancelled order no longer demands flow
    assert_eq!(ps.token0_rate, 0);

    // cancellation is terminal
    assert_eq!(s.cancel_order(POOL, 0, ALICE, 2900), Err(TWAMMError::OrderNotActive));
}

#[test]
fn cancel_checks_ownership_and_existence() {
    let mut s = setup();
    assert_eq!(s.cancel_order(POOL, 0, ALICE, 1000), Err(TWAMMError::InvalidOrder));
    s.create_order(POOL, ALICE, true, 5_000, 3600, Some(1000), 0, 1000).unwrap();
    assert_eq!(s.cancel_order(POOL, 1, ALICE, 1000), Err(TWAMMError::InvalidOrder));
    assert_eq!(s.cancel_order(POOL, 0, BOB, 1000), Err(TWAMMError::Unauthorized));
}

#[test]
fn claim_pays_out_once() {
    let mut s = setup();
    // stamp the pool's settlement clock so elapsed time runs from 1000
    s.execute_virtual_orders_for_pool(POOL, 1000).unwrap();
    s.create_order(POOL, ALICE, true, 1_000_000, 3600, Some(1000), 0, 1000)
        .unwrap();
    // the claim settles first, so it observes 498_600 executed
    assert_eq!(s.claim_proceeds(POOL, 0, ALICE, 2800), Ok(498_600));
    let o = s.get_order(POOL, 0).unwrap();
    assert_eq!(o.amount_claimed, 498_600);
    assert_eq!(o.amount_executed, 498_600);

    // nothing further accrued: a second claim at the same time fails
    assert_eq!(s.claim_proceeds(POOL, 0, ALICE, 2800), Err(TWAMMError::NothingToClaim));
}

#[test]
fn claim_with_nothing_executed_fails() {
    let mut s = setup();
    // the order only starts at 2000, so nothing has executed at 1500
    s.create_order(POOL, ALICE, true, 1_000_000, 3600, Some(2000), 0, 1000)
        .unwrap();
    assert_eq!(s.claim_proceeds(POOL, 0, ALICE, 1500), Err(TWAMMError::NothingToClaim));
}

#[test]
fn claim_checks_ownership_and_existence() {
    let mut s = setup();
    assert_eq!(s.claim_proceeds(POOL, 0, ALICE, 1000), Err(TWAMMError::InvalidOrder));
    s.create_order(POOL, ALICE, true, 5_000, 3600, Some(1000), 0, 1000).unwrap();
    assert_eq!(s.claim_proceeds(POOL, 1, ALICE, 1000), Err(TWAMMError::InvalidOrder));
    assert_eq!(s.claim_proceeds(POOL, 0, BOB, 1000), Err(TWAMMError::Unauthorized));
}

#[test]
fn claim_is_allowed_on_inactive_orders() {
    let mut s = setup();
    // stamp the pool's settlement clock so elapsed time runs from 1000
    s.execute_virtual_orders_for_pool(POOL, 1000).unwrap();
    s.create_order(POOL, ALICE, true, 1_000_000, 3600, Some(1000), 0, 1000)
        .unwrap();
    assert_eq!(s.cancel_order(POOL, 0, ALICE, 2800), Ok(501_400));
    // proceeds of the executed half can still be collected
    assert_eq!(s.claim_proceeds(POOL, 0, ALICE, 2800), Ok(498_600));
}

#[test]
fn initialize_sets_the_default_configuration() {
    let mut s = TWAMMState::new();
    s.initialize(ALICE);
    assert_eq!(s.min_duration, 600);
    assert_eq!(s.max_duration, 2_592_000);
    assert_eq!(s.execution_interval, 300);
    assert_eq!(s.protocol_fee_bps, 10);
    assert_eq!(s.bps_denominator, 10_000);
    assert_eq!(s.min_order_amount, 10_000_000_000_000_000);
    assert_eq!(s.max_orders_per_user, 10);
    assert_eq!(s.max_slippage_bps, 500);
    assert!(s.is_authorized(ALICE));
    assert!(!s.is_authorized(BOB));
}

#[test]
fn operator_management_requires_authorization() {
    let mut s = TWAMMState::new();
    s.initialize(ALICE);
    assert_eq!(s.add_authorized_operator(BOB, BOB), Err(TWAMMError::Unauthorized));
    assert_eq!(s.add_authorized_operator(ALICE, BOB), Ok(()));
    assert!(s.is_authorized(BOB));
    assert_eq!(s.remove_authorized_operator(ALICE, BOB), Ok(()));
    assert!(!s.is_authorized(BOB));
    assert_eq!(s.remove_authorized_operator(BOB, ALICE), Err(TWAMMError::Unauthorized));
}

#[test]
fn analytics_track_volume_and_running_averages() {
    let mut s = setup();
    s.create_order(POOL, ALICE, true, 1_000, 600, Some(1000), 0, 1000).unwrap();
    let a = s.get_pool_analytics(POOL);
    assert_eq!(a.total_volume_token0, 1_000);
    assert_eq!(a.total_volume_token1, 0);
    assert_eq!(a.average_order_size, 1_000);
    assert_eq!(a.average_order_duration, 600);
    assert_eq!(a.last_update_timestamp, 1000);

    s.create_order(POOL, ALICE, false, 3_000, 1200, Some(1100), 0, 1100).unwrap();
    let a = s.get_pool_analytics(POOL);
    assert_eq!(a.total_volume_token0, 1_000);
    assert_eq!(a.total_volume_token1, 3_000);
    assert_eq!(a.average_order_size, 2_000);
    assert_eq!(a.average_order_duration, 900);
    assert_eq!(a.last_update_timestamp, 1100);
    assert_eq!(a.total_fees_collected, 0);
}
