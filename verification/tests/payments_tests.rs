use studio_commons::payments::{
    PaymentsSystem, FOUNDER_FEE_PERCENTAGE, FOUNDER_XRP_MEMO, FOUNDER_XRP_WALLET,
};
use studio_commons::utils::{Currency, StreamType};

#[test]
fn test_founder_config_immutable() {
    assert_eq!(FOUNDER_XRP_WALLET, "rf82s1CDagppvM6ATqc1nSrL6GackzHJrm");
    assert_eq!(FOUNDER_XRP_MEMO, "2621443948");
    assert_eq!(FOUNDER_FEE_PERCENTAGE as f64, 1.0);
}

#[test]
fn test_xrp_wallet_configured() {
    assert_eq!(FOUNDER_XRP_WALLET, "rf82s1CDagppvM6ATqc1nSrL6GackzHJrm");
    assert_eq!(FOUNDER_XRP_MEMO, "2621443948");
}

#[test]
fn test_founder_fee_calculation() {
    let mut system = PaymentsSystem::new().unwrap();
    let profit = 100000; // $1000.00
    let tx_hash = system.perpetual_founder_fee(profit, Currency::USD).unwrap();

    assert!(tx_hash.contains("XRP_TX_"));
    assert_eq!(system.get_total_founder_fees(), 1000); // 1% of 100000
}

#[test]
fn test_revenue_allocation() {
    let mut system = PaymentsSystem::new().unwrap();
    let allocation = system
        .process_global_revenue(StreamType::Rental, 100000, Currency::USD)
        .unwrap();

    // 1% founder fee = 1000
    // Remaining 99000: 50% members, 30% reinvest, 20% reserves
    assert_eq!(allocation.founder_fee, 1000);
    assert_eq!(allocation.member_distribution, 49500);
    assert_eq!(allocation.reinvestment, 29700);
    // reserves should be the remainder
}

#[test]
fn allocated_fee_is_what_the_founder_receives() {
    let mut s = PaymentsSystem::new().unwrap();
    let al = s.process_global_revenue(StreamType::Rental, 100000, Currency::USD).unwrap();
    assert_eq!(s.get_founder_transactions().len(), 1);
    assert_eq!(s.get_total_founder_fees(), al.founder_fee);
    assert_eq!(al.founder_fee, 1000);
    let zero = s.process_global_revenue(StreamType::Rental, 99, Currency::USD).unwrap();
    assert_eq!(zero.founder_fee, 0);
    assert_eq!(s.get_founder_transactions().len(), 1);
}

#[test]
fn test_verify_founder_config() {
    let (wallet, memo, fee) = PaymentsSystem::verify_founder_config();
    assert_eq!(wallet, "rf82s1CDagppvM6ATqc1nSrL6GackzHJrm");
    assert_eq!(memo, "2621443948");
    assert_eq!(fee as f64, 1.0);
}

#[test]
fn test_get_founder_transactions() {
    let mut system = PaymentsSystem::new().unwrap();
    system.perpetual_founder_fee(100000, Currency::USD).unwrap();
    system.perpetual_founder_fee(50000, Currency::EUR).unwrap();

    let founder_txs = system.get_founder_transactions();
    assert_eq!(founder_txs.len(), 2);
    assert!(founder_txs.iter().all(|tx| tx.wallet_address == FOUNDER_XRP_WALLET));
}

#[test]
fn zero_profit_skips_the_fee() {
    let mut system = PaymentsSystem::default();
    assert_eq!(system.perpetual_founder_fee(0, Currency::XRP).unwrap(), "SKIPPED_ZERO_AMOUNT");
    assert!(system.get_founder_transactions().is_empty());
    assert_eq!(system.get_total_founder_fees(), 0);
}

#[test]
fn allocation_is_exact_with_rounding_dust_in_reserves() {
    let mut system = PaymentsSystem::new().unwrap();
    let a = system
        .process_global_revenue(StreamType::Other("Merch".to_string()), 1_000_003, Currency::USD)
        .unwrap();
    assert_eq!(a.founder_fee, 10_000);
    assert_eq!(a.member_distribution, 495_001);
    assert_eq!(a.reinvestment, 297_000);
    assert_eq!(a.reserves, 198_002);
    assert_eq!(a.founder_fee + a.member_distribution + a.reinvestment + a.reserves, 1_000_003);
    // The allocated fee itself is queued to the founder's wallet.
    assert_eq!(system.get_total_founder_fees(), 10_000);
    assert_eq!(system.get_founder_transactions().len(), 1);
}
