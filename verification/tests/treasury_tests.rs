use studio_commons::treasury::{Protocol, TreasurySystem};
use studio_commons::utils::Currency;

#[test]
fn test_deploy_to_defi() {
    let mut treasury = TreasurySystem::new().unwrap();
    let id = treasury
        .deploy_multi_currency(500000, Protocol::Aave, Currency::USD)
        .unwrap();
    assert_eq!(treasury.get_positions().len(), 1);
    assert_eq!(treasury.get_positions()[0].id, id);
}

#[test]
fn test_profit_distribution() {
    let treasury = TreasurySystem::new().unwrap();
    let payouts = treasury.global_distribute(100000).unwrap();
    assert!(!payouts.is_empty());
}

#[test]
fn protocols_earn_their_rates() {
    let mut t = TreasurySystem::default();
    t.deploy_multi_currency_with(1, Protocol::Aave, Currency::USD, 1, 0).unwrap();
    t.deploy_multi_currency_with(1, Protocol::Compound, Currency::USD, 2, 0).unwrap();
    t.deploy_multi_currency_with(1, Protocol::YearnFinance, Currency::USD, 3, 0).unwrap();
    t.deploy_multi_currency_with(1, Protocol::Custom("x".to_string()), Currency::USD, 4, 0)
        .unwrap();
    let rates: Vec<u32> = t.get_positions().iter().map(|p| p.apy_bps).collect();
    assert_eq!(rates, vec![450, 520, 600, 400]);
}

#[test]
fn deploying_draws_the_balance_down_to_zero_at_most() {
    let mut t = TreasurySystem::new().unwrap();
    assert_eq!(t.balance(Currency::USD), 0);
    assert_eq!(
        t.deploy_multi_currency_with(500, Protocol::Aave, Currency::EUR, 9, 100),
        Ok(9)
    );
    assert_eq!(t.balance(Currency::EUR), 0);
    assert_eq!(t.get_positions()[0].start_date, 100);
    assert_eq!(t.get_positions()[0].amount, 500);
}

#[test]
fn profits_split_one_percent_then_half_to_members() {
    let t = TreasurySystem::new().unwrap();
    let payouts = t.global_distribute_with(100_000, 1, 2, 77).unwrap();
    assert_eq!(payouts.len(), 2);
    assert_eq!(payouts[0].member_id, 1);
    assert_eq!(payouts[1].member_id, 2);
    // 1% fee leaves 99_000; members get half, shared by two.
    assert_eq!(payouts[0].amount, 24_750);
    assert_eq!(payouts[1].amount, 24_750);
    assert_eq!(payouts[0].currency, Currency::USD);
    assert_eq!(payouts[0].reason, "Profit distribution");
    assert_eq!(payouts[1].timestamp, 77);
    let small = t.global_distribute_with(99, 1, 2, 0).unwrap();
    assert_eq!(small[0].amount, 24);
}

#[test]
fn tvl_sums_positions_per_currency() {
    let mut t = TreasurySystem::new().unwrap();
    t.deploy_multi_currency_with(100, Protocol::Aave, Currency::USD, 1, 0).unwrap();
    t.deploy_multi_currency_with(50, Protocol::Compound, Currency::XRP, 2, 0).unwrap();
    t.deploy_multi_currency_with(25, Protocol::Aave, Currency::USD, 3, 0).unwrap();
    assert_eq!(t.get_tvl(), vec![(Currency::USD, 125), (Currency::XRP, 50)]);
    assert!(TreasurySystem::new().unwrap().get_tvl().is_empty());
}

#[test]
fn only_the_first_carbon_record_is_net_zero() {
    let mut t = TreasurySystem::new().unwrap();
    let energy = 10_000.0f64;
    let tons = energy * 0.0004;
    let first = t.record_carbon(energy.to_bits(), tons.to_bits(), tons.to_bits()).unwrap();
    let second = t.record_carbon(energy.to_bits(), tons.to_bits(), tons.to_bits()).unwrap();
    assert!(first.net_zero_achieved);
    assert!(!second.net_zero_achieved);
    assert_eq!(f64::from_bits(first.carbon_tons_bits), tons);
    assert_eq!(t.carbon_records().len(), 2);
}
