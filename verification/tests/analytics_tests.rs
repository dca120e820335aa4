use studio_commons::analytics::{AnalyticsSystem, GlobalMetrics};

fn snapshot(revenue: u128) -> GlobalMetrics {
    GlobalMetrics {
        total_members: 100,
        total_projects: 10,
        revenue_usd: revenue,
        carbon_offset_tons_bits: 10.0f64.to_bits(),
        timestamp: 1_700_000_000,
    }
}

#[test]
fn test_metrics_recording() {
    let mut analytics = AnalyticsSystem::new().unwrap();
    analytics.record_metrics(snapshot(100000));
    assert_eq!(analytics.get_trends(usize::MAX).len(), 1);
}

#[test]
fn trends_are_the_latest_snapshots_in_order() {
    let mut analytics = AnalyticsSystem::default();
    for revenue in [10u128, 20, 30, 40] {
        analytics.record_metrics(snapshot(revenue));
    }
    let last_two: Vec<u128> = analytics.get_trends(2).iter().map(|m| m.revenue_usd).collect();
    assert_eq!(last_two, vec![30, 40]);
    assert_eq!(analytics.get_trends(10).len(), 4);
    assert!(analytics.get_trends(0).is_empty());
}

#[test]
fn growth_needs_two_snapshots() {
    let mut analytics = AnalyticsSystem::default();
    assert_eq!(analytics.growth_endpoints(), None);
    analytics.record_metrics(snapshot(100));
    assert_eq!(analytics.growth_endpoints(), None);
    analytics.record_metrics(snapshot(150));
    analytics.record_metrics(snapshot(300));
    assert_eq!(analytics.growth_endpoints(), Some((100, 300)));
}
