use studio_commons::membership::{DuesPeriod, MembershipSystem, MembershipTier};
use studio_commons::utils::{generate_id, Currency, Region};

#[test]
fn test_global_join() {
    let mut membership = MembershipSystem::new("LA").unwrap();

    let member_id = membership
        .global_join("Test User".to_string(), 5000, Region::LA)
        .unwrap();

    assert!(membership.get_member(member_id).is_some());
}

#[test]
fn test_cross_hub_transfer() {
    let mut membership = MembershipSystem::new("LA").unwrap();

    let member_id = membership
        .global_join("Test User".to_string(), 5000, Region::LA)
        .unwrap();

    let from_hub = generate_id();
    let to_hub = generate_id();

    let updated = membership
        .cross_hub_transfer(member_id, from_hub, to_hub)
        .unwrap();

    assert_eq!(updated.home_hub, to_hub);
}

#[test]
fn test_dues_structure() {
    let membership = MembershipSystem::new("LA").unwrap();

    let dues_us = membership.get_dues_structure(Region::LA);
    assert_eq!(dues_us.currency, Currency::USD);

    let dues_india = membership.get_dues_structure(Region::Mumbai);
    assert_eq!(dues_india.currency, Currency::INR);
}

#[test]
fn test_tier_upgrade() {
    let mut membership = MembershipSystem::new("LA").unwrap();

    let member_id = membership
        .global_join("Test User".to_string(), 5000, Region::LA)
        .unwrap();

    membership.upgrade_tier(member_id, MembershipTier::Professional).unwrap();

    let member = membership.get_member(member_id).unwrap();
    assert_eq!(member.membership_tier, MembershipTier::Professional);
}

#[test]
fn join_gives_portable_id_and_basic_tier() {
    let mut m = MembershipSystem::default();
    let id = 0x67e5504410b1426f9247bb680e5fe0c8u128;
    let hub = 7u128;
    m.global_join_with("Ada".to_string(), Region::Berlin, id, hub, 1_700_000_000).unwrap();
    let member = m.get_member(id).unwrap();
    assert_eq!(member.portable_id, "SC-67e55044-10b1-426f-9247-bb680e5fe0c8");
    assert_eq!(member.membership_tier, MembershipTier::Basic);
    assert_eq!(member.home_hub, hub);
    assert_eq!(member.join_date, 1_700_000_000);
    // Joining again under the same id replaces the member.
    m.global_join_with("Ada L.".to_string(), Region::London, id, hub, 1_700_000_001).unwrap();
    assert_eq!(m.get_all_members().len(), 1);
    assert_eq!(m.get_member(id).unwrap().name, "Ada L.");
}

#[test]
fn unknown_member_errors_and_history_is_filtered() {
    let mut m = MembershipSystem::new("NYC").unwrap();
    assert!(m.cross_hub_transfer(42, 1, 2).is_err());
    assert!(m.upgrade_tier(42, MembershipTier::Steward).is_err());
    let a = m.global_join("A".to_string(), 5000, Region::NYC).unwrap();
    let b = m.global_join("B".to_string(), 5000, Region::NYC).unwrap();
    m.cross_hub_transfer_at(a, 1, 2, 10).unwrap();
    m.cross_hub_transfer_at(b, 1, 3, 11).unwrap();
    m.cross_hub_transfer_at(a, 2, 4, 12).unwrap();
    let history = m.get_transfer_history(a);
    assert_eq!(history.len(), 2);
    assert_eq!(history[0].to_hub, 2);
    assert_eq!(history[1].to_hub, 4);
    assert_eq!(history[1].reason, "Hub relocation");
    assert_eq!(m.get_member(a).unwrap().home_hub, 4);
}

#[test]
fn dues_by_region() {
    let m = MembershipSystem::default();
    let d = m.get_dues_structure(Region::Mumbai);
    assert_eq!(d.amount, 200000);
    assert_eq!(d.period, DuesPeriod::Monthly);
    assert_eq!(m.get_dues_structure(Region::London).amount, 4500);
    assert_eq!(m.get_dues_structure(Region::Tokyo).amount, 5000);
}
