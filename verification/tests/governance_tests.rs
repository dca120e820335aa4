use studio_commons::governance::{
    GovernanceSystem, Proposal, ProposalStatus, ProposalType, GlobalMetrics,
};
use studio_commons::utils::{generate_id, Region};

fn proposal(status: ProposalStatus) -> Proposal {
    Proposal {
        id: generate_id(),
        title: "Test Proposal".to_string(),
        description: "Test".to_string(),
        proposal_type: ProposalType::PolicyChange,
        proposer: generate_id(),
        created_at: 1_700_000_000,
        voting_deadline: 1_700_000_000 + 7 * 86_400,
        status,
    }
}

#[test]
fn test_create_license() {
    let mut gov = GovernanceSystem::new("LA").unwrap();
    let license_id = gov
        .global_auction_license(
            Region::LA,
            12,
            "Studio Collective LA".to_string(),
            1000000,
        )
        .unwrap();

    assert!(gov.get_license(license_id).is_some());
}

#[test]
fn test_voting() {
    let mut gov = GovernanceSystem::new("LA").unwrap();
    let voters = vec![generate_id(), generate_id()];
    let result = gov.multi_vote(proposal(ProposalStatus::Active), voters).unwrap();

    assert!(result.passed);
}

fn metrics(open: f64, wages: f64, sustainability: f64, satisfaction: f64) -> GlobalMetrics {
    GlobalMetrics {
        open_access_score_bits: open.to_bits(),
        fair_wage_compliance_bits: wages.to_bits(),
        sustainability_score_bits: sustainability.to_bits(),
        community_satisfaction_bits: satisfaction.to_bits(),
    }
}

#[test]
fn test_enforce_standards() {
    let mut gov = GovernanceSystem::new("LA").unwrap();
    let license_id = gov
        .global_auction_license(Region::LA, 12, "Test".to_string(), 1000)
        .unwrap();
    let metrics = metrics(100.0, 100.0, 80.0, 90.0);
    let compliant = gov.enforce_global_standards(license_id, metrics).unwrap();
    assert!(compliant);
}

#[test]
fn license_dates_and_standards() {
    let mut gov = GovernanceSystem::new("Berlin").unwrap();
    let id = gov
        .global_auction_license_at(Region::Berlin, 12, "Kollektiv".to_string(), 1000, 5, 1_000)
        .unwrap();
    let l = gov.get_license(id).unwrap();
    assert_eq!(l.end_date, 1_000 + 360 * 86_400);
    assert!(!l.standards_compliant);

    let pass = metrics(95.0, 100.0, 70.0, 0.0);
    assert!(gov.enforce_global_standards(id, pass).unwrap());
    assert!(gov.get_license(id).unwrap().standards_compliant);

    for fail in [
        metrics(94.9, 100.0, 70.0, 100.0),
        metrics(95.0, 99.99, 70.0, 100.0),
        metrics(95.0, 100.0, 69.9, 100.0),
        metrics(f64::NAN, 100.0, 70.0, 100.0),
        metrics(95.0, -100.0, 70.0, 100.0),
    ] {
        assert!(!gov.enforce_global_standards(99, fail).unwrap());
    }
    assert!(gov.enforce_global_standards(99, metrics(f64::INFINITY, 1e9, 100.0, 0.0)).unwrap());

    let fail = metrics(100.0, 99.0, 100.0, 100.0);
    assert!(!gov.enforce_global_standards(id, fail).unwrap());
    assert!(!gov.get_license(id).unwrap().standards_compliant);

    // An unknown license still reports the verdict and changes nothing.
    assert!(gov.enforce_global_standards(99, pass).unwrap());
}

#[test]
fn absurd_license_duration_is_refused() {
    let mut gov = GovernanceSystem::new("LA").unwrap();
    assert!(gov.global_auction_license(Region::LA, u32::MAX, "x".to_string(), 1).is_err());
}

#[test]
fn votes_and_active_proposals() {
    let mut gov = GovernanceSystem::new("LA").unwrap();
    let p = proposal(ProposalStatus::Active);
    let pid = p.id;
    gov.multi_vote(p, vec![]).unwrap();
    gov.multi_vote(proposal(ProposalStatus::Passed), vec![1, 2, 3]).unwrap();
    gov.cast_vote(pid, 7, true, 1.5f64.to_bits()).unwrap();
    let active = gov.get_active_proposals();
    assert_eq!(active.len(), 1);
    assert_eq!(active[0].id, pid);
}

#[test]
fn regional_governance() {
    let gov = GovernanceSystem::new("LA").unwrap();
    let c = gov.adapt_governance(Region::London);
    assert_eq!(c.quorum_percentage, 60);
    assert_eq!(c.voting_period_days, 14);
    assert!(c.requires_kyc);
    assert_eq!(gov.adapt_governance(Region::Mumbai).voting_period_days, 10);
    assert!(!gov.adapt_governance(Region::Lagos).requires_kyc);
}
