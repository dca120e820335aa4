use studio_commons::cci::{
    audit_entries, clamp_shares, compute_entry_hash, hash_bytes, CCISystem, CciError,
    ContributionType, PeerReview, MAX_HOURS_BITS, MAX_IMPACT_BITS, MIN_REVIEWS,
};
use studio_commons::utils::generate_id;

const MAX_HOURS_PER_ENTRY: f64 = 84.0;

fn review_by(reviewer: u128, score: f64) -> PeerReview {
    PeerReview { reviewer, impact_bits: score.to_bits(), timestamp: 1_700_000_000 }
}

fn reviews(scores: &[f64]) -> Vec<PeerReview> {
    scores.iter().map(|s| review_by(generate_id(), *s)).collect()
}

fn hours(h: f64) -> u64 {
    h.to_bits()
}

#[test]
fn test_hour_cap_enforced() {
    let mut cci = CCISystem::new().unwrap();
    let result = cci.add_contribution(
        generate_id(),
        generate_id(),
        ContributionType::Writing,
        hours(10_000.0),
        reviews(&[0.9, 0.9, 0.9]),
    );
    assert!(result.is_err());
}

#[test]
fn test_no_self_review() {
    let mut cci = CCISystem::new().unwrap();
    let member = generate_id();
    let mut rs = reviews(&[0.9, 0.9]);
    rs.push(review_by(member, 1.0));
    let result =
        cci.add_contribution(member, generate_id(), ContributionType::Sound, hours(10.0), rs);
    assert!(result.is_err());
}

#[test]
fn test_project_contributors_cannot_review_each_other() {
    let mut cci = CCISystem::new().unwrap();
    let alice = generate_id();
    let bob = generate_id();
    let project = generate_id();
    cci.add_contribution(
        alice,
        project,
        ContributionType::Direction,
        hours(50.0),
        reviews(&[0.8, 0.8, 0.8]),
    )
    .unwrap();
    let conflicted = vec![review_by(alice, 1.0)];
    let result =
        cci.add_contribution(bob, project, ContributionType::Sound, hours(20.0), conflicted);
    assert!(result.is_err());
}

#[test]
fn test_ledger_tamper_detection() {
    let mut cci = CCISystem::new().unwrap();
    for _ in 0..3 {
        cci.add_contribution(
            generate_id(),
            generate_id(),
            ContributionType::Technical,
            hours(10.0),
            reviews(&[0.5, 0.5, 0.5]),
        )
        .unwrap();
    }
    assert!(cci.audit().chain_valid);

    // Quietly inflate an early entry's hours in a copy of the ledger.
    let mut ledger = cci.entries().to_vec();
    ledger[0].hours_bits = hours(84.0);
    let report = audit_entries(&ledger);
    assert!(!report.chain_valid);
    assert_eq!(report.first_invalid_entry, Some(ledger[0].id));
}

#[test]
fn attack_nan_hours_rejected() {
    let mut cci = CCISystem::new().unwrap();
    for bad in [f64::NAN, f64::INFINITY, f64::NEG_INFINITY, -1.0, 0.0] {
        assert!(
            cci.add_contribution(
                generate_id(),
                generate_id(),
                ContributionType::Writing,
                hours(bad),
                reviews(&[0.5, 0.5, 0.5]),
            )
            .is_err(),
            "hours {} should be rejected",
            bad
        );
    }
}

#[test]
fn attack_nan_and_out_of_range_impact_rejected() {
    let mut cci = CCISystem::new().unwrap();
    for bad in [f64::NAN, f64::INFINITY, -0.1, 1.1] {
        assert!(
            cci.add_contribution(
                generate_id(),
                generate_id(),
                ContributionType::Writing,
                hours(10.0),
                reviews(&[0.5, 0.5, bad]),
            )
            .is_err(),
            "impact {} should be rejected",
            bad
        );
    }
}

#[test]
fn attack_hour_cap_boundary() {
    let mut cci = CCISystem::new().unwrap();
    assert!(cci
        .add_contribution(
            generate_id(),
            generate_id(),
            ContributionType::Writing,
            hours(MAX_HOURS_PER_ENTRY),
            reviews(&[0.5, 0.5, 0.5]),
        )
        .is_ok());
    assert!(cci
        .add_contribution(
            generate_id(),
            generate_id(),
            ContributionType::Writing,
            hours(MAX_HOURS_PER_ENTRY + 0.0001),
            reviews(&[0.5, 0.5, 0.5]),
        )
        .is_err());
}

#[test]
fn attack_self_review_rejected_via_add_review_too() {
    let mut cci = CCISystem::new().unwrap();
    let member = generate_id();
    let id = cci
        .add_contribution(member, generate_id(), ContributionType::Sound, hours(10.0), reviews(&[0.5]))
        .unwrap();
    let result = cci.add_review(id, review_by(member, 1.0));
    assert!(result.is_err());
}

#[test]
fn attack_double_voting_via_add_review_rejected() {
    let mut cci = CCISystem::new().unwrap();
    let id = cci
        .add_contribution(
            generate_id(),
            generate_id(),
            ContributionType::Sound,
            hours(10.0),
            reviews(&[0.5]),
        )
        .unwrap();
    let reviewer = generate_id();
    assert!(cci.add_review(id, review_by(reviewer, 0.9)).is_ok());
    assert!(cci.add_review(id, review_by(reviewer, 1.0)).is_err());
}

#[test]
fn attack_review_ring_on_shared_project_blocked() {
    let mut cci = CCISystem::new().unwrap();
    let alice = generate_id();
    let bob = generate_id();
    let project = generate_id();
    let a_id = cci
        .add_contribution(alice, project, ContributionType::Direction, hours(40.0), vec![])
        .unwrap();
    let b_id = cci
        .add_contribution(bob, project, ContributionType::Sound, hours(40.0), vec![])
        .unwrap();
    assert!(cci.add_review(a_id, review_by(bob, 1.0)).is_err());
    assert!(cci.add_review(b_id, review_by(alice, 1.0)).is_err());
}

#[test]
fn attack_reordering_entries_detected() {
    let mut cci = CCISystem::new().unwrap();
    for _ in 0..4 {
        cci.add_contribution(
            generate_id(),
            generate_id(),
            ContributionType::Design,
            hours(5.0),
            reviews(&[0.5, 0.5, 0.5]),
        )
        .unwrap();
    }
    assert!(cci.audit().chain_valid);
    let head_before = cci.head_hash();
    cci.add_contribution(
        generate_id(),
        generate_id(),
        ContributionType::Design,
        hours(5.0),
        reviews(&[0.5, 0.5, 0.5]),
    )
    .unwrap();
    assert_ne!(cci.head_hash(), head_before, "head hash must change on append");
    assert!(cci.audit().chain_valid);
}

#[test]
fn attack_truncation_changes_head_hash() {
    let mut a = CCISystem::new().unwrap();
    let member = generate_id();
    let project = generate_id();
    a.add_contribution(member, project, ContributionType::Direction, hours(10.0), reviews(&[0.5, 0.5, 0.5]))
        .unwrap();
    let anchored_head = a.head_hash();
    let anchored_len = a.ledger_len();
    a.add_contribution(member, project, ContributionType::Direction, hours(10.0), reviews(&[0.5, 0.5, 0.5]))
        .unwrap();
    assert_ne!(a.head_hash(), anchored_head);
    assert!(a.ledger_len() > anchored_len);
}

#[test]
fn attack_unknown_contribution_review_rejected() {
    let mut cci = CCISystem::new().unwrap();
    let result = cci.add_review(generate_id(), review_by(generate_id(), 0.5));
    assert!(result.is_err());
}

#[test]
fn each_refusal_names_its_reason() {
    let mut cci = CCISystem::new().unwrap();
    let alice = 1u128;
    let bob = 2u128;
    let project = 100u128;
    assert_eq!(
        cci.add_contribution_with(alice, project, ContributionType::Acting, 0, vec![], 10, 0),
        Err(CciError::HoursOutOfRange)
    );
    assert_eq!(
        cci.add_contribution_with(
            alice,
            project,
            ContributionType::Acting,
            hours(1.0),
            vec![review_by(alice, 0.5)],
            10,
            0
        ),
        Err(CciError::SelfReview)
    );
    assert_eq!(
        cci.add_contribution_with(
            alice,
            project,
            ContributionType::Acting,
            hours(1.0),
            vec![review_by(3, 0.5), review_by(3, 0.6)],
            10,
            0
        ),
        Err(CciError::DuplicateReview(3))
    );
    assert_eq!(
        cci.add_contribution_with(
            alice,
            project,
            ContributionType::Acting,
            hours(1.0),
            vec![review_by(3, 1.5)],
            10,
            0
        ),
        Err(CciError::ImpactOutOfRange)
    );
    assert_eq!(cci.ledger_len(), 0);
    assert_eq!(
        cci.add_contribution_with(alice, project, ContributionType::Acting, hours(1.0), vec![], 10, 0),
        Ok(10)
    );
    assert_eq!(
        cci.add_contribution_with(
            bob,
            project,
            ContributionType::Acting,
            hours(1.0),
            vec![review_by(alice, 0.5)],
            11,
            0
        ),
        Err(CciError::ConflictOfInterest { reviewer: alice, project })
    );
    assert_eq!(cci.add_review(99, review_by(3, 0.5)), Err(CciError::UnknownContribution(99)));
    assert_eq!(cci.add_review(10, review_by(alice, 0.5)), Err(CciError::SelfReview));
    assert_eq!(cci.add_review(10, review_by(3, -0.5)), Err(CciError::ImpactOutOfRange));
    assert_eq!(cci.add_review(10, review_by(3, -0.0)), Ok(()));
    assert_eq!(cci.add_review(10, review_by(3, 0.5)), Err(CciError::DuplicateReview(3)));
}

#[test]
fn under_reviewed_entry_does_not_score() {
    let mut cci = CCISystem::new().unwrap();
    let member = generate_id();
    let project = generate_id();
    let id = cci
        .add_contribution(member, project, ContributionType::Writing, hours(84.0), vec![])
        .unwrap();
    for _ in 0..(MIN_REVIEWS - 1) {
        cci.add_review(id, review_by(generate_id(), 1.0)).unwrap();
        assert!(cci.scored_reviews(0).is_none());
        assert!(cci.scoring_members(project).is_empty());
    }
    cci.add_review(id, review_by(generate_id(), 1.0)).unwrap();
    assert_eq!(cci.scored_reviews(0).unwrap().len(), MIN_REVIEWS);
    assert_eq!(cci.scoring_members(project), vec![member]);
    assert!(cci.audit().chain_valid);
}

#[test]
fn scoring_members_are_sorted_and_distinct() {
    let mut cci = CCISystem::new().unwrap();
    let project = 500u128;
    for (i, member) in [30u128, 10, 20, 10].iter().enumerate() {
        cci.add_contribution_with(
            *member,
            project,
            ContributionType::Editing,
            hours(5.0),
            vec![review_by(1, 0.5), review_by(2, 0.5), review_by(3, 0.5)],
            i as u128 + 1,
            0,
        )
        .unwrap();
    }
    cci.add_contribution_with(40, 501, ContributionType::Editing, hours(5.0), reviews(&[0.5; 3]), 9, 0)
        .unwrap();
    assert_eq!(cci.scoring_members(project), vec![10, 20, 30]);
}

#[test]
fn entries_chain_onto_each_other() {
    let mut cci = CCISystem::default();
    assert_eq!(cci.head_hash(), 0);
    cci.add_contribution_with(1, 2, ContributionType::Other("foley".to_string()), hours(3.0), vec![], 7, 5)
        .unwrap();
    cci.add_contribution_with(1, 2, ContributionType::Community, hours(3.0), vec![], 8, 6)
        .unwrap();
    let entries = cci.entries();
    assert_eq!(entries[0].prev_hash, 0);
    assert_eq!(entries[1].prev_hash, entries[0].entry_hash);
    assert_eq!(entries[1].entry_hash, compute_entry_hash(&entries[1]));
    assert_eq!(cci.head_hash(), entries[1].entry_hash);
    let report = cci.audit();
    assert_eq!(report.entries, 2);
    assert!(report.chain_valid);
    assert_eq!(report.first_invalid_entry, None);

    // Relinking the second entry to a forged predecessor is caught there.
    let mut forged = entries.to_vec();
    forged[1].prev_hash ^= 1;
    let report = audit_entries(&forged);
    assert_eq!(report.first_invalid_entry, Some(8));
}

#[test]
fn hash_bytes_is_fnv1a() {
    // Published FNV-1a 64-bit test vectors.
    assert_eq!(hash_bytes(b"", 0), 0xcbf29ce484222325);
    assert_eq!(hash_bytes(b"a", 0), 0xaf63dc4c8601ec8c);
    assert_eq!(hash_bytes(b"foobar", 0), 0x85944171f73967e8);
    assert_ne!(hash_bytes(b"a", 1), hash_bytes(b"a", 0));
}

#[test]
fn clamping_never_pays_more_than_the_pot() {
    assert_eq!(clamp_shares(100, &[40, 40, 40]), vec![40, 40, 20]);
    assert_eq!(clamp_shares(100, &[10, 20]), vec![10, 20]);
    assert_eq!(clamp_shares(0, &[5]), vec![0]);
    let big = clamp_shares(u128::MAX, &[u128::MAX, u128::MAX]);
    assert_eq!(big, vec![u128::MAX, 0]);
    assert!(clamp_shares(7, &[]).is_empty());
}

#[test]
fn impact_bounds_follow_the_bit_patterns() {
    assert_eq!(MAX_IMPACT_BITS, 1.0f64.to_bits());
    assert_eq!(MAX_HOURS_BITS, 84.0f64.to_bits());
}
