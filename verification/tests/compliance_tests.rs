use studio_commons::compliance::{Action, ComplianceSystem};
use studio_commons::utils::Region;

#[test]
fn test_gdpr_compliance() {
    let compliance = ComplianceSystem::new("Berlin").unwrap();

    let result = compliance
        .check_jurisdiction(Region::Berlin, Action::DataCollection)
        .unwrap();

    assert!(result.requirements.iter().any(|r| r.contains("GDPR")));
}

#[test]
fn test_us_compliance() {
    let compliance = ComplianceSystem::new("LA").unwrap();

    let result = compliance
        .check_jurisdiction(Region::LA, Action::DataCollection)
        .unwrap();

    assert!(result.requirements.iter().any(|r| r.contains("CCPA") || r.contains("IRS")));
}

#[test]
fn test_union_integration() {
    let compliance = ComplianceSystem::new("LA").unwrap();

    let rules = compliance.union_integrate(Region::LA).unwrap();

    assert!(rules.mandatory);
    assert!(!rules.unions.is_empty());
}

#[test]
fn test_wage_scales() {
    let compliance = ComplianceSystem::new("LA").unwrap();

    let scale_us = compliance.get_wage_scale(Region::LA);
    assert_eq!(scale_us.minimum_hourly, 2000);

    let scale_india = compliance.get_wage_scale(Region::Mumbai);
    assert_eq!(scale_india.minimum_hourly, 30000);
}

#[test]
fn test_gdpr_verification() {
    let compliance_eu = ComplianceSystem::new("Berlin").unwrap();
    assert!(compliance_eu.verify_gdpr());

    let compliance_us = ComplianceSystem::new("LA").unwrap();
    assert!(!compliance_us.verify_gdpr());
}

#[test]
fn jurisdiction_lists_exactly() {
    let c = ComplianceSystem::new("LA").unwrap();
    let r = c.check_jurisdiction(Region::London, Action::DataStorage).unwrap();
    assert_eq!(r.action, "DataStorage");
    assert!(r.compliant);
    assert_eq!(
        r.requirements,
        vec![
            "GDPR data protection requirements",
            "Right to be forgotten implementation",
            "Data sovereignty (EU servers)",
            "Explicit consent required",
            "Privacy impact assessment",
        ]
    );
    assert!(r.warnings.is_empty());

    let r = c.check_jurisdiction(Region::Mumbai, Action::Payment).unwrap();
    assert_eq!(r.requirements.len(), 3);
    assert_eq!(r.requirements[2], "RBI payment guidelines");

    let r = c.check_jurisdiction(Region::NYC, Action::EmploymentContract).unwrap();
    assert_eq!(r.requirements, vec!["IRS tax reporting", "Fair Labor Standards Act"]);

    let r = c
        .check_jurisdiction(Region::Tokyo, Action::Other("a \"quoted\" act".to_string()))
        .unwrap();
    assert!(r.requirements.is_empty());
    assert_eq!(r.warnings, vec!["Using default compliance rules"]);
    assert_eq!(r.action, "Other(\"a \\\"quoted\\\" act\")");
}

#[test]
fn unions_wages_and_taxes_by_region() {
    let c = ComplianceSystem::default();
    let rules = c.union_integrate(Region::Berlin).unwrap();
    assert_eq!(rules.unions, vec!["Ver.di (Germany)", "BECTU (UK)"]);
    assert!(!rules.mandatory && rules.collective_bargaining);
    let rules = c.union_integrate(Region::Lagos).unwrap();
    assert!(rules.unions.is_empty() && !rules.collective_bargaining);

    let w = c.get_wage_scale(Region::Sydney);
    assert_eq!(w.minimum_hourly, 1500);
    assert!(!w.union_compatible && !w.living_wage_certified);

    assert_eq!(
        c.get_tax_requirements(Region::Mumbai),
        vec!["PAN card requirement", "GST registration", "TDS compliance"]
    );
    assert_eq!(c.get_tax_requirements(Region::Custom("X".to_string())), vec!["Consult local tax authority"]);
}
