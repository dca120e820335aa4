use studio_commons::production::{
    CreativeInput, Project, ProductionSystem, ProjectType, ResourceType,
};

fn film(title: &str) -> Project {
    Project {
        id: 7,
        title: title.to_string(),
        project_type: ProjectType::Film,
        start_date: 1_700_000_000,
        end_date: 1_700_086_400,
    }
}

#[test]
fn test_virtual_stage_booking() {
    let mut prod = ProductionSystem::new("LA").unwrap();
    let booking = prod.ai_virtual_stage(film("Test Film"), true).unwrap();
    assert!(booking.cost_reduction_percent >= 60);
}

#[test]
fn test_ethical_ai_generation() {
    let prod = ProductionSystem::new("LA").unwrap();
    let input = CreativeInput {
        prompt: "A futuristic cityscape".to_string(),
        style: "cyberpunk".to_string(),
        consent_verified: true,
        attribution_required: true,
    };
    let assets = prod.ethical_ai_gen(input).unwrap();
    assert!(!assets.assets.is_empty());
    assert!(!assets.consent_log.is_empty());
}

#[test]
fn test_consent_enforcement() {
    let prod = ProductionSystem::new("LA").unwrap();
    let input = CreativeInput {
        prompt: "Test".to_string(),
        style: "test".to_string(),
        consent_verified: false,
        attribution_required: false,
    };
    assert!(prod.ethical_ai_gen(input).is_err());
}

#[test]
fn ar_stage_saves_more_than_virtual_stage() {
    let mut prod = ProductionSystem::new("LA").unwrap();
    let ar = prod.ai_virtual_stage_with(film("AR"), true, 1, 10).unwrap();
    let vs = prod.ai_virtual_stage_with(film("VS"), false, 2, 10).unwrap();
    assert_eq!(ar.resource_type, ResourceType::ARStage);
    assert_eq!(ar.cost_reduction_percent, 65);
    assert_eq!(vs.resource_type, ResourceType::VirtualStage);
    assert_eq!(vs.cost_reduction_percent, 60);
    assert_eq!(vs.start_time, 1_700_000_000);
    assert_eq!(vs.end_time, 1_700_086_400);
    assert_eq!(prod.get_bookings().len(), 2);
}

#[test]
fn bookings_are_filtered_by_hub_in_order() {
    let mut prod = ProductionSystem::new("NYC").unwrap();
    prod.ai_virtual_stage_with(film("a"), false, 1, 10).unwrap();
    prod.ai_virtual_stage_with(film("b"), false, 2, 20).unwrap();
    prod.ai_virtual_stage_with(film("c"), true, 3, 10).unwrap();
    let at_ten: Vec<u128> = prod.bookings_for_hub(10).iter().map(|b| b.id).collect();
    assert_eq!(at_ten, vec![1, 3]);
    assert!(prod.bookings_for_hub(30).is_empty());
}

#[test]
fn generated_asset_names_carry_their_ids() {
    let prod = ProductionSystem::default();
    let input = CreativeInput {
        prompt: "p".to_string(),
        style: "noir".to_string(),
        consent_verified: true,
        attribution_required: true,
    };
    let g = prod.ethical_ai_gen_with(input, 1, 2).unwrap();
    assert_eq!(
        g.assets,
        vec![
            "AI_ASSET_00000000-0000-0000-0000-000000000001_1.png".to_string(),
            "AI_ASSET_00000000-0000-0000-0000-000000000002_2.png".to_string(),
        ]
    );
    assert_eq!(
        g.consent_log,
        vec![
            "Consent verified at generation time".to_string(),
            "No copyrighted material detected".to_string(),
        ]
    );
    assert_eq!(
        g.attribution,
        vec!["Generated using Studio Commons AI tools".to_string(), "Style: noir".to_string()]
    );
}

#[test]
fn attribution_is_omitted_when_not_required() {
    let prod = ProductionSystem::default();
    let input = CreativeInput {
        prompt: "p".to_string(),
        style: "noir".to_string(),
        consent_verified: true,
        attribution_required: false,
    };
    let g = prod.ethical_ai_gen_with(input, 1, 2).unwrap();
    assert!(g.attribution.is_empty());
}

#[test]
fn metaverse_export_link_names_the_export() {
    let prod = ProductionSystem::default();
    let link = prod.vr_metaverse_export_with(vec!["a.png".to_string()], 255).unwrap();
    assert_eq!(
        link,
        "https://metaverse.studiocommons.org/export/00000000-0000-0000-0000-0000000000ff"
    );
    let fresh = prod.vr_metaverse_export(vec![]).unwrap();
    assert!(fresh.starts_with("https://metaverse.studiocommons.org/export/"));
}
