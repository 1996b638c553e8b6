use pitgun_racing::workload::racing_model_v3_thermal_candidate_identity;
use pitgun_racing::identity::ArtifactIdentity;
use pitgun_racing::thermal_profile::{
    V3PowerUnitThermalBindingsV2, V3PowerUnitThermalEntryV2, V3PowerUnitThermalProfileCandidateV2,
    V3PowerUnitThermalResolutionContractV2, V3ThermalFamilyBindingsV1, V3ThermalFamilyEntryV1,
    V3ThermalFamilyProfileCandidateV1, V3ThermalFamilyResolutionContractV1,
    V3ThermalPromotionBoundaryV1,
};

fn model(version: &str) -> ArtifactIdentity {
    ArtifactIdentity {
        id: "pitgun.racing-v3-candidate".to_string(),
        version: version.to_string(),
        digest: format!("sha256:{version}"),
    }
}

fn promotion() -> V3ThermalPromotionBoundaryV1 {
    V3ThermalPromotionBoundaryV1 {
        candidate_creation_authorized: true,
        rust_wasm_integration_authorized: true,
        catalog_publication_authorized: false,
        authority_verifier_promotion_authorized: false,
        game_staging_promotion_authorized: false,
        production_promotion_authorized: false,
        automatic_promotion: false,
    }
}

fn strings(items: &[&str]) -> Vec<String> {
    items.iter().map(|s| s.to_string()).collect()
}

fn v1_entry(ids: &[&str], eras: &[u32]) -> V3ThermalFamilyEntryV1 {
    V3ThermalFamilyEntryV1 {
        parameter_set_id: format!("set-{}", ids[0]),
        validated_profile_ref: "sha256:ref".to_string(),
        bindings: V3ThermalFamilyBindingsV1 { vehicle_ids: strings(ids), eras: eras.to_vec() },
        engine_thermal_resolution_check: Ok(()),
    }
}

fn v1_candidate() -> V3ThermalFamilyProfileCandidateV1 {
    V3ThermalFamilyProfileCandidateV1 {
        schema_version: "pitgun.racing-v3-thermal-family-profile-candidate/v1".to_string(),
        id: "pitgun.racing-v3-thermal-family-profile".to_string(),
        version: "1.0.0-rc.1".to_string(),
        status: "REVIEWED_CANDIDATE".to_string(),
        model: racing_model_v3_thermal_candidate_identity(),
        resolution_contract: V3ThermalFamilyResolutionContractV1 {
            resolver_owner: "pitgun-racing-simulator".to_string(),
            solver_input: "one resolved engine_thermal_resolution per execution".to_string(),
            selection_key: "vehicle_id".to_string(),
            unknown_vehicle_behavior: "reject".to_string(),
            era_only_selection_forbidden: true,
        },
        profiles: vec![
            ("f1_2026".to_string(), v1_entry(&["f1_2026"], &[5])),
            ("historical_v8".to_string(), v1_entry(&["classic_v8_1960", "classic_v8_1970"], &[1, 4])),
            ("modern_v6t".to_string(), v1_entry(&["modern_v6t"], &[5])),
        ],
        excluded_fuel_reservoir_is_reviewed: true,
        excluded_owner_issue: 246,
        promotion: promotion(),
    }
}

fn v2_entry(ids: &[&str]) -> V3PowerUnitThermalEntryV2 {
    V3PowerUnitThermalEntryV2 {
        parameter_set_id: format!("set-{}", ids[0]),
        validated_profile_ref: "sha256:ref".to_string(),
        bindings: V3PowerUnitThermalBindingsV2 { power_unit_ids: strings(ids) },
        engine_thermal_resolution_check: Ok(()),
    }
}

fn parsed_candidate() -> V3PowerUnitThermalProfileCandidateV2 {
    V3PowerUnitThermalProfileCandidateV2 {
        schema_version: "pitgun.racing-v3-thermal-family-profile-candidate/v2".to_string(),
        id: "pitgun.racing-v3-thermal-family-profile".to_string(),
        version: "2.0.0-rc.1".to_string(),
        status: "REVIEWED_CANDIDATE".to_string(),
        model: model("0.11.0"),
        resolution_contract: V3PowerUnitThermalResolutionContractV2 {
            resolver_owner: "pitgun-racing-simulator".to_string(),
            solver_input: "one resolved engine_thermal_resolution per competitor execution".to_string(),
            selection_key: "installed_power_unit_id".to_string(),
            unknown_power_unit_behavior: "reject".to_string(),
            era_only_selection_forbidden: true,
        },
        profiles: vec![
            ("f1_2026".to_string(), v2_entry(&["v6t_hybrid"])),
            ("historical_v8".to_string(), v2_entry(&["v8_1960", "v8_1970"])),
            ("modern_v6t".to_string(), v2_entry(&["v6t"])),
        ],
        promotion: promotion(),
    }
}

#[test]
fn power_unit_profile_rejects_missing_and_duplicate_bindings() {
    let mut missing = parsed_candidate();
    missing.profiles[0].1.bindings.power_unit_ids.clear();
    assert!(missing
        .validate(&model("0.11.0"))
        .expect_err("missing binding must fail")
        .contains("unexpected power-unit thermal bindings"));

    let mut duplicate = parsed_candidate();
    duplicate.profiles[0].1.bindings.power_unit_ids.push("v6t".to_string());
    assert!(duplicate
        .validate(&model("0.11.0"))
        .expect_err("duplicate binding must fail")
        .contains("unexpected power-unit thermal bindings"));
}

#[test]
fn reviewed_v1_candidate_validates_and_resolves_vehicles() {
    let c = v1_candidate();
    assert_eq!(c.validate(), Ok(()));
    let (evidence, index) = c.resolve_vehicle("  classic_v8_1970 ").expect("bound vehicle");
    assert_eq!(index, 1);
    assert_eq!(evidence.family, "historical_v8");
    assert_eq!(evidence.vehicle_id, "classic_v8_1970");
    assert_eq!(evidence.parameter_set_id, "set-classic_v8_1960");
    assert_eq!(evidence.schema_version, "pitgun.racing-v3-thermal-family-resolution/v1");
    assert_eq!(
        evidence.candidate.digest,
        "sha256:8aefd230da307e3439eef115fbfcd1117c8a8bbb1128c2c4b00138d6026f2f57"
    );
    assert_eq!(
        c.resolve_vehicle("kart").unwrap_err(),
        "unknown vehicle \"kart\" for thermal family profile pitgun.racing-v3-thermal-family-profile@1.0.0-rc.1"
    );
}

#[test]
fn v1_candidate_rejections_follow_the_review_order() {
    let mut wrong_model = v1_candidate();
    wrong_model.model = model("0.9.0");
    assert_eq!(
        wrong_model.validate().unwrap_err(),
        "thermal family profile targets an unsupported model"
    );
    let mut missing_family = v1_candidate();
    missing_family.profiles.pop();
    assert_eq!(
        missing_family.validate().unwrap_err(),
        "thermal family profile coverage is incomplete"
    );
    let mut bad_eras = v1_candidate();
    bad_eras.profiles[1].1.bindings.eras = vec![1];
    assert_eq!(
        bad_eras.validate().unwrap_err(),
        "unexpected thermal bindings for family \"historical_v8\""
    );
    let mut bad_numbers = v1_candidate();
    bad_numbers.profiles[2].1.engine_thermal_resolution_check = Err("thermal capacity must be positive".to_string());
    assert_eq!(bad_numbers.validate().unwrap_err(), "thermal capacity must be positive");
    let mut fuel = v1_candidate();
    fuel.excluded_owner_issue = 1;
    assert_eq!(fuel.validate().unwrap_err(), "experimental fuel exclusion is not preserved");
    let mut promoted = v1_candidate();
    promoted.promotion.production_promotion_authorized = true;
    assert_eq!(
        promoted.validate().unwrap_err(),
        "thermal candidate exceeds its reviewed promotion boundary"
    );
    let mut renamed = v1_candidate();
    renamed.status = "DRAFT".to_string();
    assert_eq!(renamed.validate().unwrap_err(), "unsupported thermal family profile identity");
}

#[test]
fn v2_candidate_resolves_installed_power_units() {
    let c = parsed_candidate();
    let (evidence, index) = c.resolve_power_unit(&model("0.11.0"), "v6t").expect("bound unit");
    assert_eq!(index, 2);
    assert_eq!(evidence.family, "modern_v6t");
    assert_eq!(evidence.power_unit_id, "v6t");
    assert_eq!(
        evidence.candidate.digest,
        "sha256:47c54c5fb79327d1937c84decab79bfbd9cd72b933f15710515670dc61315c84"
    );
    assert_eq!(
        c.resolve_power_unit(&model("0.11.0"), "v12").unwrap_err(),
        "unknown power unit \"v12\" for thermal family profile pitgun.racing-v3-thermal-family-profile@2.0.0-rc.1"
    );
    let mut contract = parsed_candidate();
    contract.resolution_contract.selection_key = "vehicle_id".to_string();
    assert_eq!(
        contract.validate(&model("0.11.0")).unwrap_err(),
        "unsupported power-unit thermal resolution contract"
    );
}

#[test]
fn v1_candidate_must_target_the_exact_thermal_model() {
    let mut forged = v1_candidate();
    forged.model.digest = "sha256:00".to_string();
    assert_eq!(
        forged.validate().unwrap_err(),
        "thermal family profile targets an unsupported model"
    );
    assert_eq!(v1_candidate().validate(), Ok(()));
}
