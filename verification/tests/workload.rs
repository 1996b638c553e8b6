use pitgun_racing::fuel_contract::RacingFuelDepletionBehavior;
use pitgun_racing::identity::ArtifactIdentity;
use pitgun_racing::solver::CurvatureAeroResponse;
use pitgun_racing::workload::{
    racing_model_identity_for_version, racing_model_v1_identity, racing_model_v2_identity,
    racing_model_v3_aero_candidate_identity, racing_model_v3_candidate_identity,
    racing_model_v3_development_candidate_identity, racing_model_v3_fidelity_candidate_identity,
    racing_model_v3_fuel_mass_candidate_identity, racing_model_v3_mechanical_candidate_identity,
    racing_model_v3_thermal_candidate_identity, racing_model_v3_transmission_candidate_identity,
    validate_attempt_signature_shape, RacingWorkload, RacingWorkloadError,
    admit_dynamic_race, CatalogReleaseIdentity, DynamicRaceAdmission, DynamicRaceModel,
};

#[test]
fn racing_workload_v1_has_the_published_model_identity() {
    let model = RacingWorkload::<()>::v1().model_identity().clone();

    assert_eq!(model.id.to_string(), "pitgun.racing");
    assert_eq!(model.version.to_string(), "1.0.0");
    assert_eq!(
        model.digest.to_string(),
        "sha256:03541bcc24f946d11071e6fb67915ec5d429dce63362d456aba2c3d339a3fe38"
    );
}

#[test]
fn racing_workload_v2_has_a_distinct_published_model_identity() {
    let model = racing_model_v2_identity();

    assert_eq!(model.id.to_string(), "pitgun.racing");
    assert_eq!(model.version.to_string(), "2.0.0");
    assert_eq!(
        model.digest.to_string(),
        "sha256:a372f990c320d10207220f98ca4bf677607fc5c13918c73b47dfbb8949b106d2"
    );
    assert_ne!(model, RacingWorkload::<()>::v1().model_identity().clone());
}

#[test]
fn model_version_selection_is_exact_and_fail_closed() {
    assert_eq!(
        racing_model_identity_for_version("2.0.0").expect("supported V2"),
        racing_model_v2_identity()
    );
    assert_eq!(
        racing_model_identity_for_version("0.10.0").expect("supported V3 thermal candidate"),
        racing_model_v3_thermal_candidate_identity()
    );
    assert!(racing_model_identity_for_version("2").is_err());
    assert!(racing_model_identity_for_version("3.0.0").is_err());
}

#[test]
fn v3_candidate_identity_cannot_masquerade_as_a_published_model() {
    let candidate = racing_model_v3_candidate_identity();

    assert_eq!(candidate.id.to_string(), "pitgun.racing-v3-candidate");
    assert_eq!(candidate.version.to_string(), "0.9.0");
    assert_eq!(
        candidate.digest.to_string(),
        "sha256:d8767c911912c1ae19cf50f8bb2c6455f7308d83a762d6192f4ef090ef199d99"
    );
    assert_ne!(candidate, racing_model_v2_identity());
    assert!(racing_model_identity_for_version("0.9.0").is_err());

    let thermal = racing_model_v3_thermal_candidate_identity();
    assert_eq!(thermal.version.to_string(), "0.10.0");
    assert_eq!(
        thermal.digest.to_string(),
        "sha256:cc1394a1ba52d83ddb9be6f6272729c29f87944969c41a21991d43997379e5cd"
    );
    assert_ne!(candidate, thermal);

    let fuel_mass = racing_model_v3_fuel_mass_candidate_identity();
    assert_eq!(fuel_mass.version.to_string(), "0.8.0");
    assert_eq!(
        fuel_mass.digest.to_string(),
        "sha256:01c7d8abbe33e8dd7afa87a5ba13668f579f746de8a781ed242e2ac73e0bed6e"
    );

    let fidelity = racing_model_v3_fidelity_candidate_identity();
    assert_eq!(fidelity.version.to_string(), "0.7.0");
    assert_eq!(
        fidelity.digest.to_string(),
        "sha256:fa8f557fde751d8d38e52bf0d5961ae2b06b4dd1915825c6deb1d869592f0afa"
    );
    assert_ne!(candidate, fidelity);

    let transmission = racing_model_v3_transmission_candidate_identity();
    assert_eq!(transmission.version.to_string(), "0.6.0");
    assert_eq!(
        transmission.digest.to_string(),
        "sha256:ecb7bd48bb0ed556f3b6e9f20f15f12646eca0ef70a57afd05de8e59f435f936"
    );
    assert_ne!(candidate, transmission);

    let development = racing_model_v3_development_candidate_identity();
    assert_eq!(development.version.to_string(), "0.5.0");
    assert_eq!(
        development.digest.to_string(),
        "sha256:359720d98e93dfdd7ed51f9bdf2ce52fc593a00f76024bb1f90839c90f27dc16"
    );
    assert_ne!(candidate, development);

    let aero_candidate = racing_model_v3_aero_candidate_identity();
    assert_eq!(aero_candidate.version.to_string(), "0.4.0");
    assert_eq!(
        aero_candidate.digest.to_string(),
        "sha256:849d109d7a15345f58d2cdd5f33f62e5f429ff49cb7f14989775f50c1a050598"
    );
    assert_ne!(candidate, aero_candidate);

    let mechanical = racing_model_v3_mechanical_candidate_identity();
    assert_eq!(mechanical.version.to_string(), "0.3.0");
    assert_eq!(
        mechanical.digest.to_string(),
        "sha256:79a262d7c1625ca577627e0d134a744284f6aabd15ee683133c572dd4af4e35c"
    );
    assert_ne!(mechanical, candidate);
}

#[test]
fn unsupported_version_message_quotes_the_version() {
    assert_eq!(
        racing_model_identity_for_version("3.0.0").unwrap_err(),
        "unsupported Racing model version \"3.0.0\"; expected 1.0.0, 2.0.0 or 0.10.0"
    );
}

#[test]
fn workload_selection_requires_an_exact_known_model() {
    let v2 = RacingWorkload::for_model(&racing_model_v2_identity(), "catalog", Ok(())).expect("v2");
    assert_eq!(v2.model, racing_model_v2_identity());
    assert_eq!(v2.curvature_response, CurvatureAeroResponse::ContinuousV1);
    assert_eq!(v2.catalog, Some("catalog"));
    let v1 = RacingWorkload::for_model(&racing_model_v1_identity(), "catalog", Ok(())).expect("v1");
    assert_eq!(v1.curvature_response, CurvatureAeroResponse::LegacyBinary);
    let incompatible = RacingWorkload::for_model(&racing_model_v1_identity(), "catalog", Err("model not listed".to_string()));
    assert_eq!(incompatible.err(), Some("Racing model/catalog incompatibility: model not listed".to_string()));
    let stranger = ArtifactIdentity { id: "x".to_string(), version: "1".to_string(), digest: "sha256:0".to_string() };
    assert_eq!(
        RacingWorkload::for_model(&stranger, "catalog", Ok(())).err(),
        Some("unsupported Racing model identity x@1 sha256:0".to_string())
    );
}

#[test]
fn attempt_signatures_are_64_lowercase_hex_characters() {
    let good = "0123456789abcdef".repeat(4);
    assert_eq!(validate_attempt_signature_shape(true, &good), Ok(()));
    assert_eq!(
        validate_attempt_signature_shape(true, &good.to_uppercase()),
        Err("invalid dynamic authorization signature shape: expected 64 lowercase hex characters".to_string())
    );
    assert!(validate_attempt_signature_shape(true, &good[1..]).is_err());
    assert_eq!(
        validate_attempt_signature_shape(false, &good),
        Err("unsupported dynamic authorization signature algorithm".to_string())
    );
}

#[test]
fn workload_errors_render_their_cause() {
    assert_eq!(RacingWorkloadError::Simulation("boom".to_string()).message(), "Racing simulation failed: boom");
    assert_eq!(RacingWorkloadError::Evidence("gap".to_string()).message(), "Racing evidence failed: gap");
    assert_eq!(RacingFuelDepletionBehavior::Reject.wire_name(), "reject");
}

fn dyn_identity(version: &str) -> ArtifactIdentity {
    ArtifactIdentity {
        id: "pitgun.racing-v3-candidate".to_string(),
        version: version.to_string(),
        digest: format!("sha256:{version}"),
    }
}

fn release(digest: &str) -> CatalogReleaseIdentity {
    CatalogReleaseIdentity {
        id: "pitgun.racing-catalog".to_string(),
        version: "1.8.0".to_string(),
        manifest_digest: digest.to_string(),
    }
}

fn admission() -> DynamicRaceAdmission {
    DynamicRaceAdmission {
        authorization_integrity: Ok(()),
        algorithm_is_hmac_sha256: true,
        signature: "ab".repeat(32),
        model: dyn_identity("0.14.0"),
        catalog_for_run: Ok(()),
        requested_release: release("sha256:cat"),
        catalog_release: release("sha256:cat"),
        input_digest: Ok("sha256:in".to_string()),
        contract_input_digest: "sha256:in".to_string(),
    }
}

#[test]
fn dynamic_race_admission_checks_in_order_and_selects_the_model() {
    let (timeline, fuel) = (dyn_identity("0.14.0"), dyn_identity("0.15.0"));
    assert_eq!(admit_dynamic_race(&admission(), &timeline, &fuel), Ok(DynamicRaceModel::Timeline));
    let mut fuel_run = admission();
    fuel_run.model = dyn_identity("0.15.0");
    assert_eq!(admit_dynamic_race(&fuel_run, &timeline, &fuel), Ok(DynamicRaceModel::FuelContract));

    let mut broken = admission();
    broken.authorization_integrity = Err("expired".to_string());
    broken.algorithm_is_hmac_sha256 = false;
    assert_eq!(
        admit_dynamic_race(&broken, &timeline, &fuel),
        Err("invalid signed attempt authorization: expired".to_string())
    );
    let mut unsigned = admission();
    unsigned.signature = "AB".repeat(32);
    assert_eq!(
        admit_dynamic_race(&unsigned, &timeline, &fuel),
        Err("invalid dynamic authorization signature shape: expected 64 lowercase hex characters".to_string())
    );
    let mut other_model = admission();
    other_model.model = dyn_identity("0.11.0");
    other_model.catalog_for_run = Err("never reached".to_string());
    assert_eq!(
        admit_dynamic_race(&other_model, &timeline, &fuel),
        Err("dynamic Racing execution requires model 0.14.0 or 0.15.0, got pitgun.racing-v3-candidate@0.11.0 sha256:0.11.0".to_string())
    );
    let mut unavailable = admission();
    unavailable.catalog_for_run = Err("model not listed".to_string());
    assert_eq!(
        admit_dynamic_race(&unavailable, &timeline, &fuel),
        Err("authorized dynamic catalog is unavailable: model not listed".to_string())
    );
    let mut other_release = admission();
    other_release.catalog_release = release("sha256:old");
    assert_eq!(
        admit_dynamic_race(&other_release, &timeline, &fuel),
        Err("dynamic Racing catalog release mismatch: expected pitgun.racing-catalog@1.8.0 sha256:cat, got pitgun.racing-catalog@1.8.0 sha256:old".to_string())
    );
    let mut uncanonical = admission();
    uncanonical.input_digest = Err("not JSON".to_string());
    assert_eq!(
        admit_dynamic_race(&uncanonical, &timeline, &fuel),
        Err("cannot canonicalize dynamic Racing input: not JSON".to_string())
    );
    let mut tampered = admission();
    tampered.input_digest = Ok("sha256:other".to_string());
    assert_eq!(
        admit_dynamic_race(&tampered, &timeline, &fuel),
        Err("dynamic Racing input digest mismatch: expected sha256:in, got sha256:other".to_string())
    );
}
