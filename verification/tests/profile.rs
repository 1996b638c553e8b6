use pitgun_racing::identity::ArtifactIdentity;
use pitgun_racing::profile::{
    accepts_zero_downforce, applies_first_stint_tire, model_candidate,
    V3CandidateExperimentProfileVersion as V, V3ExperimentProfileShape, V3ModelCandidate,
};

fn shape(version: V) -> V3ExperimentProfileShape {
    V3ExperimentProfileShape {
        schema_version: version,
        tuning_response: Ok(()),
        aero_resolution: Some(Ok(())),
        development_resolution: Some(Ok(())),
        transmission_resolution: Some(Ok(())),
        fuel_mass: Some(Ok(())),
        tire_degradation: Some(Ok(())),
        engine_thermal_resolution: None,
        has_driver_control_override: false,
        driver_control_profile: None,
    }
}

#[test]
fn v3_profile_versions_bind_exact_candidate_shapes() {
    let mut mechanical = shape(V::V1);
    mechanical.aero_resolution = None;
    mechanical.development_resolution = None;
    mechanical.transmission_resolution = None;
    mechanical.fuel_mass = None;
    mechanical.tire_degradation = None;
    assert_eq!(mechanical.validate(), Ok(()));
    assert_eq!(model_candidate(V::V1), V3ModelCandidate::Mechanical);

    let mut aero = shape(V::V2);
    aero.development_resolution = None;
    aero.transmission_resolution = None;
    aero.fuel_mass = None;
    aero.tire_degradation = None;
    assert_eq!(aero.validate(), Ok(()));

    let mut fuel = shape(V::V6);
    fuel.tire_degradation = None;
    assert_eq!(fuel.validate(), Ok(()));
    assert_eq!(shape(V::V7).validate(), Ok(()));

    let mut thermal = shape(V::V8);
    thermal.engine_thermal_resolution = Some(Ok(()));
    assert_eq!(thermal.validate(), Ok(()));
    assert_eq!(model_candidate(V::V8), V3ModelCandidate::Thermal);

    let mut malformed_thermal = shape(V::V8);
    malformed_thermal.engine_thermal_resolution = Some(Err("thermal_capacity_multiplier must be positive".to_string()));
    assert_eq!(malformed_thermal.validate(), Err("thermal_capacity_multiplier must be positive".to_string()));

    let mut malformed = shape(V::V2);
    malformed.aero_resolution = None;
    malformed.development_resolution = None;
    malformed.fuel_mass = None;
    malformed.tire_degradation = None;
    assert_eq!(
        malformed.validate(),
        Err("V3 experiment profile V2 requires aero_resolution and forbids development_resolution".to_string())
    );
}

#[test]
fn profile_resource_rules_by_version() {
    assert_eq!(shape(V::V8).validate(), Err("V3 experiment profile V8 requires engine_thermal_resolution".to_string()));
    let mut early_fuel = shape(V::V5);
    early_fuel.tire_degradation = None;
    assert_eq!(early_fuel.validate(), Err("historical V3 experiment profiles cannot define fuel_mass".to_string()));
    let mut no_fuel = shape(V::V9);
    no_fuel.fuel_mass = None;
    assert_eq!(no_fuel.validate(), Err("V3 experiment profiles V6 through V11 require fuel_mass".to_string()));
    assert_eq!(shape(V::V10).validate(), Err("V3 experiment profiles V10 and V11 require driver_control_profile".to_string()));
    let mut override_set = shape(V::V11);
    override_set.has_driver_control_override = true;
    assert_eq!(
        override_set.validate(),
        Err("V3 experiment profiles V10 and V11 forbid the legacy driver_control_override".to_string())
    );
    let mut bad_control = shape(V::V10);
    bad_control.driver_control_profile = Some(Err("floor out of range".to_string()));
    assert_eq!(bad_control.validate(), Err("invalid driver-control profile: floor out of range".to_string()));
    let mut tuning = shape(V::V7);
    tuning.tuning_response = Err("drag_base must be finite".to_string());
    tuning.fuel_mass = None;
    assert_eq!(tuning.validate(), Err("drag_base must be finite".to_string()));
    assert!(applies_first_stint_tire(V::V5) && !applies_first_stint_tire(V::V4));
    assert!(accepts_zero_downforce(V::V11) && !accepts_zero_downforce(V::V1));
}

fn named(version: &str) -> ArtifactIdentity {
    ArtifactIdentity {
        id: "pitgun.racing-v3-candidate".to_string(),
        version: version.to_string(),
        digest: format!("sha256:{version}"),
    }
}

#[test]
fn profile_versions_select_their_model_identities() {
    let (component, control, friction) = (named("0.11.0"), named("0.12.0"), named("0.13.0"));
    let expected = [
        (V::V1, "0.3.0"),
        (V::V2, "0.4.0"),
        (V::V3, "0.5.0"),
        (V::V4, "0.6.0"),
        (V::V5, "0.7.0"),
        (V::V6, "0.8.0"),
        (V::V7, "0.9.0"),
        (V::V8, "0.10.0"),
    ];
    for (version, model_version) in expected {
        let identity = shape(version).model_identity(&component, &control, &friction);
        assert_eq!(identity.id, "pitgun.racing-v3-candidate");
        assert_eq!(identity.version, model_version);
    }
    assert_eq!(
        shape(V::V7).model_identity(&component, &control, &friction).digest,
        "sha256:d8767c911912c1ae19cf50f8bb2c6455f7308d83a762d6192f4ef090ef199d99"
    );
    assert_eq!(shape(V::V9).model_identity(&component, &control, &friction), component);
    assert_eq!(shape(V::V10).model_identity(&component, &control, &friction), control);
    assert_eq!(shape(V::V11).model_identity(&component, &control, &friction), friction);
}
