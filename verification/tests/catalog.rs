use pitgun_racing::catalog::{
    check_release_resources, classify_resource_path, known_racing_models, list_component_resources,
    order_by_id, simulation_relative_path, validate_known_racing_model_compatibility,
    verify_index_digest,
    resolve_component_capability_profile_resource, resolve_driver_instruction_profile_resource,
    resolve_model_parameters_resource, resolve_power_unit_thermal_profile_resource,
    resolve_thermal_family_profile_resource, IndexedResource, RacingCatalogResolutionError,
    ResourceCategory, SuppliedResource, VehicleComponentKind,
};

fn res(id: &str, path: &str) -> IndexedResource {
    IndexedResource {
        id: id.to_string(),
        path: path.to_string(),
        media_type: "application/json".to_string(),
        digest: format!("sha256:{path}"),
    }
}

fn supplied(path: &str) -> SuppliedResource {
    SuppliedResource {
        path: path.to_string(),
        path_check: Ok(()),
        text_check: Ok(()),
        digest: format!("sha256:{path}"),
    }
}

fn invalid(message: &str) -> RacingCatalogResolutionError {
    RacingCatalogResolutionError::InvalidResolvedResources(message.to_string())
}

#[test]
fn resource_paths_are_category_and_json_stem() {
    assert_eq!(
        classify_resource_path("engines/v6t.json"),
        Ok((ResourceCategory::Engines, "v6t".to_string()))
    );
    assert_eq!(
        classify_resource_path("tires/soft.json.json"),
        Ok((ResourceCategory::Tires, "soft".to_string()))
    );
    assert_eq!(classify_resource_path("engines"), Err("invalid embedded path 'engines'".to_string()));
    assert_eq!(
        classify_resource_path("engines/a/b.json"),
        Err("invalid Racing simulation resource path 'engines/a/b.json'".to_string())
    );
    assert_eq!(
        classify_resource_path("engines/v6t.txt"),
        Err("invalid Racing simulation resource path 'engines/v6t.txt'".to_string())
    );
    assert_eq!(
        classify_resource_path("boats/x.json"),
        Err("unsupported Racing simulation resource category 'boats'".to_string())
    );
    assert_eq!(
        classify_resource_path("drivers-v2/ace.json"),
        Ok((ResourceCategory::DriversV2, "ace".to_string()))
    );
}

#[test]
fn singleton_profiles_follow_model_compatibility() {
    let thermal = || res("pitgun.racing.thermal-profiles.family-v1", "simulation/thermal-profiles/family-v1.json");
    let rs = vec![res("a", "simulation/aero/a.json"), thermal()];
    assert_eq!(resolve_thermal_family_profile_resource(&rs, true), Ok(Some(1)));
    assert_eq!(
        resolve_thermal_family_profile_resource(&rs, false),
        Err(invalid("thermal-family profile requires the exact Model V3 thermal compatibility"))
    );
    let none = vec![res("a", "simulation/aero/a.json")];
    assert_eq!(resolve_thermal_family_profile_resource(&none, false), Ok(None));
    assert_eq!(
        resolve_thermal_family_profile_resource(&none, true),
        Err(invalid("Model V3 thermal catalog is missing its thermal-family profile"))
    );
    let twice = vec![thermal(), res("other", "simulation/thermal-profiles/family-v1.json")];
    assert_eq!(
        resolve_thermal_family_profile_resource(&twice, true),
        Err(invalid("Racing catalog must select exactly one thermal-family profile"))
    );
    let moved = vec![res("pitgun.racing.thermal-profiles.family-v1", "simulation/elsewhere.json")];
    assert!(matches!(
        resolve_thermal_family_profile_resource(&moved, true),
        Err(RacingCatalogResolutionError::InvalidResolvedResources(m)) if m.starts_with("thermal-family profile must use resource ID")
    ));
    assert_eq!(resolve_power_unit_thermal_profile_resource(&none, false), Ok(None));
    assert_eq!(
        resolve_component_capability_profile_resource(&none, true),
        Err(invalid("component-composed Model V3 catalog is missing its capability profile"))
    );
    assert_eq!(resolve_driver_instruction_profile_resource(&none), Ok(None));
    let instructions = vec![res("pitgun.racing.driver-instructions", "simulation/driver-instructions/profile-v1.json")];
    assert_eq!(resolve_driver_instruction_profile_resource(&instructions), Ok(Some(0)));
}

#[test]
fn model_parameter_resource_binds_its_path_to_its_id() {
    let ok = vec![res("pitgun.racing.model-parameters.v2", "simulation/model-parameters/v2.json")];
    assert_eq!(resolve_model_parameters_resource(&ok), Ok(Some((0, "v2".to_string()))));
    let wrong_path = vec![res("pitgun.racing.model-parameters.v2", "simulation/model-parameters/v3.json")];
    assert_eq!(
        resolve_model_parameters_resource(&wrong_path),
        Err(invalid("model-parameter resource pitgun.racing.model-parameters.v2 must use path simulation/model-parameters/v2.json"))
    );
    let wrong_id = vec![res("params", "simulation/model-parameters/v2.json")];
    assert_eq!(
        resolve_model_parameters_resource(&wrong_id),
        Err(invalid("model-parameter path simulation/model-parameters/v2.json uses an incompatible resource ID params"))
    );
    let two = vec![res("pitgun.racing.model-parameters.v2", "simulation/model-parameters/v2.json"), res("pitgun.racing.model-parameters.v3", "x")];
    assert_eq!(
        resolve_model_parameters_resource(&two),
        Err(invalid("Racing catalog must select at most one model-parameter resource"))
    );
    assert_eq!(resolve_model_parameters_resource(&vec![]), Ok(None));
}

#[test]
fn component_inventory_lists_component_files() {
    let rs = vec![
        res("a", "simulation/aero/low.json"),
        res("t", "simulation/tracks/monza.json"),
        res("e", "simulation/engines/v6t.json"),
    ];
    assert_eq!(
        list_component_resources(&rs),
        Ok(vec![
            (VehicleComponentKind::AerodynamicPackage, "low".to_string()),
            (VehicleComponentKind::PowerUnit, "v6t".to_string()),
        ])
    );
    let bad = vec![res("c", "simulation/chassis/x.yaml")];
    assert_eq!(
        list_component_resources(&bad),
        Err(invalid("invalid component resource path simulation/chassis/x.yaml"))
    );
}

#[test]
fn release_resources_must_cover_the_index_exactly() {
    let index = vec![res("a", "simulation/a.json"), res("b", "simulation/b.json")];
    let files = vec![supplied("simulation/b.json"), supplied("simulation/a.json")];
    assert_eq!(check_release_resources(&index, &files), Ok(vec![1, 0]));

    let dup = vec![supplied("simulation/a.json"), supplied("simulation/a.json")];
    assert_eq!(
        check_release_resources(&index, &dup),
        Err(RacingCatalogResolutionError::DuplicateResource("simulation/a.json".to_string()))
    );
    let missing = vec![supplied("simulation/a.json")];
    assert_eq!(
        check_release_resources(&index, &missing),
        Err(RacingCatalogResolutionError::MissingResource("simulation/b.json".to_string()))
    );
    let mut tampered = vec![supplied("simulation/a.json"), supplied("simulation/b.json")];
    tampered[1].digest = "sha256:other".to_string();
    assert_eq!(
        check_release_resources(&index, &tampered),
        Err(RacingCatalogResolutionError::ResourceDigestMismatch {
            path: "simulation/b.json".to_string(),
            expected: "sha256:simulation/b.json".to_string(),
            actual: "sha256:other".to_string(),
        })
    );
    let extra = vec![supplied("simulation/z.json"), supplied("simulation/a.json"), supplied("simulation/c.json"), supplied("simulation/b.json")];
    assert_eq!(
        check_release_resources(&index, &extra),
        Err(RacingCatalogResolutionError::UnexpectedResource("simulation/c.json".to_string()))
    );
    let mut bad_path = vec![supplied("/abs.json")];
    bad_path[0].path_check = Err("path must be relative".to_string());
    assert_eq!(
        check_release_resources(&index, &bad_path),
        Err(RacingCatalogResolutionError::InvalidResourcePath {
            path: "/abs.json".to_string(),
            reason: "path must be relative".to_string(),
        })
    );
    let mut yaml = vec![res("a", "simulation/a.json")];
    yaml[0].media_type = "text/yaml".to_string();
    assert_eq!(
        check_release_resources(&yaml, &vec![supplied("simulation/a.json")]),
        Err(RacingCatalogResolutionError::UnsupportedResourceMediaType {
            path: "simulation/a.json".to_string(),
            media_type: "text/yaml".to_string(),
        })
    );
}

#[test]
fn listings_are_ordered_by_id_stably() {
    let ids: Vec<String> = ["spa", "monza", "imola", "monza", "Zolder"].iter().map(|s| s.to_string()).collect();
    assert_eq!(order_by_id(&ids), vec![4, 2, 1, 3, 0]);
    assert!(order_by_id(&vec![]).is_empty());
}

#[test]
fn release_paths_and_known_models() {
    assert_eq!(simulation_relative_path("simulation/engines/v6t.json"), Ok("engines/v6t.json".to_string()));
    assert_eq!(
        simulation_relative_path("presentation/index.json"),
        Err("Racing resource is outside simulation/: presentation/index.json".to_string())
    );
    assert_eq!(known_racing_models()[3], ("pitgun.racing-v3-candidate", "0.11.0"));
    assert_eq!(validate_known_racing_model_compatibility(&vec![false, true, false, false]), Ok(()));
    assert_eq!(
        validate_known_racing_model_compatibility(&vec![false; 4]),
        Err(RacingCatalogResolutionError::InvalidManifest(
            "catalog does not support a known Racing model (pitgun.racing@1.0.0, pitgun.racing@2.0.0, pitgun.racing-v3-candidate@0.10.0, pitgun.racing-v3-candidate@0.11.0)".to_string()
        ))
    );
}

#[test]
fn index_digests_must_match_the_manifest() {
    assert_eq!(verify_index_digest("simulation", "sha256:aa", Ok("sha256:aa".to_string())), Ok(()));
    assert_eq!(
        verify_index_digest("simulation", "sha256:aa", Ok("sha256:bb".to_string())),
        Err(RacingCatalogResolutionError::IndexDigestMismatch {
            pack: "simulation".to_string(),
            expected: "sha256:aa".to_string(),
            actual: "sha256:bb".to_string(),
        })
    );
    assert_eq!(
        verify_index_digest("presentation", "sha256:aa", Err("not canonical".to_string())),
        Err(RacingCatalogResolutionError::InvalidDocument {
            document: "catalog index".to_string(),
            reason: "not canonical".to_string(),
        })
    );
}
