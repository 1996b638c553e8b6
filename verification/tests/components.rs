use pitgun_racing::components::{
    driver_resource_for_competitor, laps_completed, reject_component_selections_for_model,
    resolve_driver, resolve_engine_id_with_components, resolve_installed_components, resolve_tire,
    resolve_pit_loss_ms, resolve_vehicle_id, validate_catalog_references,
    validate_component_selection, validate_component_selection_subjects, ComponentInventory,
    DriverChoice, VehicleComponentSelectionV1, VehicleRecord,
};

fn strings(items: &[&str]) -> Vec<String> {
    items.iter().map(|s| s.to_string()).collect()
}

fn component_selection(aero: Option<&str>, chassis: Option<&str>, engine: Option<&str>, tire: Option<&str>) -> VehicleComponentSelectionV1 {
    VehicleComponentSelectionV1 {
        aero_id: aero.map(str::to_string),
        chassis_id: chassis.map(str::to_string),
        engine_id: engine.map(str::to_string),
        tire_id: tire.map(str::to_string),
    }
}

fn inventory() -> ComponentInventory {
    ComponentInventory {
        vehicles: vec![(
            "classic_v8_1960".to_string(),
            VehicleRecord {
                aero_id: "low".to_string(),
                chassis_id: "spaceframe".to_string(),
                engine_id: "v8_1960".to_string(),
                tire_id: "crossply".to_string(),
            },
        )],
        aeros: strings(&["low", "high"]),
        chassis: strings(&["spaceframe"]),
        engines: strings(&["v8_1960", "v6t"]),
        tires: strings(&["crossply", "slick"]),
    }
}

#[test]
fn vehicle_component_selection_rejects_unknown_and_redundant_overrides() {
    let catalog = inventory();
    assert!(resolve_installed_components(&catalog, "classic_v8_1960", Some(&component_selection(Some("unknown"), None, None, None)))
        .expect_err("unknown aero")
        .contains("unknown aero"));
    assert!(resolve_installed_components(&catalog, "classic_v8_1960", Some(&component_selection(None, None, None, None)))
        .expect_err("empty selection")
        .contains("must override at least one component"));
}

#[test]
fn selections_override_each_component_independently() {
    let catalog = inventory();
    let own = resolve_installed_components(&catalog, "classic_v8_1960", None).expect("own");
    assert_eq!((own.aero_id.as_str(), own.engine_id.as_str(), own.tire_id.as_str()), ("low", "v8_1960", "crossply"));
    let swapped = resolve_installed_components(&catalog, "classic_v8_1960", Some(&component_selection(None, None, Some("v6t"), Some("slick")))).expect("swapped");
    assert_eq!((swapped.aero_id.as_str(), swapped.chassis_id.as_str(), swapped.engine_id.as_str(), swapped.tire_id.as_str()), ("low", "spaceframe", "v6t", "slick"));
    assert_eq!(resolve_engine_id_with_components(&catalog, "classic_v8_1960", Some(&component_selection(None, None, Some("v6t"), None))), Ok("v6t".to_string()));
    assert_eq!(resolve_installed_components(&catalog, "kart", None).unwrap_err(), "unknown vehicle 'kart'");
    assert_eq!(
        validate_component_selection(&component_selection(None, Some(" spaceframe"), None, None)),
        Err("vehicle component selection has non-canonical chassis id ' spaceframe'".to_string())
    );
    assert_eq!(resolve_engine_id_with_components(&catalog, "classic_v8_1960", Some(&component_selection(None, None, Some("v12"), None))), Err("unknown engine 'v12'".to_string()));
}

#[test]
fn selection_subjects_and_models_are_checked() {
    let competitors = strings(&["player", "ai-1"]);
    assert_eq!(validate_component_selection_subjects(&competitors, &strings(&["ai-1"])), Ok(()));
    assert_eq!(
        validate_component_selection_subjects(&competitors, &strings(&["ai-1", "ghost"])),
        Err("vehicle component selection references unknown competitor 'ghost'".to_string())
    );
    assert_eq!(reject_component_selections_for_model(0, "published historical Racing session model"), Ok(()));
    assert_eq!(
        reject_component_selections_for_model(2, "published historical Racing session model"),
        Err("published historical Racing session model does not support vehicle component selection; select a component-aware model and catalog".to_string())
    );
}

#[test]
fn vehicle_and_driver_ids_resolve_with_defaults() {
    assert_eq!(resolve_vehicle_id(Some("  f1_2026 ")), Ok("f1_2026".to_string()));
    assert_eq!(resolve_vehicle_id(Some("  ")), Err("vehicle_id is required".to_string()));
    assert_eq!(resolve_vehicle_id(None), Err("vehicle_id is required".to_string()));
    let drivers = strings(&["default", "ace"]);
    assert_eq!(resolve_driver(&drivers, Some(" ace ")), DriverChoice::Catalog("ace".to_string()));
    assert_eq!(resolve_driver(&drivers, Some("nobody")), DriverChoice::Catalog("default".to_string()));
    assert_eq!(resolve_driver(&drivers, None), DriverChoice::Catalog("default".to_string()));
    assert_eq!(resolve_driver(&strings(&["ace"]), Some("")), DriverChoice::BuiltIn);
}

#[test]
fn catalog_references_must_exist() {
    let catalog = inventory();
    assert_eq!(validate_catalog_references(&catalog, &strings(&["default"])), Ok(()));
    assert_eq!(validate_catalog_references(&catalog, &strings(&["ace"])), Err("Racing catalog is missing the default driver".to_string()));
    let mut broken = inventory();
    broken.tires = strings(&["slick"]);
    assert_eq!(
        validate_catalog_references(&broken, &strings(&["default"])),
        Err("vehicle 'classic_v8_1960' references unknown tire 'crossply'".to_string())
    );
}

#[test]
fn driver_resources_are_keyed_by_their_embedded_id() {
    let drivers = vec![("ace".to_string(), "ace".to_string()), ("bob".to_string(), "robert".to_string())];
    assert_eq!(driver_resource_for_competitor(&drivers, "p1", Some("ace")), Ok(0));
    assert_eq!(
        driver_resource_for_competitor(&drivers, "p1", None),
        Err("V3 driver-control candidate requires driver_id for competitor p1".to_string())
    );
    assert_eq!(
        driver_resource_for_competitor(&drivers, "p1", Some("cat")),
        Err("missing V2 driver resource \"cat\" for competitor p1".to_string())
    );
    assert_eq!(
        driver_resource_for_competitor(&drivers, "p1", Some("bob")),
        Err("V2 driver resource key \"bob\" does not match embedded id \"robert\"".to_string())
    );
}

#[test]
fn session_pit_loss_and_laps_have_floors() {
    assert_eq!(resolve_pit_loss_ms(Some(500), 22_000), 1_000);
    assert_eq!(resolve_pit_loss_ms(Some(30_000), 22_000), 30_000);
    assert_eq!(resolve_pit_loss_ms(None, 22_000), 22_000);
    assert_eq!(laps_completed(0), 1);
    assert_eq!(laps_completed(12), 12);
}

#[test]
fn tires_resolve_by_id() {
    let tires = strings(&["soft", "hard"]);
    assert_eq!(resolve_tire(&tires, "hard"), Ok(1));
    assert_eq!(resolve_tire(&tires, "wet"), Err("unknown tire 'wet'".to_string()));
}
