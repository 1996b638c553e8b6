use pitgun_racing::solver::{
    default_lap_count, deterministic_noise_seed, sequential_gear_step, tire_stop_for_lap,
    utilization_sample_raw, CurvatureAeroResponse, SetupResponseDiagnosticsVersion,
    TuningResponseVersion,
};

#[test]
fn sequential_gearbox_moves_one_gear_at_a_time() {
    assert_eq!(sequential_gear_step(3, 8, true, true, false), (4, true));
    assert_eq!(sequential_gear_step(8, 8, true, true, false), (8, false));
    assert_eq!(sequential_gear_step(3, 8, true, false, true), (2, true));
    assert_eq!(sequential_gear_step(1, 8, true, false, true), (1, false));
    assert_eq!(sequential_gear_step(0, 8, false, true, false), (1, false));
    assert_eq!(sequential_gear_step(12, 6, false, false, false), (6, false));
    assert_eq!(sequential_gear_step(5, 0, false, true, true), (1, false));
}

#[test]
fn each_lap_runs_on_the_last_tire_fitted_before_it() {
    let stops = vec![2, 5];
    assert_eq!(tire_stop_for_lap(&stops, 0), None);
    assert_eq!(tire_stop_for_lap(&stops, 2), None);
    assert_eq!(tire_stop_for_lap(&stops, 3), Some(0));
    assert_eq!(tire_stop_for_lap(&stops, 6), Some(1));
    assert_eq!(tire_stop_for_lap(&vec![], 9), None);
}

#[test]
fn noise_seeds_are_md5_prefixes_of_the_lap_identity() {
    assert_eq!(deterministic_noise_seed(42, "default", 3), 644448362);
    assert_eq!(deterministic_noise_seed(0, "p", 0), 1587804045);
    assert_eq!(utilization_sample_raw(7, "ace", 1, 5, "cornering"), 11186079448812305076);
}

#[test]
fn schema_tags_and_defaults() {
    assert_eq!(default_lap_count(), 1);
    assert_eq!(CurvatureAeroResponse::default(), CurvatureAeroResponse::LegacyBinary);
    assert_eq!(TuningResponseVersion::V1.schema_name(), "pitgun.racing-tuning-response/v1");
    assert_eq!(SetupResponseDiagnosticsVersion::default().schema_name(), "pitgun.racing-setup-response/v1");
}
