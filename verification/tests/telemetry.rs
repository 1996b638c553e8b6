use std::collections::hash_map::DefaultHasher;
use std::hash::{Hash, Hasher};
use pitgun_racing::telemetry::{session_id_from_hash, telemetry_batches, telemetry_metadata, telemetry_session_id};

#[test]
fn frames_are_batched_by_sixty_four_in_order() {
    let frames: Vec<u32> = (0..130).collect();
    let batches = telemetry_batches(frames.clone());
    assert_eq!(batches.iter().map(|b| b.len()).collect::<Vec<_>>(), vec![64, 64, 2]);
    assert_eq!(batches.concat(), frames);
    assert!(telemetry_batches(Vec::<u32>::new()).is_empty());
    assert_eq!(telemetry_batches((0..64).collect::<Vec<u32>>()).len(), 1);
}

#[test]
fn session_ids_fit_in_a_json_number_and_are_deterministic() {
    let a = telemetry_session_id(42, "MONZA", "player");
    let b = telemetry_session_id(42, "MONZA", "player");
    assert_eq!(a, b);
    assert!(a >= 1 && a < (1u64 << 53));
    assert!(telemetry_session_id(43, "MONZA", "player") < (1u64 << 53));
}

#[test]
fn hashes_are_cut_to_fifty_three_bits_and_never_zero() {
    assert_eq!(session_id_from_hash(0), 1);
    assert_eq!(session_id_from_hash(1u64 << 53), 1);
    assert_eq!(session_id_from_hash(u64::MAX), (1u64 << 53) - 1);
    assert_eq!(session_id_from_hash(12345), 12345);
    assert_eq!(session_id_from_hash((1u64 << 60) | 7), 7);
}

#[test]
fn metadata_records_role_and_last_tire() {
    let meta = telemetry_metadata("MONZA", "f1_2026", "player", "default", &vec!["soft".to_string(), "hard".to_string()], "5");
    assert_eq!(meta.len(), 7);
    assert_eq!(meta[4], ("role".to_string(), "player".to_string()));
    assert_eq!(meta[6], ("tire_id".to_string(), "hard".to_string()));
    let ai = telemetry_metadata("MONZA", "f1_2026", "ai-2", "default", &vec![], "5");
    assert_eq!(ai.len(), 6);
    assert_eq!(ai[4].1, "ai");
    assert_eq!(ai[5], ("sampling_hz".to_string(), "5".to_string()));
}

#[test]
fn session_id_is_the_std_hash_of_seed_track_and_competitor() {
    for (seed, track, competitor) in [(42u64, "MONZA", "player"), (0, "SPA", "ai-1"), (u64::MAX, "", "")] {
        let mut hasher = DefaultHasher::new();
        seed.hash(&mut hasher);
        track.hash(&mut hasher);
        competitor.hash(&mut hasher);
        let expected = session_id_from_hash(hasher.finish());
        assert_eq!(telemetry_session_id(seed, track, competitor), expected);
    }
    assert_ne!(telemetry_session_id(1, "MONZA", "player"), telemetry_session_id(2, "MONZA", "player"));
}
