use pitgun_racing::stint::{
    apply_pit_loss, pit_stop_tires, resolve_explicit_stint_plan, resolve_stint_plan,
    sanitize_pit_laps, ResolvedStintPlan, StintSpec, StintStrategy,
};

fn stint(tire: &str, laps: u16) -> StintSpec {
    StintSpec { tire_id: tire.to_string(), laps }
}

#[test]
fn pit_laps_are_sorted_unique_and_inside_the_race() {
    assert_eq!(sanitize_pit_laps(&vec![5, 0, 3, 5, 10, 12, 3], 10), vec![3, 5]);
    assert_eq!(sanitize_pit_laps(&vec![1, 2], 1), Vec::<u16>::new());
    assert_eq!(sanitize_pit_laps(&vec![], 20), Vec::<u16>::new());
    assert_eq!(sanitize_pit_laps(&vec![9, 1], 10), vec![1, 9]);
}

#[test]
fn explicit_strategy_resolves_tires_and_boundaries() {
    let strategy = StintStrategy { stints: vec![stint("soft", 2), stint("hard", 3)], pit_laps: vec![] };
    let plan = resolve_explicit_stint_plan(&strategy, 5).expect("plan");
    assert_eq!(plan.tire_by_lap, vec!["soft", "soft", "hard", "hard", "hard"]);
    assert_eq!(plan.pit_laps, vec![2]);

    let declared = StintStrategy { stints: vec![stint("soft", 2), stint("hard", 3)], pit_laps: vec![2, 2] };
    assert_eq!(resolve_explicit_stint_plan(&declared, 5).expect("plan").pit_laps, vec![2]);
}

#[test]
fn explicit_strategy_errors_name_the_first_problem() {
    let empty = StintStrategy { stints: vec![], pit_laps: vec![] };
    assert_eq!(
        resolve_explicit_stint_plan(&empty, 3).unwrap_err(),
        "stint_strategy requires at least one stint"
    );
    let blank = StintStrategy { stints: vec![stint("soft", 1), stint("  ", 0)], pit_laps: vec![] };
    assert_eq!(resolve_explicit_stint_plan(&blank, 3).unwrap_err(), "stint 1 has an empty tire_id");
    let zero = StintStrategy { stints: vec![stint("soft", 0)], pit_laps: vec![] };
    assert_eq!(resolve_explicit_stint_plan(&zero, 3).unwrap_err(), "stint 0 must have at least 1 lap");
    let short = StintStrategy { stints: vec![stint("soft", 1), stint("hard", 1)], pit_laps: vec![] };
    assert_eq!(
        resolve_explicit_stint_plan(&short, 3).unwrap_err(),
        "stint_strategy laps must sum to 3, got 2"
    );
    let mismatch = StintStrategy { stints: vec![stint("soft", 2), stint("hard", 1)], pit_laps: vec![1] };
    assert_eq!(
        resolve_explicit_stint_plan(&mismatch, 3).unwrap_err(),
        "stint_strategy pit_laps [1] does not match stint boundaries [2]"
    );
}

#[test]
fn default_plan_uses_the_default_tire_and_player_pits() {
    let player = resolve_stint_plan(None, false, "player", 4, "medium", &vec![3, 1, 9]).expect("plan");
    assert_eq!(player.tire_by_lap, vec!["medium"; 4]);
    assert_eq!(player.pit_laps, vec![1, 3]);
    let ai = resolve_stint_plan(None, false, "ai-1", 4, "medium", &vec![3]).expect("plan");
    assert!(ai.pit_laps.is_empty());
    let flagged = resolve_stint_plan(None, true, "me", 4, "medium", &vec![2]).expect("plan");
    assert_eq!(flagged.pit_laps, vec![2]);
    let strategy = StintStrategy { stints: vec![stint("soft", 4)], pit_laps: vec![] };
    let explicit = resolve_stint_plan(Some(&strategy), true, "player", 4, "medium", &vec![2]).expect("plan");
    assert_eq!(explicit.tire_by_lap, vec!["soft"; 4]);
    assert!(explicit.pit_laps.is_empty());
}

#[test]
fn pit_stops_take_the_tire_of_the_next_lap() {
    let plan = ResolvedStintPlan {
        tire_by_lap: vec!["soft".to_string(), "soft".to_string(), "hard".to_string()],
        pit_laps: vec![2],
    };
    let known = vec!["soft".to_string(), "hard".to_string()];
    assert_eq!(pit_stop_tires(&plan, &known).expect("stops"), vec![(2, "hard".to_string())]);
    let unknown = vec!["soft".to_string()];
    assert_eq!(pit_stop_tires(&plan, &unknown).unwrap_err(), "unknown tire 'hard'");
    let beyond = ResolvedStintPlan { tire_by_lap: vec!["soft".to_string()], pit_laps: vec![4] };
    assert_eq!(pit_stop_tires(&beyond, &known).unwrap_err(), "missing tire assignment for lap 5");
}

#[test]
fn pit_loss_is_added_to_pit_laps_with_saturation() {
    assert_eq!(apply_pit_loss(&vec![90_000, 91_000, 92_000], &vec![2], 22_000), vec![90_000, 113_000, 92_000]);
    assert_eq!(apply_pit_loss(&vec![u64::MAX - 1], &vec![1], 5), vec![u64::MAX]);
    assert_eq!(apply_pit_loss(&vec![], &vec![1], 5), Vec::<u64>::new());
}
