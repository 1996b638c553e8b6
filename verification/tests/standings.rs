use pitgun_racing::standings::{
    build_standings, finishing_order, lap_time_summary, SimulatedCompetitor, StandingStatus,
};

fn row(id: &str, total: u64, best: u64) -> SimulatedCompetitor {
    SimulatedCompetitor { competitor_id: id.to_string(), total_time_ms: total, best_lap_ms: best, laps_completed: 3 }
}

#[test]
fn lap_summary_sums_and_finds_the_best_lap() {
    assert_eq!(lap_time_summary(&vec![90_500, 89_900, 91_000]), (271_400, 89_900));
    assert_eq!(lap_time_summary(&vec![]), (0, 0));
}

#[test]
fn finishing_order_is_stable_by_total_time() {
    assert_eq!(finishing_order(&vec![300, 100, 300, 200]), vec![1, 3, 0, 2]);
    assert_eq!(finishing_order(&vec![]), Vec::<usize>::new());
}

#[test]
fn standings_number_positions_and_measure_gaps_to_the_leader() {
    let (standings, leader) = build_standings(&vec![row("b", 300, 95), row("a", 250, 80), row("c", 300, 90)]);
    assert_eq!(leader, 250);
    let ids: Vec<&str> = standings.iter().map(|e| e.competitor_id.as_str()).collect();
    assert_eq!(ids, vec!["a", "b", "c"]);
    assert_eq!(standings.iter().map(|e| e.position).collect::<Vec<_>>(), vec![1, 2, 3]);
    assert_eq!(standings.iter().map(|e| e.gap_to_leader_ms).collect::<Vec<_>>(), vec![0, 50, 50]);
    assert_eq!(standings[2].best_lap_ms, 90);
    assert!(standings.iter().all(|e| e.status == StandingStatus::Finished));
    let (empty, no_leader) = build_standings(&vec![]);
    assert!(empty.is_empty());
    assert_eq!(no_leader, 0);
}
