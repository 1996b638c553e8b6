//! Race classification: per-competitor lap-time totals and the standings
//! ordered by total race time.

use vstd::prelude::*;

verus! {

/// One competitor's result before classification.
#[derive(Debug, PartialEq, Eq)]
pub struct SimulatedCompetitor {
    pub competitor_id: String,
    pub total_time_ms: u64,
    pub best_lap_ms: u64,
    pub laps_completed: u16,
}

/// Classification status of a competitor.
#[derive(Debug, PartialEq, Eq)]
pub enum StandingStatus {
    Finished,
    Dnf { reason: String },
    Dsq { reason: String },
}

/// One row of the published standings.
#[derive(Debug, PartialEq, Eq)]
pub struct StandingEntry {
    pub competitor_id: String,
    pub position: u32,
    pub total_time_ms: u64,
    pub best_lap_ms: u64,
    pub laps_completed: u16,
    pub gap_to_leader_ms: u64,
    pub status: StandingStatus,
}

/// Sum of a list of lap times.
pub open spec fn total_of(s: Seq<u64>) -> int
    decreases s.len(),
{
    if s.len() == 0 {
        0
    } else {
        total_of(s.drop_last()) + s.last()
    }
}

/// Smallest lap time, or 0 for no lap.
pub open spec fn best_of(s: Seq<u64>) -> u64
    decreases s.len(),
{
    if s.len() == 0 {
        0
    } else if s.len() == 1 {
        s[0]
    } else {
        let b = best_of(s.drop_last());
        if s.last() < b {
            s.last()
        } else {
            b
        }
    }
}

/// `best_of` is a lap of the list and no lap is faster.
pub proof fn lemma_best_is_fastest(s: Seq<u64>)
    requires
        s.len() > 0,
    ensures
        s.contains(best_of(s)),
        forall|i: int| 0 <= i < s.len() ==> best_of(s) <= #[trigger] s[i],
    decreases s.len(),
{
    if s.len() > 1 {
        lemma_best_is_fastest(s.drop_last());
        let b = best_of(s.drop_last());
        let k = choose|k: int| 0 <= k < s.len() - 1 && s.drop_last()[k] == b;
        if s.last() < b {
            assert(s[s.len() - 1] == s.last());
        } else {
            assert(s[k] == b);
        }
        assert forall|i: int| 0 <= i < s.len() implies best_of(s) <= #[trigger] s[i] by {
            if i < s.len() - 1 {
                assert(s.drop_last()[i] == s[i]);
            }
        }
    } else {
        assert(s[0] == best_of(s));
    }
}

proof fn lemma_total_monotone(s: Seq<u64>, i: int)
    requires
        0 <= i <= s.len(),
    ensures
        0 <= total_of(s.subrange(0, i)) <= total_of(s),
    decreases s.len() - i,
{
    if i < s.len() {
        lemma_total_monotone(s, i + 1);
        assert(s.subrange(0, i + 1).drop_last() =~= s.subrange(0, i));
    } else {
        assert(s.subrange(0, i) =~= s);
    }
    lemma_total_nonneg(s.subrange(0, i));
}

proof fn lemma_total_nonneg(s: Seq<u64>)
    ensures
        total_of(s) >= 0,
    decreases s.len(),
{
    if s.len() > 0 {
        lemma_total_nonneg(s.drop_last());
    }
}

/// Race time and best lap of one competitor's lap times.
pub fn lap_time_summary(lap_times_ms: &Vec<u64>) -> (out: (u64, u64))
    requires
        total_of(lap_times_ms@) <= u64::MAX,
    ensures
        out.0 == total_of(lap_times_ms@),
        out.1 == best_of(lap_times_ms@),
{
    let mut total: u64 = 0;
    let mut best: u64 = 0;
    let mut i: usize = 0;
    while i < lap_times_ms.len()
        invariant
            0 <= i <= lap_times_ms.len(),
            total_of(lap_times_ms@) <= u64::MAX,
            total == total_of(lap_times_ms@.subrange(0, i as int)),
            best == best_of(lap_times_ms@.subrange(0, i as int)),
        decreases lap_times_ms.len() - i,
    {
        proof {
            lemma_total_monotone(lap_times_ms@, i + 1);
            assert(lap_times_ms@.subrange(0, i + 1).drop_last() =~= lap_times_ms@.subrange(0, i as int));
        }
        let lap = lap_times_ms[i];
        total = total + lap;
        if i == 0 || lap < best {
            best = lap;
        }
        i = i + 1;
    }
    assert(lap_times_ms@.subrange(0, i as int) =~= lap_times_ms@);
    (total, best)
}

/// `a` is classified ahead of `b`: less race time, or the same time and
/// listed earlier.
pub open spec fn ahead(keys: Seq<u64>, a: usize, b: usize) -> bool {
    keys[a as int] < keys[b as int] || (keys[a as int] == keys[b as int] && a < b)
}

/// `order` lists every competitor index below `n` exactly once, leaders
/// first.
pub open spec fn is_finishing_order(keys: Seq<u64>, order: Seq<usize>, n: int) -> bool {
    &&& order.len() == n
    &&& forall|k: int| 0 <= k < order.len() ==> #[trigger] order[k] < n
    &&& forall|a: int, b: int| 0 <= a < b < order.len() ==> ahead(keys, order[a], order[b])
}

/// Orders competitors by total race time; ties keep their listed order.
pub fn finishing_order(total_times_ms: &Vec<u64>) -> (order: Vec<usize>)
    ensures
        is_finishing_order(total_times_ms@, order@, total_times_ms@.len() as int),
        order@.no_duplicates(),
{
    let keys = total_times_ms;
    let n = keys.len();
    let mut order: Vec<usize> = Vec::new();
    let mut i: usize = 0;
    while i < n
        invariant
            0 <= i <= n == keys@.len(),
            is_finishing_order(keys@, order@, i as int),
        decreases n - i,
    {
        let key = keys[i];
        let mut p: usize = 0;
        while p < order.len() && keys[order[p]] <= key
            invariant
                0 <= p <= order.len() == i,
                i < n == keys@.len(),
                is_finishing_order(keys@, order@, i as int),
                forall|k: int| 0 <= k < p ==> keys@[#[trigger] order@[k] as int] <= key,
            decreases order.len() - p,
        {
            p = p + 1;
        }
        let ghost before = order@;
        order.insert(p, i);
        assert forall|a: int, b: int| 0 <= a < b < order@.len() implies ahead(keys@, order@[a], order@[b]) by {
            if b < p {
                assert(order@[a] == before[a] && order@[b] == before[b]);
            } else if b == p {
                assert(order@[a] == before[a]);
                assert(keys@[before[a] as int] <= key);
            } else if a < p {
                assert(order@[a] == before[a] && order@[b] == before[b - 1]);
                assert(ahead(keys@, before[a], before[p as int])) by {
                    if p < b - 1 {
                    }
                }
            } else if a == p {
                assert(order@[b] == before[b - 1]);
                assert(keys@[before[p as int] as int] > key);
                if p < b - 1 {
                    assert(ahead(keys@, before[p as int], before[b - 1]));
                }
            } else {
                assert(order@[a] == before[a - 1] && order@[b] == before[b - 1]);
            }
        }
        i = i + 1;
    }
    proof {
        assert forall|a: int, b: int| 0 <= a < order@.len() && 0 <= b < order@.len() && a != b implies order@[a] != order@[b] by {
            if a < b {
                assert(ahead(keys@, order@[a], order@[b]));
            } else {
                assert(ahead(keys@, order@[b], order@[a]));
            }
        }
    }
    order
}

/// The total of the classification leader, or 0 with no competitor.
pub open spec fn leader_total(keys: Seq<u64>, order: Seq<usize>) -> u64 {
    if order.len() == 0 {
        0
    } else {
        keys[order[0] as int]
    }
}

/// Race times of a list of results.
pub open spec fn totals_of(rows: Seq<SimulatedCompetitor>) -> Seq<u64> {
    rows.map_values(|r: SimulatedCompetitor| r.total_time_ms)
}

/// Classifies the results: the `k`-th fastest total is position `k + 1`, ties
/// keep their listed order, and each gap is measured to the leader. Also
/// returns the leader's race time (0 with no competitor).
pub fn build_standings(rows: &Vec<SimulatedCompetitor>) -> (out: (Vec<StandingEntry>, u64))
    ensures
        exists|order: Seq<usize>|
            {
                &&& is_finishing_order(totals_of(rows@), order, rows@.len() as int)
                &&& out.1 == leader_total(totals_of(rows@), order)
                &&& out.0@.len() == rows@.len()
                &&& forall|k: int|
                    0 <= k < rows@.len() ==> {
                        let row = rows@[order[k] as int];
                        let e = #[trigger] out.0@[k];
                        &&& e.competitor_id == row.competitor_id
                        &&& e.position == (k + 1) as u32
                        &&& e.total_time_ms == row.total_time_ms
                        &&& e.best_lap_ms == row.best_lap_ms
                        &&& e.laps_completed == row.laps_completed
                        &&& e.gap_to_leader_ms == row.total_time_ms - out.1
                        &&& e.status is Finished
                    }
            },
{
    let mut totals: Vec<u64> = Vec::new();
    let mut i: usize = 0;
    while i < rows.len()
        invariant
            0 <= i <= rows.len(),
            totals@ == totals_of(rows@).subrange(0, i as int),
        decreases rows.len() - i,
    {
        totals.push(rows[i].total_time_ms);
        i = i + 1;
        assert(totals@ =~= totals_of(rows@).subrange(0, i as int));
    }
    assert(totals@ =~= totals_of(rows@));
    let order = finishing_order(&totals);
    let leader: u64 = if order.len() > 0 {
        totals[order[0]]
    } else {
        0
    };
    proof {
        assert forall|k: int| 0 <= k < order@.len() implies totals@[order@[0] as int] <= totals@[#[trigger] order@[k] as int] by {
            if k > 0 {
                assert(ahead(totals@, order@[0], order@[k]));
            }
        }
    }
    let mut standings: Vec<StandingEntry> = Vec::new();
    let mut k: usize = 0;
    while k < order.len()
        invariant
            0 <= k <= order.len() == rows@.len() == totals@.len(),
            totals@ == totals_of(rows@),
            is_finishing_order(totals@, order@, rows@.len() as int),
            leader == leader_total(totals@, order@),
            forall|j: int| 0 <= j < order@.len() ==> leader <= totals@[#[trigger] order@[j] as int],
            standings@.len() == k,
            forall|j: int|
                0 <= j < k ==> {
                    let row = rows@[order@[j] as int];
                    let e = #[trigger] standings@[j];
                    &&& e.competitor_id == row.competitor_id
                    &&& e.position == (j + 1) as u32
                    &&& e.total_time_ms == row.total_time_ms
                    &&& e.best_lap_ms == row.best_lap_ms
                    &&& e.laps_completed == row.laps_completed
                    &&& e.gap_to_leader_ms == row.total_time_ms - leader
                    &&& e.status is Finished
                },
        decreases order.len() - k,
    {
        let row = &rows[order[k]];
        assert(totals@[order@[k as int] as int] == row.total_time_ms);
        let position: u32 = ((k as u64) + 1) as u32;
        standings.push(
            StandingEntry {
                competitor_id: row.competitor_id.clone(),
                position,
                total_time_ms: row.total_time_ms,
                best_lap_ms: row.best_lap_ms,
                laps_completed: row.laps_completed,
                gap_to_leader_ms: row.total_time_ms.saturating_sub(leader),
                status: StandingStatus::Finished,
            },
        );
        k = k + 1;
    }
    (standings, leader)
}

/// In a finishing order race times never decrease with position: the leader
/// has the least time, so its gap is zero and every later gap is at least
/// the one before it.
pub proof fn lemma_gaps_grow_with_position(keys: Seq<u64>, order: Seq<usize>, a: int, b: int)
    requires
        is_finishing_order(keys, order, keys.len() as int),
        0 <= a <= b < order.len(),
    ensures
        keys[order[a] as int] <= keys[order[b] as int],
        leader_total(keys, order) <= keys[order[a] as int],
        keys[order[a] as int] - leader_total(keys, order) <= keys[order[b] as int] - leader_total(keys, order),
{
    if a < b {
        assert(ahead(keys, order[a], order[b]));
    }
    if 0 < a {
        assert(ahead(keys, order[0], order[a]));
    }
}

} // verus!
