//! Stint plans: which tire each lap runs on and after which laps the car
//! pits, plus the pit-loss bookkeeping applied to lap times.

use vstd::prelude::*;
use vstd::string::*;

use crate::text::{
    debug_u16_list, decimal, push_decimal, push_u16_list, same_text, trim_text, trimmed,
};

verus! {

/// A pit lap is usable when it lies strictly inside the race.
pub open spec fn pit_lap_in_range(lap: u16, total_laps: u16) -> bool {
    0 < lap && lap < total_laps
}

/// Strictly increasing, hence sorted and free of repeats.
pub open spec fn strictly_increasing(s: Seq<u16>) -> bool {
    forall|i: int, j: int| 0 <= i < j < s.len() ==> s[i] < s[j]
}

/// `out` is the sorted, repeat-free list of the usable laps named in `raw`.
pub open spec fn is_sanitized(out: Seq<u16>, raw: Seq<u16>, total_laps: u16) -> bool {
    &&& strictly_increasing(out)
    &&& forall|x: u16|
        #![trigger out.contains(x)]
        #![trigger raw.contains(x)]
        out.contains(x) <==> (total_laps > 1 && raw.contains(x) && pit_lap_in_range(x, total_laps))
}

/// The sanitized pit laps of `raw` (unique by `lemma_sanitized_unique`).
pub open spec fn sanitized_pit_laps(raw: Seq<u16>, total_laps: u16) -> Seq<u16> {
    choose|out: Seq<u16>| is_sanitized(out, raw, total_laps)
}

/// Two strictly increasing lists with the same members are equal.
pub proof fn lemma_ascending_unique(s: Seq<u16>, t: Seq<u16>)
    requires
        strictly_increasing(s),
        strictly_increasing(t),
        forall|x: u16| #![trigger s.contains(x)] #![trigger t.contains(x)] s.contains(x) <==> t.contains(x),
    ensures
        s == t,
    decreases s.len() + t.len(),
{
    if s.len() == 0 {
        if t.len() > 0 {
            assert(t.contains(t[0]));
        }
        assert(s =~= t);
    } else if t.len() == 0 {
        assert(s.contains(s[0]));
    } else {
        let a = s.last();
        let b = t.last();
        assert(s.contains(a));
        assert(t.contains(b));
        let i = choose|i: int| 0 <= i < s.len() && s[i] == b;
        let j = choose|j: int| 0 <= j < t.len() && t[j] == a;
        assert(b <= a) by {
            if i < s.len() - 1 {
                assert(s[i] < s[s.len() - 1]);
            }
        }
        assert(a <= b) by {
            if j < t.len() - 1 {
                assert(t[j] < t[t.len() - 1]);
            }
        }
        let s2 = s.drop_last();
        let t2 = t.drop_last();
        assert forall|x: u16| #![trigger s2.contains(x)] #![trigger t2.contains(x)] s2.contains(x) <==> t2.contains(x) by {
            if s2.contains(x) {
                let k = choose|k: int| 0 <= k < s2.len() && s2[k] == x;
                assert(s[k] < s[s.len() - 1]);
                assert(s.contains(x));
                let m = choose|m: int| 0 <= m < t.len() && t[m] == x;
                if m == t.len() - 1 {
                    assert(false);
                }
                assert(t2[m] == x);
            }
            if t2.contains(x) {
                let k = choose|k: int| 0 <= k < t2.len() && t2[k] == x;
                assert(t[k] < t[t.len() - 1]);
                assert(t.contains(x));
                let m = choose|m: int| 0 <= m < s.len() && s[m] == x;
                if m == s.len() - 1 {
                    assert(false);
                }
                assert(s2[m] == x);
            }
        }
        lemma_ascending_unique(s2, t2);
        assert(s =~= s2.push(a));
        assert(t =~= t2.push(b));
    }
}

/// Sanitizing has exactly one outcome.
pub proof fn lemma_sanitized_unique(out: Seq<u16>, raw: Seq<u16>, total_laps: u16)
    requires
        is_sanitized(out, raw, total_laps),
    ensures
        sanitized_pit_laps(raw, total_laps) == out,
{
    let c = sanitized_pit_laps(raw, total_laps);
    assert(is_sanitized(c, raw, total_laps));
    lemma_ascending_unique(c, out);
}

/// Keeps the laps strictly inside the race, sorted and without repeats; a
/// race of at most one lap has no pit laps.
pub fn sanitize_pit_laps(raw_laps: &Vec<u16>, total_laps: u16) -> (out: Vec<u16>)
    ensures
        is_sanitized(out@, raw_laps@, total_laps),
        out@ == sanitized_pit_laps(raw_laps@, total_laps),
{
    let mut out: Vec<u16> = Vec::new();
    if total_laps <= 1 {
        proof {
            lemma_sanitized_unique(out@, raw_laps@, total_laps);
        }
        return out;
    }
    let mut i: usize = 0;
    while i < raw_laps.len()
        invariant
            0 <= i <= raw_laps.len(),
            total_laps > 1,
            strictly_increasing(out@),
            forall|x: u16|
                #![trigger out@.contains(x)]
                out@.contains(x) <==> (raw_laps@.subrange(0, i as int).contains(x)
                    && pit_lap_in_range(x, total_laps)),
        decreases raw_laps.len() - i,
    {
        let lap = raw_laps[i];
        let ghost before = out@;
        let ghost prefix = raw_laps@.subrange(0, i as int);
        let ghost next_prefix = raw_laps@.subrange(0, i + 1);
        assert(next_prefix =~= prefix.push(lap));
        if 0 < lap && lap < total_laps {
            let mut p: usize = 0;
            while p < out.len() && out[p] < lap
                invariant
                    0 <= p <= out.len(),
                    out@ == before,
                    forall|k: int| 0 <= k < p ==> out@[k] < lap,
                decreases out.len() - p,
            {
                p = p + 1;
            }
            if p < out.len() && out[p] == lap {
                assert forall|x: u16| #![trigger out@.contains(x)]
                    out@.contains(x) <==> (next_prefix.contains(x) && pit_lap_in_range(x, total_laps)) by {
                    if x == lap {
                        assert(out@[p as int] == x);
                        assert(next_prefix[i as int] == x);
                    }
                    if next_prefix.contains(x) && x != lap {
                        let k = choose|k: int| 0 <= k < next_prefix.len() && next_prefix[k] == x;
                        assert(prefix[k] == x);
                    }
                    if prefix.contains(x) {
                        let k = choose|k: int| 0 <= k < prefix.len() && prefix[k] == x;
                        assert(next_prefix[k] == x);
                    }
                }
            } else {
                out.insert(p, lap);
                assert forall|a: int, b: int| 0 <= a < b < out@.len() implies out@[a] < out@[b] by {
                    if b < p {
                    } else if b == p {
                    } else if a < p {
                        assert(out@[a] == before[a]);
                        assert(out@[b] == before[b - 1]);
                        if p < before.len() {
                            assert(before[p as int] > lap);
                            if b - 1 > p {
                                assert(before[p as int] < before[b - 1]);
                            }
                        }
                    } else if a == p {
                        assert(before[p as int] > lap);
                        if b - 1 > p {
                            assert(before[p as int] < before[b - 1]);
                        }
                    } else {
                        assert(before[a - 1] < before[b - 1]);
                    }
                }
                assert forall|x: u16| #![trigger out@.contains(x)]
                    out@.contains(x) <==> (next_prefix.contains(x) && pit_lap_in_range(x, total_laps)) by {
                    if out@.contains(x) {
                        let k = choose|k: int| 0 <= k < out@.len() && out@[k] == x;
                        if k < p {
                            assert(before[k] == x);
                            assert(before.contains(x));
                        } else if k > p {
                            assert(before[k - 1] == x);
                            assert(before.contains(x));
                        } else {
                            assert(next_prefix[i as int] == x);
                        }
                        if x != lap {
                            let m = choose|m: int| 0 <= m < prefix.len() && prefix[m] == x;
                            assert(next_prefix[m] == x);
                        }
                    }
                    if next_prefix.contains(x) && pit_lap_in_range(x, total_laps) {
                        if x == lap {
                            assert(out@[p as int] == x);
                        } else {
                            let k = choose|k: int| 0 <= k < next_prefix.len() && next_prefix[k] == x;
                            assert(prefix[k] == x);
                            assert(before.contains(x));
                            let m = choose|m: int| 0 <= m < before.len() && before[m] == x;
                            if m < p {
                                assert(out@[m] == x);
                            } else {
                                assert(out@[m + 1] == x);
                            }
                        }
                    }
                }
            }
        } else {
            assert forall|x: u16| #![trigger out@.contains(x)]
                out@.contains(x) <==> (next_prefix.contains(x) && pit_lap_in_range(x, total_laps)) by {
                if next_prefix.contains(x) && pit_lap_in_range(x, total_laps) {
                    let k = choose|k: int| 0 <= k < next_prefix.len() && next_prefix[k] == x;
                    assert(k != i);
                    assert(prefix[k] == x);
                }
                if prefix.contains(x) {
                    let k = choose|k: int| 0 <= k < prefix.len() && prefix[k] == x;
                    assert(next_prefix[k] == x);
                }
            }
        }
        i = i + 1;
    }
    assert(raw_laps@.subrange(0, raw_laps@.len() as int) =~= raw_laps@);
    proof {
        lemma_sanitized_unique(out@, raw_laps@, total_laps);
    }
    out
}

/// One stint of a competitor's strategy.
#[derive(Debug, PartialEq, Eq)]
pub struct StintSpec {
    pub tire_id: String,
    pub laps: u16,
}

/// A declared stint strategy: the stints in order and, optionally, the pit
/// laps the author expects them to produce.
#[derive(Debug, PartialEq, Eq)]
pub struct StintStrategy {
    pub stints: Vec<StintSpec>,
    pub pit_laps: Vec<u16>,
}

/// The tire of every lap and the laps after which the car pits.
#[derive(Debug, PartialEq, Eq)]
pub struct ResolvedStintPlan {
    pub tire_by_lap: Vec<String>,
    pub pit_laps: Vec<u16>,
}

/// A stint is rejected when its tire is blank or it runs no lap.
pub open spec fn stint_is_bad(st: StintSpec) -> bool {
    trimmed(st.tire_id@).len() == 0 || st.laps == 0
}

/// Index of the first rejected stint at or after `i`, or `s.len()`.
pub open spec fn first_bad_stint_from(s: Seq<StintSpec>, i: int) -> int
    decreases s.len() - i,
{
    if i < 0 || i >= s.len() {
        s.len() as int
    } else if stint_is_bad(s[i]) {
        i
    } else {
        first_bad_stint_from(s, i + 1)
    }
}

/// Error text of the rejected stint `i`.
pub open spec fn stint_error_message(s: Seq<StintSpec>, i: int) -> Seq<char> {
    if trimmed(s[i].tire_id@).len() == 0 {
        "stint "@ + decimal(i as nat) + " has an empty tire_id"@
    } else {
        "stint "@ + decimal(i as nat) + " must have at least 1 lap"@
    }
}

/// Laps run by the first `k` stints, saturated at `u16::MAX`.
pub open spec fn saturated_laps(s: Seq<StintSpec>, k: int) -> int
    decreases k,
{
    if k <= 0 {
        0
    } else {
        let sum = saturated_laps(s, k - 1) + s[k - 1].laps;
        if sum > u16::MAX {
            u16::MAX as int
        } else {
            sum
        }
    }
}

/// The tire of each lap run by the first `k` stints.
pub open spec fn lap_tires(s: Seq<StintSpec>, k: int) -> Seq<String>
    decreases k,
{
    if k <= 0 {
        Seq::empty()
    } else {
        lap_tires(s, k - 1) + Seq::new(s[k - 1].laps as nat, |_l: int| s[k - 1].tire_id)
    }
}

/// The pit laps at the stint boundaries met among the first `k` stints: the
/// end of every stint but the last, when it lies strictly inside the race.
pub open spec fn boundary_laps(s: Seq<StintSpec>, total_laps: u16, k: int) -> Seq<u16>
    decreases k,
{
    if k <= 0 {
        Seq::empty()
    } else {
        let c = saturated_laps(s, k);
        boundary_laps(s, total_laps, k - 1) + if k - 1 < s.len() - 1 && 0 < c && c < total_laps {
            seq![c as u16]
        } else {
            Seq::empty()
        }
    }
}

/// What resolving an explicit strategy yields: the lap tires and pit laps, or
/// the error text.
pub open spec fn explicit_plan(stints: Seq<StintSpec>, declared: Seq<u16>, total_laps: u16) -> Result<
    (Seq<String>, Seq<u16>),
    Seq<char>,
> {
    let n = stints.len() as int;
    let bad = first_bad_stint_from(stints, 0);
    let sum = saturated_laps(stints, n);
    let pits = boundary_laps(stints, total_laps, n);
    let sane = sanitized_pit_laps(declared, total_laps);
    if n == 0 {
        Err("stint_strategy requires at least one stint"@)
    } else if bad < n {
        Err(stint_error_message(stints, bad))
    } else if sum != total_laps {
        Err("stint_strategy laps must sum to "@ + decimal(total_laps as nat) + ", got "@ + decimal(
            sum as nat,
        ))
    } else if sane.len() > 0 && sane != pits {
        Err("stint_strategy pit_laps "@ + debug_u16_list(sane) + " does not match stint boundaries "@
            + debug_u16_list(pits))
    } else {
        Ok((lap_tires(stints, n), pits))
    }
}

/// `out` is the executable form of a spec outcome.
pub open spec fn plan_matches(out: Result<ResolvedStintPlan, String>, expected: Result<(Seq<String>, Seq<u16>), Seq<char>>) -> bool {
    match (out, expected) {
        (Ok(plan), Ok((tires, pits))) => plan.tire_by_lap@ == tires && plan.pit_laps@ == pits,
        (Err(e), Err(m)) => e@ == m,
        _ => false,
    }
}

proof fn lemma_saturated_laps_bounded(s: Seq<StintSpec>, k: int)
    ensures
        0 <= saturated_laps(s, k) <= u16::MAX,
    decreases k,
{
    if k > 0 {
        lemma_saturated_laps_bounded(s, k - 1);
    }
}

/// Resolves an explicit stint strategy into lap tires and pit laps.
///
/// Stints are checked in order (a blank tire, then a stint of no lap); the
/// laps must add up to the race distance, and declared pit laps, when given,
/// must be exactly the stint boundaries.
pub fn resolve_explicit_stint_plan(strategy: &StintStrategy, total_laps: u16) -> (out: Result<
    ResolvedStintPlan,
    String,
>)
    ensures
        plan_matches(out, explicit_plan(strategy.stints@, strategy.pit_laps@, total_laps)),
{
    let stints = &strategy.stints;
    let n = stints.len();
    if n == 0 {
        return Err(String::from_str("stint_strategy requires at least one stint"));
    }
    let mut tire_by_lap: Vec<String> = Vec::new();
    let mut pit_laps: Vec<u16> = Vec::new();
    let mut cumulative: u16 = 0;
    let mut idx: usize = 0;
    while idx < n
        invariant
            n == stints@.len() > 0,
            stints@ == strategy.stints@,
            0 <= idx <= n,
            first_bad_stint_from(stints@, 0) == first_bad_stint_from(stints@, idx as int),
            cumulative == saturated_laps(stints@, idx as int),
            tire_by_lap@ == lap_tires(stints@, idx as int),
            pit_laps@ == boundary_laps(stints@, total_laps, idx as int),
        decreases n - idx,
    {
        let stint = &stints[idx];
        let tire = trim_text(stint.tire_id.as_str());
        if tire.as_str().is_empty() {
            proof {
                assert(stint_is_bad(stints@[idx as int]));
                assert(first_bad_stint_from(stints@, idx as int) == idx);
            }
            let mut message = String::from_str("stint ");
            push_decimal(&mut message, idx as u64);
            message.append(" has an empty tire_id");
            return Err(message);
        }
        if stint.laps == 0 {
            proof {
                assert(stint_is_bad(stints@[idx as int]));
                assert(first_bad_stint_from(stints@, idx as int) == idx);
            }
            let mut message = String::from_str("stint ");
            push_decimal(&mut message, idx as u64);
            message.append(" must have at least 1 lap");
            return Err(message);
        }
        let ghost before = tire_by_lap@;
        let mut l: u16 = 0;
        while l < stint.laps
            invariant
                0 <= l <= stint.laps,
                idx < n == stints@.len(),
                stint == stints@[idx as int],
                tire_by_lap@ == before + Seq::new(l as nat, |_l: int| stint.tire_id),
            decreases stint.laps - l,
        {
            tire_by_lap.push(stint.tire_id.clone());
            l = l + 1;
            assert(tire_by_lap@ =~= before + Seq::new(l as nat, |_l: int| stint.tire_id));
        }
        cumulative = cumulative.saturating_add(stint.laps);
        if idx < n - 1 && cumulative > 0 && cumulative < total_laps {
            pit_laps.push(cumulative);
        }
        proof {
            assert(!stint_is_bad(stints@[idx as int]));
            assert(lap_tires(stints@, idx + 1) =~= lap_tires(stints@, idx as int) + Seq::new(
                stints@[idx as int].laps as nat,
                |_l: int| stints@[idx as int].tire_id,
            ));
            lemma_saturated_laps_bounded(stints@, idx as int);
            assert(pit_laps@ =~= boundary_laps(stints@, total_laps, idx + 1));
        }
        idx = idx + 1;
    }
    if cumulative != total_laps {
        let mut message = String::from_str("stint_strategy laps must sum to ");
        push_decimal(&mut message, total_laps as u64);
        message.append(", got ");
        push_decimal(&mut message, cumulative as u64);
        return Err(message);
    }
    let declared = sanitize_pit_laps(&strategy.pit_laps, total_laps);
    if declared.len() > 0 && !same_laps(&declared, &pit_laps) {
        let mut message = String::from_str("stint_strategy pit_laps ");
        push_u16_list(&mut message, &declared);
        message.append(" does not match stint boundaries ");
        push_u16_list(&mut message, &pit_laps);
        return Err(message);
    }
    Ok(ResolvedStintPlan { tire_by_lap, pit_laps })
}

/// Element-wise equality of two lap lists.
fn same_laps(a: &Vec<u16>, b: &Vec<u16>) -> (r: bool)
    ensures
        r == (a@ == b@),
{
    if a.len() != b.len() {
        return false;
    }
    let mut i: usize = 0;
    while i < a.len()
        invariant
            0 <= i <= a.len() == b.len(),
            a@.subrange(0, i as int) == b@.subrange(0, i as int),
        decreases a.len() - i,
    {
        if a[i] != b[i] {
            return false;
        }
        assert(a@.subrange(0, i + 1) =~= a@.subrange(0, i as int).push(a@[i as int]));
        assert(b@.subrange(0, i + 1) =~= b@.subrange(0, i as int).push(b@[i as int]));
        i = i + 1;
    }
    assert(a@ =~= a@.subrange(0, i as int));
    assert(b@ =~= b@.subrange(0, i as int));
    true
}

/// Whether a competitor gets the legacy player pit laps.
pub open spec fn is_player_competitor(is_player: bool, competitor_id: Seq<char>) -> bool {
    is_player || competitor_id == "player"@
}

/// Resolves a competitor's stint plan: its explicit strategy when it has one,
/// otherwise the default tire on every lap, with the legacy player pit laps
/// for the player and no stop for anyone else.
pub fn resolve_stint_plan(
    strategy: Option<&StintStrategy>,
    is_player: bool,
    competitor_id: &str,
    total_laps: u16,
    default_tire_id: &str,
    legacy_player_pit_laps: &Vec<u16>,
) -> (out: Result<ResolvedStintPlan, String>)
    ensures
        strategy matches Some(st) ==> plan_matches(
            out,
            explicit_plan(st.stints@, st.pit_laps@, total_laps),
        ),
        strategy is None ==> (out matches Ok(plan) && {
            &&& plan.tire_by_lap@.len() == total_laps
            &&& forall|i: int|
                0 <= i < total_laps ==> (#[trigger] plan.tire_by_lap@[i])@ == default_tire_id@
            &&& plan.pit_laps@ == if is_player_competitor(is_player, competitor_id@) {
                sanitized_pit_laps(legacy_player_pit_laps@, total_laps)
            } else {
                Seq::empty()
            }
        }),
{
    if let Some(st) = strategy {
        return resolve_explicit_stint_plan(st, total_laps);
    }
    let pit_laps = if is_player || same_text(competitor_id, "player") {
        sanitize_pit_laps(legacy_player_pit_laps, total_laps)
    } else {
        Vec::new()
    };
    let mut tire_by_lap: Vec<String> = Vec::new();
    let mut l: u16 = 0;
    while l < total_laps
        invariant
            0 <= l <= total_laps,
            tire_by_lap@.len() == l,
            forall|i: int| 0 <= i < l ==> (#[trigger] tire_by_lap@[i])@ == default_tire_id@,
        decreases total_laps - l,
    {
        tire_by_lap.push(String::from_str(default_tire_id));
        l = l + 1;
    }
    Ok(ResolvedStintPlan { tire_by_lap, pit_laps })
}

/// Whether `known` lists a tire with the id of `t`.
pub open spec fn knows_tire(known: Seq<String>, t: String) -> bool {
    exists|i: int| 0 <= i < known.len() && (#[trigger] known[i])@ == t@
}

/// The pit stops of the first `k` pit laps: each lap with the tire fitted for
/// the lap after it, or the error of the first lap that has none.
pub open spec fn pit_stops(tires: Seq<String>, pits: Seq<u16>, known: Seq<String>, k: int) -> Result<
    Seq<(u16, String)>,
    Seq<char>,
>
    decreases k,
{
    if k <= 0 {
        Ok(Seq::empty())
    } else {
        match pit_stops(tires, pits, known, k - 1) {
            Err(e) => Err(e),
            Ok(done) => {
                let lap = pits[k - 1];
                if lap >= tires.len() {
                    Err("missing tire assignment for lap "@ + decimal((lap + 1) as nat))
                } else if !knows_tire(known, tires[lap as int]) {
                    Err("unknown tire '"@ + tires[lap as int]@ + "'"@)
                } else {
                    Ok(done.push((lap, tires[lap as int])))
                }
            },
        }
    }
}

fn find_tire(known: &Vec<String>, tire: &String) -> (r: bool)
    ensures
        r == knows_tire(known@, *tire),
{
    let mut i: usize = 0;
    while i < known.len()
        invariant
            0 <= i <= known.len(),
            forall|j: int| 0 <= j < i ==> (#[trigger] known@[j])@ != tire@,
        decreases known.len() - i,
    {
        if same_text(known[i].as_str(), tire.as_str()) {
            return true;
        }
        i = i + 1;
    }
    false
}

/// The tire change of every pit stop of a plan, checked against the tires
/// the catalog knows.
pub fn pit_stop_tires(plan: &ResolvedStintPlan, known_tire_ids: &Vec<String>) -> (out: Result<
    Vec<(u16, String)>,
    String,
>)
    requires
        forall|i: int|
            0 <= i < plan.pit_laps@.len() ==> #[trigger] plan.pit_laps@[i] < u16::MAX
                || plan.pit_laps@[i] < plan.tire_by_lap@.len(),
    ensures
        match (out, pit_stops(plan.tire_by_lap@, plan.pit_laps@, known_tire_ids@, plan.pit_laps@.len() as int)) {
            (Ok(v), Ok(w)) => v@ == w,
            (Err(e), Err(m)) => e@ == m,
            _ => false,
        },
{
    let mut stops: Vec<(u16, String)> = Vec::new();
    let mut k: usize = 0;
    while k < plan.pit_laps.len()
        invariant
            0 <= k <= plan.pit_laps.len(),
            forall|i: int|
                0 <= i < plan.pit_laps@.len() ==> #[trigger] plan.pit_laps@[i] < u16::MAX
                    || plan.pit_laps@[i] < plan.tire_by_lap@.len(),
            pit_stops(plan.tire_by_lap@, plan.pit_laps@, known_tire_ids@, k as int) == Ok::<Seq<(u16, String)>, Seq<char>>(stops@),
        decreases plan.pit_laps.len() - k,
    {
        let lap = plan.pit_laps[k];
        if lap as usize >= plan.tire_by_lap.len() {
            let mut message = String::from_str("missing tire assignment for lap ");
            push_decimal(&mut message, (lap + 1) as u64);
            proof {
                lemma_pit_stops_error_sticks(plan.tire_by_lap@, plan.pit_laps@, known_tire_ids@, k + 1, plan.pit_laps@.len() as int);
            }
            return Err(message);
        }
        let tire = &plan.tire_by_lap[lap as usize];
        if !find_tire(known_tire_ids, tire) {
            let mut message = String::from_str("unknown tire '");
            message.append(tire.as_str());
            message.append("'");
            proof {
                lemma_pit_stops_error_sticks(plan.tire_by_lap@, plan.pit_laps@, known_tire_ids@, k + 1, plan.pit_laps@.len() as int);
            }
            return Err(message);
        }
        stops.push((lap, tire.clone()));
        k = k + 1;
    }
    Ok(stops)
}

proof fn lemma_pit_stops_error_sticks(tires: Seq<String>, pits: Seq<u16>, known: Seq<String>, k: int, n: int)
    requires
        k <= n,
        pit_stops(tires, pits, known, k) is Err,
    ensures
        pit_stops(tires, pits, known, n) == pit_stops(tires, pits, known, k),
    decreases n - k,
{
    if k < n {
        lemma_pit_stops_error_sticks(tires, pits, known, k, n - 1);
    }
}

/// Adds the pit loss to every lap that ends with a stop; lap `i` (from 0) is
/// race lap `i + 1`. Membership is exact; the pit laps of a resolved plan are
/// sorted, so this is what a binary search over them finds.
pub fn apply_pit_loss(base_lap_times_ms: &Vec<u64>, pit_laps: &Vec<u16>, pit_loss_ms: u64) -> (out: Vec<u64>)
    requires
        base_lap_times_ms@.len() <= u16::MAX,
    ensures
        out@.len() == base_lap_times_ms@.len(),
        forall|i: int|
            0 <= i < out@.len() ==> #[trigger] out@[i] == if pit_laps@.contains((i + 1) as u16) {
                if base_lap_times_ms@[i] + pit_loss_ms > u64::MAX {
                    u64::MAX
                } else {
                    (base_lap_times_ms@[i] + pit_loss_ms) as u64
                }
            } else {
                base_lap_times_ms@[i]
            },
{
    let mut out: Vec<u64> = Vec::new();
    let mut i: usize = 0;
    while i < base_lap_times_ms.len()
        invariant
            0 <= i <= base_lap_times_ms.len() <= u16::MAX,
            out@.len() == i,
            forall|j: int|
                0 <= j < i ==> #[trigger] out@[j] == if pit_laps@.contains((j + 1) as u16) {
                    if base_lap_times_ms@[j] + pit_loss_ms > u64::MAX {
                        u64::MAX
                    } else {
                        (base_lap_times_ms@[j] + pit_loss_ms) as u64
                    }
                } else {
                    base_lap_times_ms@[j]
                },
        decreases base_lap_times_ms.len() - i,
    {
        let lap_number: u16 = (i as u16) + 1;
        let mut pitted = false;
        let mut k: usize = 0;
        while k < pit_laps.len()
            invariant
                0 <= k <= pit_laps.len(),
                pitted == pit_laps@.subrange(0, k as int).contains(lap_number),
            decreases pit_laps.len() - k,
        {
            let ghost q = pit_laps@.subrange(0, k as int);
            let ghost p = pit_laps@.subrange(0, k + 1);
            proof {
                assert(p =~= q.push(pit_laps@[k as int]));
                assert(p[k as int] == pit_laps@[k as int]);
                if q.contains(lap_number) {
                    let m = choose|m: int| 0 <= m < q.len() && q[m] == lap_number;
                    assert(p[m] == lap_number);
                }
                if p.contains(lap_number) && pit_laps@[k as int] != lap_number {
                    let m = choose|m: int| 0 <= m < p.len() && p[m] == lap_number;
                    assert(m < k);
                    assert(q[m] == lap_number);
                }
            }
            if pit_laps[k] == lap_number {
                pitted = true;
            }
            k = k + 1;
        }
        assert(pit_laps@.subrange(0, pit_laps@.len() as int) =~= pit_laps@);
        assert(lap_number == (i + 1) as u16);
        let base = base_lap_times_ms[i];
        if pitted {
            out.push(base.saturating_add(pit_loss_ms));
        } else {
            out.push(base);
        }
        i = i + 1;
    }
    out
}

proof fn lemma_no_bad_after(s: Seq<StintSpec>, i: int, j: int)
    requires
        0 <= i <= j < s.len(),
        first_bad_stint_from(s, i) >= s.len(),
    ensures
        !stint_is_bad(s[j]),
    decreases j - i,
{
    if i < j {
        lemma_no_bad_after(s, i + 1, j);
    }
}

proof fn lemma_saturated_monotone(s: Seq<StintSpec>, j: int, k: int)
    requires
        0 <= j <= k,
    ensures
        saturated_laps(s, j) <= saturated_laps(s, k),
    decreases k - j,
{
    if j < k {
        lemma_saturated_monotone(s, j, k - 1);
        lemma_saturated_laps_bounded(s, k - 1);
    }
}

proof fn lemma_plan_prefix(s: Seq<StintSpec>, total_laps: u16, k: int)
    requires
        0 <= k <= s.len(),
        saturated_laps(s, k) < u16::MAX,
        forall|j: int| 0 <= j < k ==> #[trigger] s[j].laps > 0,
    ensures
        lap_tires(s, k).len() == saturated_laps(s, k),
        strictly_increasing(boundary_laps(s, total_laps, k)),
        forall|e: int|
            0 <= e < boundary_laps(s, total_laps, k).len() ==> {
                let v = #[trigger] boundary_laps(s, total_laps, k)[e];
                &&& pit_lap_in_range(v, total_laps)
                &&& v <= saturated_laps(s, k)
            },
    decreases k,
{
    if k > 0 {
        lemma_saturated_monotone(s, k - 1, k);
        lemma_plan_prefix(s, total_laps, k - 1);
        let prev = boundary_laps(s, total_laps, k - 1);
        let c = saturated_laps(s, k);
        assert(saturated_laps(s, k - 1) < c);
        let cur = boundary_laps(s, total_laps, k);
        assert forall|a: int, b: int| 0 <= a < b < cur.len() implies cur[a] < cur[b] by {
            if b < prev.len() {
                assert(cur[a] == prev[a] && cur[b] == prev[b]);
            } else {
                assert(cur[a] == prev[a]);
            }
        }
        assert forall|e: int| 0 <= e < cur.len() implies {
            let v = #[trigger] cur[e];
            &&& pit_lap_in_range(v, total_laps)
            &&& v <= c
        } by {
            if e < prev.len() {
                assert(cur[e] == prev[e]);
            }
        }
    }
}

/// A resolved explicit plan runs exactly the race distance, one tire per lap,
/// and its pit laps are strictly increasing laps strictly inside the race.
///
/// The laps are summed with saturation, so the statement leaves out a race of
/// `u16::MAX` laps, where a longer strategy saturates to the race distance.
pub proof fn lemma_explicit_plan_shape(stints: Seq<StintSpec>, declared: Seq<u16>, total_laps: u16)
    requires
        total_laps < u16::MAX,
        explicit_plan(stints, declared, total_laps) is Ok,
    ensures
        ({
            let (tires, pits) = explicit_plan(stints, declared, total_laps)->Ok_0;
            &&& tires.len() == total_laps
            &&& strictly_increasing(pits)
            &&& forall|e: int| 0 <= e < pits.len() ==> pit_lap_in_range(#[trigger] pits[e], total_laps)
        }),
{
    let n = stints.len() as int;
    assert forall|j: int| 0 <= j < n implies #[trigger] stints[j].laps > 0 by {
        lemma_no_bad_after(stints, 0, j);
    }
    lemma_plan_prefix(stints, total_laps, n);
}

/// Laps run by the first `k` stints.
pub open spec fn stint_laps_sum(s: Seq<StintSpec>, k: int) -> int
    decreases k,
{
    if k <= 0 {
        0
    } else {
        stint_laps_sum(s, k - 1) + s[k - 1].laps
    }
}

proof fn lemma_unsaturated(s: Seq<StintSpec>, k: int)
    requires
        saturated_laps(s, k) < u16::MAX,
    ensures
        saturated_laps(s, k) == stint_laps_sum(s, k),
    decreases k,
{
    if k > 0 {
        lemma_unsaturated(s, k - 1);
    }
}

proof fn lemma_stint_sum_monotone(s: Seq<StintSpec>, j: int, k: int)
    requires
        0 <= j <= k,
    ensures
        stint_laps_sum(s, j) <= stint_laps_sum(s, k),
    decreases k - j,
{
    if j < k {
        lemma_stint_sum_monotone(s, j, k - 1);
    }
}

proof fn lemma_stint_sum_increasing(s: Seq<StintSpec>, j: int, k: int)
    requires
        0 <= j < k <= s.len(),
        forall|i: int| 0 <= i < s.len() ==> #[trigger] s[i].laps > 0,
    ensures
        stint_laps_sum(s, j) < stint_laps_sum(s, k),
    decreases k - j,
{
    if j < k - 1 {
        lemma_stint_sum_increasing(s, j, k - 1);
    }
}

proof fn lemma_boundaries_are_stint_ends(s: Seq<StintSpec>, total_laps: u16, k: int)
    requires
        0 <= k < s.len(),
        forall|i: int| 0 <= i < s.len() ==> #[trigger] s[i].laps > 0,
        forall|m: int| 0 <= m <= s.len() ==> #[trigger] saturated_laps(s, m) == stint_laps_sum(s, m),
        stint_laps_sum(s, s.len() as int) == total_laps,
    ensures
        boundary_laps(s, total_laps, k).len() == k,
        forall|j: int| 0 <= j < k ==> #[trigger] boundary_laps(s, total_laps, k)[j] == stint_laps_sum(s, j + 1),
    decreases k,
{
    if k > 0 {
        lemma_boundaries_are_stint_ends(s, total_laps, k - 1);
        lemma_stint_sum_increasing(s, k, s.len() as int);
        lemma_stint_sum_increasing(s, 0, k);
        assert(saturated_laps(s, k) == stint_laps_sum(s, k));
        let prev = boundary_laps(s, total_laps, k - 1);
        let cur = boundary_laps(s, total_laps, k);
        assert(cur == prev + seq![stint_laps_sum(s, k) as u16]);
        assert forall|j: int| 0 <= j < k implies #[trigger] cur[j] == stint_laps_sum(s, j + 1) by {
            if j < k - 1 {
                assert(cur[j] == prev[j]);
            }
        }
    }
}

proof fn lemma_lap_tires_follow_stints(s: Seq<StintSpec>, k: int)
    requires
        0 <= k <= s.len(),
    ensures
        lap_tires(s, k).len() == stint_laps_sum(s, k),
        forall|j: int, l: int|
            #![trigger s[j], lap_tires(s, k)[l]]
            0 <= j < k && stint_laps_sum(s, j) <= l < stint_laps_sum(s, j + 1) ==> lap_tires(s, k)[l] == s[j].tire_id,
    decreases k,
{
    if k > 0 {
        lemma_lap_tires_follow_stints(s, k - 1);
        let prev = lap_tires(s, k - 1);
        let cur = lap_tires(s, k);
        assert forall|j: int, l: int|
            #![trigger s[j], cur[l]]
            0 <= j < k && stint_laps_sum(s, j) <= l < stint_laps_sum(s, j + 1) implies cur[l] == s[j].tire_id by {
            lemma_stint_sum_monotone(s, 0, j);
            assert(cur == prev + Seq::new(s[k - 1].laps as nat, |_l: int| s[k - 1].tire_id));
            if j < k - 1 {
                lemma_stint_sum_monotone(s, j + 1, k - 1);
                assert(cur[l] == prev[l]);
                assert(prev[l] == s[j].tire_id);
            } else {
                assert(cur[l] == Seq::new(s[k - 1].laps as nat, |_l: int| s[k - 1].tire_id)[l - prev.len()]);
            }
        }
    }
}

/// A resolved explicit plan follows its stints: with `n` stints it pits
/// `n - 1` times, the `j`-th pit lap being the laps run by the first `j + 1`
/// stints (the end of every stint but the last), and each lap runs the tire
/// of the stint it falls in.
///
/// The laps are summed with saturation, so the statement leaves out a race of
/// `u16::MAX` laps.
pub proof fn lemma_explicit_plan_follows_the_stints(stints: Seq<StintSpec>, declared: Seq<u16>, total_laps: u16)
    requires
        total_laps < u16::MAX,
        explicit_plan(stints, declared, total_laps) is Ok,
    ensures
        ({
            let (tires, pits) = explicit_plan(stints, declared, total_laps)->Ok_0;
            &&& pits.len() == stints.len() - 1
            &&& forall|j: int| 0 <= j < pits.len() ==> #[trigger] pits[j] == stint_laps_sum(stints, j + 1)
            &&& tires.len() == total_laps
            &&& forall|j: int, l: int|
                #![trigger stints[j], tires[l]]
                0 <= j < stints.len() && stint_laps_sum(stints, j) <= l < stint_laps_sum(stints, j + 1)
                    ==> tires[l] == stints[j].tire_id
        }),
{
    let n = stints.len() as int;
    assert forall|j: int| 0 <= j < n implies #[trigger] stints[j].laps > 0 by {
        lemma_no_bad_after(stints, 0, j);
    }
    assert forall|m: int| 0 <= m <= n implies #[trigger] saturated_laps(stints, m) == stint_laps_sum(stints, m) by {
        lemma_saturated_monotone(stints, m, n);
        lemma_unsaturated(stints, m);
    }
    lemma_boundaries_are_stint_ends(stints, total_laps, n - 1);
    assert(boundary_laps(stints, total_laps, n) =~= boundary_laps(stints, total_laps, n - 1));
    lemma_lap_tires_follow_stints(stints, n);
}

/// Sanitizing is idempotent: sanitized pit laps sanitize to themselves.
pub proof fn lemma_sanitize_idempotent(raw: Seq<u16>, total_laps: u16)
    ensures
        sanitized_pit_laps(sanitized_pit_laps(raw, total_laps), total_laps) == sanitized_pit_laps(raw, total_laps),
{
    let s = sanitized_pit_laps(raw, total_laps);
    lemma_sanitized_exists(raw, total_laps);
    assert(is_sanitized(s, raw, total_laps));
    assert forall|x: u16| #![trigger s.contains(x)] s.contains(x) <==> (total_laps > 1 && s.contains(x) && pit_lap_in_range(x, total_laps)) by {
    }
    assert(is_sanitized(s, s, total_laps));
    lemma_sanitized_unique(s, s, total_laps);
}

/// Every list of laps has a sanitized form.
pub proof fn lemma_sanitized_exists(raw: Seq<u16>, total_laps: u16)
    ensures
        is_sanitized(sanitized_pit_laps(raw, total_laps), raw, total_laps),
    decreases raw.len(),
{
    if raw.len() == 0 || total_laps <= 1 {
        let e = Seq::<u16>::empty();
        assert(is_sanitized(e, raw, total_laps));
    } else {
        let prev_raw = raw.drop_last();
        lemma_sanitized_exists(prev_raw, total_laps);
        let prev = sanitized_pit_laps(prev_raw, total_laps);
        let x = raw.last();
        assert forall|y: u16| #![trigger raw.contains(y)] raw.contains(y) <==> (prev_raw.contains(y) || y == x) by {
            if raw.contains(y) {
                let k = choose|k: int| 0 <= k < raw.len() && raw[k] == y;
                if k < raw.len() - 1 {
                    assert(prev_raw[k] == y);
                }
            }
            if prev_raw.contains(y) {
                let k = choose|k: int| 0 <= k < prev_raw.len() && prev_raw[k] == y;
                assert(raw[k] == y);
            }
            if y == x {
                assert(raw[raw.len() - 1] == y);
            }
        }
        if !pit_lap_in_range(x, total_laps) || prev.contains(x) {
            assert(is_sanitized(prev, raw, total_laps));
        } else {
            let p = insert_position(prev, x);
            let out = prev.insert(p, x);
            assert forall|a: int, b: int| 0 <= a < b < out.len() implies out[a] < out[b] by {
                if b < p {
                } else if b == p {
                    assert(out[a] == prev[a]);
                } else if a < p {
                    assert(out[a] == prev[a] && out[b] == prev[b - 1]);
                    if p < prev.len() {
                        if b - 1 > p {
                            assert(prev[p] < prev[b - 1]);
                        }
                    }
                } else if a == p {
                    assert(out[b] == prev[b - 1]);
                    if b - 1 > p {
                        assert(prev[p] < prev[b - 1]);
                    }
                } else {
                    assert(out[a] == prev[a - 1] && out[b] == prev[b - 1]);
                }
            }
            assert forall|y: u16| #![trigger out.contains(y)] out.contains(y) <==> (prev.contains(y) || y == x) by {
                if out.contains(y) {
                    let k = choose|k: int| 0 <= k < out.len() && out[k] == y;
                    if k < p {
                        assert(prev[k] == y);
                    } else if k > p {
                        assert(prev[k - 1] == y);
                    }
                }
                if prev.contains(y) {
                    let k = choose|k: int| 0 <= k < prev.len() && prev[k] == y;
                    if k < p {
                        assert(out[k] == y);
                    } else {
                        assert(out[k + 1] == y);
                    }
                }
                if y == x {
                    assert(out[p] == y);
                }
            }
            assert(is_sanitized(out, raw, total_laps));
        }
    }
}

/// Where `x` goes in a strictly increasing list that lacks it: after every
/// smaller lap.
proof fn insert_position(s: Seq<u16>, x: u16) -> (p: int)
    requires
        strictly_increasing(s),
        !s.contains(x),
    ensures
        0 <= p <= s.len(),
        forall|k: int| 0 <= k < p ==> s[k] < x,
        forall|k: int| p <= k < s.len() ==> s[k] > x,
    decreases s.len(),
{
    if s.len() == 0 {
        0
    } else if s.last() < x {
        assert forall|k: int| 0 <= k < s.len() implies s[k] < x by {
            if k < s.len() - 1 {
                assert(s[k] < s[s.len() - 1]);
            }
        }
        s.len() as int
    } else {
        let t = s.drop_last();
        assert(s.last() != x) by {
            assert(s[s.len() - 1] == s.last());
        }
        assert(!t.contains(x)) by {
            if t.contains(x) {
                let k = choose|k: int| 0 <= k < t.len() && t[k] == x;
                assert(s[k] == x);
            }
        }
        let p = insert_position(t, x);
        assert forall|k: int| 0 <= k < p implies s[k] < x by {
            assert(s[k] == t[k]);
        }
        assert forall|k: int| p <= k < s.len() implies s[k] > x by {
            if k < s.len() - 1 {
                assert(s[k] == t[k]);
            }
        }
        p
    }
}

} // verus!
