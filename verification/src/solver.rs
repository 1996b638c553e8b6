//! Integer decisions of the lap solver: schema tags, gear stepping, the tire
//! fitted on each lap and the deterministic seeds of driver noise.

use md5::{Digest, Md5};
use vstd::prelude::*;
use vstd::string::*;

use crate::text::{decimal, push_decimal};

verus! {

/// Schema tag of a tuning response.
#[derive(Clone, Copy, Debug, PartialEq, Eq, Structural)]
pub enum TuningResponseVersion {
    V1,
}

/// How aerodynamic load follows track curvature.
#[derive(Clone, Copy, Debug, PartialEq, Eq, Structural, Default)]
pub enum CurvatureAeroResponse {
    #[default]
    LegacyBinary,
    ContinuousV1,
    FixedV3,
}

/// Schema tag of setup-response diagnostics.
#[derive(Clone, Copy, Debug, PartialEq, Eq, Structural, Default)]
pub enum SetupResponseDiagnosticsVersion {
    #[default]
    V1,
}

impl TuningResponseVersion {
    /// The serialized schema name.
    pub fn schema_name(&self) -> (out: &'static str)
        ensures
            out@ == "pitgun.racing-tuning-response/v1"@,
    {
        "pitgun.racing-tuning-response/v1"
    }
}

impl SetupResponseDiagnosticsVersion {
    /// The serialized schema name.
    pub fn schema_name(&self) -> (out: &'static str)
        ensures
            out@ == "pitgun.racing-setup-response/v1"@,
    {
        "pitgun.racing-setup-response/v1"
    }
}

/// Lap count of a request that names none.
pub fn default_lap_count() -> (laps: u16)
    ensures
        laps == 1,
{
    1
}

/// The gear and shift decision of the sequential V3 gearbox, given where the
/// engine speed in the current gear stands against the shift points.
pub open spec fn gear_step(
    current_gear: u8,
    gear_count: nat,
    shift_available: bool,
    at_or_above_upshift: bool,
    at_or_below_downshift: bool,
) -> (u8, bool) {
    let top = if gear_count < 1 {
        1
    } else {
        gear_count
    };
    let current = if current_gear < 1 {
        1u8
    } else if current_gear > top {
        top as u8
    } else {
        current_gear
    };
    if !shift_available {
        (current, false)
    } else if at_or_above_upshift && current < top {
        ((current + 1) as u8, true)
    } else if at_or_below_downshift && current > 1 {
        ((current - 1) as u8, true)
    } else {
        (current, false)
    }
}

/// Clamps the current gear to the gearbox and shifts up or down by one when
/// shifting is available and the engine speed has crossed a shift point.
///
/// `at_or_above_upshift` and `at_or_below_downshift` compare the engine speed
/// in the clamped current gear with the shift points.
pub fn sequential_gear_step(
    current_gear: u8,
    gear_count: usize,
    shift_available: bool,
    at_or_above_upshift: bool,
    at_or_below_downshift: bool,
) -> (out: (u8, bool))
    requires
        gear_count <= 255,
        shift_available ==> gear_count >= 1,
    ensures
        out == gear_step(
            current_gear,
            gear_count as nat,
            shift_available,
            at_or_above_upshift,
            at_or_below_downshift,
        ),
{
    let top: u8 = if gear_count < 1 {
        1
    } else {
        gear_count as u8
    };
    let current: u8 = if current_gear < 1 {
        1
    } else if current_gear > top {
        top
    } else {
        current_gear
    };
    if !shift_available {
        return (current, false);
    }
    if at_or_above_upshift && current < top {
        (current + 1, true)
    } else if at_or_below_downshift && current > 1 {
        (current - 1, true)
    } else {
        (current, false)
    }
}

/// The gearbox never leaves its gear range and moves at most one gear per
/// step, reporting a shift exactly when the gear changes from the clamped
/// current gear.
pub proof fn lemma_gear_step_bounded(
    current_gear: u8,
    gear_count: nat,
    shift_available: bool,
    up: bool,
    down: bool,
)
    requires
        1 <= gear_count <= 255,
    ensures
        ({
            let (g, shifted) = gear_step(current_gear, gear_count, shift_available, up, down);
            let current = if current_gear < 1 {
                1
            } else if current_gear > gear_count {
                gear_count as int
            } else {
                current_gear as int
            };
            &&& 1 <= g <= gear_count
            &&& -1 <= g - current <= 1
            &&& shifted <==> g != current
        }),
{
}

/// The gearbox's rules, for a gearbox of at least one gear and the current
/// gear clamped into it: without shifting available the gear holds; with it,
/// an engine at or above the upshift point below top gear goes up one gear,
/// otherwise an engine at or below the downshift point above first gear goes
/// down one gear, and otherwise the gear holds.
pub proof fn lemma_gear_step_rules(
    current_gear: u8,
    gear_count: nat,
    shift_available: bool,
    up: bool,
    down: bool,
)
    requires
        1 <= gear_count <= 255,
    ensures
        ({
            let current: int = if current_gear < 1 {
                1
            } else if current_gear > gear_count {
                gear_count as int
            } else {
                current_gear as int
            };
            let (g, shifted) = gear_step(current_gear, gear_count, shift_available, up, down);
            &&& !shift_available ==> g == current && !shifted
            &&& shift_available && up && current < gear_count ==> g == current + 1 && shifted
            &&& shift_available && !(up && current < gear_count) && down && current > 1 ==> g == current - 1 && shifted
            &&& shift_available && !(up && current < gear_count) && !(down && current > 1) ==> g == current && !shifted
        }),
{
}

/// Index of the last pit stop made before `lap` (stops hold the lap after
/// which they happen), or `None` when the car still runs its starting tire.
pub open spec fn last_stop_before(stop_laps: Seq<u16>, lap: u16) -> Option<int>
    decreases stop_laps.len(),
{
    if stop_laps.len() == 0 {
        None
    } else if stop_laps.last() < lap {
        Some(stop_laps.len() - 1)
    } else {
        last_stop_before(stop_laps.drop_last(), lap)
    }
}

/// Which pit stop's tire a lap runs on: the last stop made before it.
pub fn tire_stop_for_lap(stop_laps: &Vec<u16>, lap: u16) -> (out: Option<usize>)
    ensures
        match out {
            None => last_stop_before(stop_laps@, lap) is None,
            Some(i) => last_stop_before(stop_laps@, lap) == Some(i as int),
        },
{
    let mut k: usize = stop_laps.len();
    assert(stop_laps@.subrange(0, k as int) =~= stop_laps@);
    while k > 0
        invariant
            0 <= k <= stop_laps.len(),
            last_stop_before(stop_laps@, lap) == last_stop_before(stop_laps@.subrange(0, k as int), lap),
        decreases k,
    {
        let ghost prefix = stop_laps@.subrange(0, k as int);
        proof {
            assert(prefix.drop_last() =~= stop_laps@.subrange(0, k - 1));
            assert(prefix.last() == stop_laps@[k - 1]);
        }
        if stop_laps[k - 1] < lap {
            return Some(k - 1);
        }
        k = k - 1;
    }
    proof {
        assert(stop_laps@.subrange(0, 0) =~= Seq::<u16>::empty());
    }
    None
}

/// The stop chosen for a lap was made before it, and every later stop
/// happens at or after the lap.
pub proof fn lemma_last_stop_before(stop_laps: Seq<u16>, lap: u16)
    ensures
        match last_stop_before(stop_laps, lap) {
            None => forall|j: int| 0 <= j < stop_laps.len() ==> #[trigger] stop_laps[j] >= lap,
            Some(i) => {
                &&& 0 <= i < stop_laps.len()
                &&& stop_laps[i] < lap
                &&& forall|j: int| i < j < stop_laps.len() ==> #[trigger] stop_laps[j] >= lap
            },
        },
    decreases stop_laps.len(),
{
    if stop_laps.len() > 0 {
        let rest = stop_laps.drop_last();
        lemma_last_stop_before(rest, lap);
        if stop_laps.last() >= lap {
            assert forall|j: int| 0 <= j < stop_laps.len() - 1 implies #[trigger] stop_laps[j] == rest[j] by {
            }
        }
    }
}

/// MD5 digest of the UTF-8 encoding of a text.
pub uninterp spec fn md5_text_digest(text: Seq<char>) -> Seq<u8>;

/// MD5 of a text's UTF-8 bytes (`md5::Md5::digest`).
///
/// The contract names the digest as a function of the text and states its
/// documented 16-byte length; the hash itself is not restated.
#[verifier::external_body]
fn md5_of_text(text: &str) -> (out: Vec<u8>)
    ensures
        out@ == md5_text_digest(text@),
        out@.len() == 16,
{
    Md5::digest(text.as_bytes()).to_vec()
}

/// The text hashed for a lap's noise seed: `seed:driver:lap`.
pub open spec fn noise_identity(sim_seed: u64, driver_id: Seq<char>, lap_idx: u16) -> Seq<char> {
    decimal(sim_seed as nat) + ":"@ + driver_id + ":"@ + decimal(lap_idx as nat)
}

/// Big-endian value of the first `n` bytes.
pub open spec fn big_endian(bytes: Seq<u8>, n: int) -> nat
    decreases n,
{
    if n <= 0 {
        0
    } else {
        big_endian(bytes, n - 1) * 256 + bytes[n - 1] as nat
    }
}

proof fn lemma_big_endian_bound(bytes: Seq<u8>, n: int)
    requires
        0 <= n,
    ensures
        big_endian(bytes, n) < vstd::arithmetic::power2::pow2((8 * n) as nat),
    decreases n,
{
    vstd::arithmetic::power2::lemma2_to64();
    if n > 0 {
        lemma_big_endian_bound(bytes, n - 1);
        let p = vstd::arithmetic::power2::pow2((8 * (n - 1)) as nat);
        vstd::arithmetic::power2::lemma_pow2_adds((8 * (n - 1)) as nat, 8);
        assert(big_endian(bytes, n - 1) * 256 + bytes[n - 1] < p * 256) by (nonlinear_arith)
            requires
                big_endian(bytes, n - 1) < p,
                bytes[n - 1] < 256,
        ;
    }
}

/// Appends `seed:driver:lap`.
fn push_noise_identity(out: &mut String, sim_seed: u64, driver_id: &str, lap_idx: u16)
    ensures
        final(out)@ == old(out)@ + noise_identity(sim_seed, driver_id@, lap_idx),
{
    push_decimal(out, sim_seed);
    out.append(":");
    out.append(driver_id);
    out.append(":");
    push_decimal(out, lap_idx as u64);
    assert(final(out)@ =~= old(out)@ + noise_identity(sim_seed, driver_id@, lap_idx));
}

/// Reads the first `n` digest bytes as a big-endian number.
fn read_big_endian(bytes: &Vec<u8>, n: usize) -> (v: u64)
    requires
        n <= 8,
        n <= bytes@.len(),
    ensures
        v == big_endian(bytes@, n as int),
{
    let mut v: u64 = 0;
    let mut i: usize = 0;
    while i < n
        invariant
            0 <= i <= n <= 8,
            n <= bytes@.len(),
            v == big_endian(bytes@, i as int),
        decreases n - i,
    {
        proof {
            lemma_big_endian_bound(bytes@, i + 1);
            vstd::arithmetic::power2::lemma2_to64();
            if i + 1 < 8 {
                vstd::arithmetic::power2::lemma_pow2_strictly_increases((8 * (i + 1)) as nat, 64);
            }
        }
        v = v * 256 + bytes[i] as u64;
        i = i + 1;
    }
    v
}

/// Seed of a driver's lap-time noise: the first four bytes, big-endian, of
/// the MD5 digest of `seed:driver:lap`.
pub fn deterministic_noise_seed(sim_seed: u64, driver_id: &str, lap_idx: u16) -> (seed: u64)
    ensures
        seed == big_endian(md5_text_digest(noise_identity(sim_seed, driver_id@, lap_idx)), 4),
{
    let mut identity = String::new();
    push_noise_identity(&mut identity, sim_seed, driver_id, lap_idx);
    assert(identity@ =~= noise_identity(sim_seed, driver_id@, lap_idx));
    let digest = md5_of_text(identity.as_str());
    read_big_endian(&digest, 4)
}

/// The text hashed for one utilization sample: `seed:driver:lap:sample:channel`.
pub open spec fn utilization_identity(
    sim_seed: u64,
    driver_id: Seq<char>,
    lap_idx: u16,
    sample_index: u64,
    channel: Seq<char>,
) -> Seq<char> {
    noise_identity(sim_seed, driver_id, lap_idx) + ":"@ + decimal(sample_index as nat) + ":"@
        + channel
}

/// Raw control-error draw of one utilization sample: the first eight bytes,
/// big-endian, of the MD5 digest of `seed:driver:lap:sample:channel`.
pub fn utilization_sample_raw(
    sim_seed: u64,
    driver_id: &str,
    lap_idx: u16,
    sample_index: u64,
    channel: &str,
) -> (raw: u64)
    ensures
        raw == big_endian(
            md5_text_digest(utilization_identity(sim_seed, driver_id@, lap_idx, sample_index, channel@)),
            8,
        ),
{
    let mut identity = String::new();
    push_noise_identity(&mut identity, sim_seed, driver_id, lap_idx);
    identity.append(":");
    push_decimal(&mut identity, sample_index);
    identity.append(":");
    identity.append(channel);
    assert(identity@ =~= utilization_identity(sim_seed, driver_id@, lap_idx, sample_index, channel@));
    let digest = md5_of_text(identity.as_str());
    read_big_endian(&digest, 8)
}

} // verus!
