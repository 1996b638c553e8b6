//! Player telemetry framing: batch chunking, the telemetry session id and
//! the metadata attached to every frame.

use std::collections::hash_map::DefaultHasher;
use std::hash::Hasher;
use vstd::std_specs::hash::DefaultHasherAdditionalSpecFns;
use vstd::prelude::*;
use vstd::string::*;

use crate::text::same_text;

verus! {

/// Frames per telemetry batch.
pub const TELEMETRY_BATCH_SIZE: usize = 64;

/// Concatenation of a list of batches.
pub open spec fn concat_batches<T>(batches: Seq<Vec<T>>) -> Seq<T>
    decreases batches.len(),
{
    if batches.len() == 0 {
        Seq::empty()
    } else {
        concat_batches(batches.drop_last()) + batches.last()@
    }
}

/// Splits frames into batches of 64 in order; only the last batch may be
/// shorter, and no batch is empty.
pub fn telemetry_batches<T>(frames: Vec<T>) -> (out: Vec<Vec<T>>)
    ensures
        concat_batches(out@) == frames@,
        forall|k: int| 0 <= k < out@.len() ==> 0 < (#[trigger] out@[k])@.len() <= TELEMETRY_BATCH_SIZE,
        forall|k: int| 0 <= k < out@.len() - 1 ==> (#[trigger] out@[k])@.len() == TELEMETRY_BATCH_SIZE,
{
    let ghost all = frames@;
    let mut out: Vec<Vec<T>> = Vec::new();
    let mut current: Vec<T> = Vec::new();
    for frame in it: frames.into_iter()
        invariant
            it.seq() == all,
            concat_batches(out@) + current@ == all.take(it.index() as int),
            forall|k: int| 0 <= k < out@.len() ==> (#[trigger] out@[k])@.len() == TELEMETRY_BATCH_SIZE,
            current@.len() < TELEMETRY_BATCH_SIZE,
    {
        let ghost idx = it.index();
        current.push(frame);
        proof {
            assert(all.take(idx + 1) =~= all.take(idx as int).push(frame));
        }
        if current.len() == TELEMETRY_BATCH_SIZE {
            let ghost before = out@;
            let full = current;
            current = Vec::new();
            out.push(full);
            proof {
                assert(out@.drop_last() =~= before);
                assert(concat_batches(out@) == concat_batches(before) + full@);
                assert(concat_batches(out@) + current@ =~= concat_batches(out@));
            }
        }
    }
    if current.len() > 0 {
        let ghost before = out@;
        let last = current;
        out.push(last);
        proof {
            assert(out@.drop_last() =~= before);
        }
    }
    proof {
        assert(all.take(all.len() as int) =~= all);
    }
    out
}

/// Little-endian bytes of a `u64`, least significant first.
pub open spec fn u64_le_bytes(x: u64) -> Seq<u8> {
    seq![
        (x % 0x100) as u8,
        ((x / 0x100) % 0x100) as u8,
        ((x / 0x1_0000) % 0x100) as u8,
        ((x / 0x100_0000) % 0x100) as u8,
        ((x / 0x1_0000_0000) % 0x100) as u8,
        ((x / 0x100_0000_0000) % 0x100) as u8,
        ((x / 0x1_0000_0000_0000) % 0x100) as u8,
        ((x / 0x100_0000_0000_0000) % 0x100) as u8,
    ]
}

/// The native-endian bytes of a `u64` (`u64::to_ne_bytes`): its
/// little-endian bytes on a little-endian machine, their reverse (the
/// big-endian bytes) on a big-endian one.
#[verifier::external_body]
fn native_endian_bytes(value: u64) -> (out: Vec<u8>)
    ensures
        out@ == u64_le_bytes(value) || out@ == u64_le_bytes(value).reverse(),
{
    value.to_ne_bytes().to_vec()
}

/// The writes that std's `Hash` makes into a hasher for a `u64` seed and two
/// strings: the seed's eight bytes, then each string's UTF-8 bytes followed
/// by the `0xff` terminator.
pub open spec fn session_hash_writes(seed_bytes: Seq<u8>, track_id: Seq<u8>, competitor_id: Seq<u8>) -> Seq<Seq<u8>> {
    seq![seed_bytes, track_id, seq![0xffu8], competitor_id, seq![0xffu8]]
}

/// The session id that a 64-bit hash gives: its low 53 bits, so that it
/// survives a JSON number, and 1 in place of 0.
pub open spec fn session_id_of_hash(hash: u64) -> u64 {
    let low = hash & 0x1f_ffff_ffff_ffff;
    if low == 0 {
        1
    } else {
        low
    }
}

/// Cuts a hash down to a telemetry session id.
pub fn session_id_from_hash(hash: u64) -> (id: u64)
    ensures
        id == session_id_of_hash(hash),
        1 <= id < 0x20_0000_0000_0000,
{
    let low: u64 = hash & 0x1f_ffff_ffff_ffff;
    assert(low <= 0x1f_ffff_ffff_ffff) by (bit_vector)
        requires
            low == hash & 0x1f_ffff_ffff_ffff,
    ;
    if low == 0 {
        1
    } else {
        low
    }
}

/// The telemetry session id of a competitor's stream: std's default hash
/// of the seed, the track and the competitor, cut by `session_id_from_hash`.
/// The seed enters as its native-endian bytes, so the contract names both
/// byte orders.
pub fn telemetry_session_id(seed: u64, track_id: &str, competitor_id: &str) -> (id: u64)
    ensures
        id == session_id_of_hash(
            DefaultHasher::spec_finish(
                session_hash_writes(u64_le_bytes(seed), track_id.spec_bytes(), competitor_id.spec_bytes()),
            ),
        ) || id == session_id_of_hash(
            DefaultHasher::spec_finish(
                session_hash_writes(u64_le_bytes(seed).reverse(), track_id.spec_bytes(), competitor_id.spec_bytes()),
            ),
        ),
        1 <= id < 0x20_0000_0000_0000,
{
    let mut hasher = DefaultHasher::new();
    let seed_bytes = native_endian_bytes(seed);
    let terminator: Vec<u8> = vec![0xffu8];
    hasher.write(seed_bytes.as_slice());
    hasher.write(track_id.as_bytes());
    hasher.write(terminator.as_slice());
    hasher.write(competitor_id.as_bytes());
    hasher.write(terminator.as_slice());
    let hash = hasher.finish();
    proof {
        assert(terminator@ =~= seq![0xffu8]);
        assert(hasher@ =~= session_hash_writes(seed_bytes@, track_id.spec_bytes(), competitor_id.spec_bytes()));
    }
    session_id_from_hash(hash)
}

/// Role recorded in the telemetry of a competitor.
pub open spec fn telemetry_role(competitor_id: Seq<char>) -> Seq<char> {
    if competitor_id == "player"@ {
        "player"@
    } else {
        "ai"@
    }
}

/// The metadata pairs attached to every telemetry frame, in insertion order;
/// the tire of the last lap is added when the plan has a lap.
/// `sampling_hz` is the rendered sampling rate.
pub fn telemetry_metadata(
    track_id: &str,
    vehicle_id: &str,
    competitor_id: &str,
    driver_id: &str,
    tire_by_lap: &Vec<String>,
    sampling_hz: &str,
) -> (out: Vec<(String, String)>)
    ensures
        out@.len() == if tire_by_lap@.len() > 0 {
            7int
        } else {
            6int
        },
        out@[0].0@ == "track_id"@ && out@[0].1@ == track_id@,
        out@[1].0@ == "vehicle_id"@ && out@[1].1@ == vehicle_id@,
        out@[2].0@ == "competitor_id"@ && out@[2].1@ == competitor_id@,
        out@[3].0@ == "driver_id"@ && out@[3].1@ == driver_id@,
        out@[4].0@ == "role"@ && out@[4].1@ == telemetry_role(competitor_id@),
        out@[5].0@ == "sampling_hz"@ && out@[5].1@ == sampling_hz@,
        tire_by_lap@.len() > 0 ==> out@[6].0@ == "tire_id"@ && out@[6].1 == tire_by_lap@.last(),
{
    let mut out: Vec<(String, String)> = Vec::new();
    out.push((String::from_str("track_id"), String::from_str(track_id)));
    out.push((String::from_str("vehicle_id"), String::from_str(vehicle_id)));
    out.push((String::from_str("competitor_id"), String::from_str(competitor_id)));
    out.push((String::from_str("driver_id"), String::from_str(driver_id)));
    let role = if same_text(competitor_id, "player") {
        String::from_str("player")
    } else {
        String::from_str("ai")
    };
    out.push((String::from_str("role"), role));
    out.push((String::from_str("sampling_hz"), String::from_str(sampling_hz)));
    let n = tire_by_lap.len();
    if n > 0 {
        out.push((String::from_str("tire_id"), tire_by_lap[n - 1].clone()));
    }
    out
}

} // verus!
