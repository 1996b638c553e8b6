//! Circuit identifiers: the normalized id under which a circuit is stored
//! and looked up, the browser id derived from a file stem, and the country
//! code derived from a circuit's source id.

use vstd::prelude::*;
use vstd::string::*;

use crate::text::{
    chars_of, decimal, find_char, first_index_of, push_decimal, same_text, string_from_chars,
    trim_text, trimmed,
};

verus! {

/// Uppercase mapping of one character (`char::to_uppercase`).
pub uninterp spec fn char_uppercase(c: char) -> Seq<char>;

/// The uppercase mapping of a character (`char::to_uppercase`), one or more
/// characters. The contract names the mapping as a function of the character;
/// the Unicode case tables are not restated.
#[verifier::external_body]
fn uppercase_chars(c: char) -> (out: Vec<char>)
    ensures
        out@ == char_uppercase(c),
{
    c.to_uppercase().collect()
}

/// Characters dropped from a track id before matching.
pub open spec fn is_id_separator(c: char) -> bool {
    c == '-' || c == '_' || c == ' '
}

/// A track id with separators removed and every character uppercased.
pub open spec fn normalized_track_id(s: Seq<char>) -> Seq<char>
    decreases s.len(),
{
    if s.len() == 0 {
        Seq::empty()
    } else {
        let prev = normalized_track_id(s.drop_last());
        if is_id_separator(s.last()) {
            prev
        } else {
            prev + char_uppercase(s.last())
        }
    }
}

/// Every character uppercased.
pub open spec fn uppercased(s: Seq<char>) -> Seq<char>
    decreases s.len(),
{
    if s.len() == 0 {
        Seq::empty()
    } else {
        uppercased(s.drop_last()) + char_uppercase(s.last())
    }
}

fn push_uppercase(out: &mut Vec<char>, c: char)
    ensures
        final(out)@ == old(out)@ + char_uppercase(c),
{
    let up = uppercase_chars(c);
    let mut i: usize = 0;
    let ghost start = out@;
    while i < up.len()
        invariant
            0 <= i <= up.len(),
            out@ == start + up@.subrange(0, i as int),
        decreases up.len() - i,
    {
        out.push(up[i]);
        i = i + 1;
        assert(out@ =~= start + up@.subrange(0, i as int));
    }
    assert(up@.subrange(0, i as int) =~= up@);
}

/// Normalizes a track id: separators (`-`, `_`, space) removed, the rest
/// uppercased.
pub fn normalize_track_id(track_id: &str) -> (out: String)
    ensures
        out@ == normalized_track_id(track_id@),
{
    let chars = chars_of(track_id);
    let mut out: Vec<char> = Vec::new();
    let mut i: usize = 0;
    while i < chars.len()
        invariant
            0 <= i <= chars.len(),
            out@ == normalized_track_id(chars@.subrange(0, i as int)),
        decreases chars.len() - i,
    {
        let c = chars[i];
        proof {
            let p = chars@.subrange(0, i + 1);
            assert(p.drop_last() =~= chars@.subrange(0, i as int));
            assert(p.last() == c);
        }
        if !(c == '-' || c == '_' || c == ' ') {
            push_uppercase(&mut out, c);
        }
        i = i + 1;
    }
    assert(chars@.subrange(0, i as int) =~= chars@);
    string_from_chars(&out, 0, out.len())
}

/// The part of a text before its first `-` (all of it without one).
pub open spec fn before_dash(s: Seq<char>) -> Seq<char> {
    s.subrange(0, first_index_of(s, '-'))
}

proof fn lemma_first_index_bounded(s: Seq<char>, c: char)
    ensures
        0 <= first_index_of(s, c) <= s.len(),
    decreases s.len(),
{
    if s.len() > 0 {
        lemma_first_index_bounded(s.drop_last(), c);
    }
}

/// The browser id of a circuit file: the normalized part of the stem before
/// its first `-`.
pub fn browser_track_id(file_stem: &str) -> (out: String)
    ensures
        out@ == normalized_track_id(before_dash(file_stem@)),
{
    let chars = chars_of(file_stem);
    let dash = find_char(&chars, '-');
    proof {
        lemma_first_index_bounded(chars@, '-');
    }
    let slug = string_from_chars(&chars, 0, dash);
    normalize_track_id(slug.as_str())
}

/// An ASCII letter.
pub open spec fn ascii_letter(c: char) -> bool {
    ('a' <= c && c <= 'z') || ('A' <= c && c <= 'Z')
}

/// The country code of a circuit source id: the part before its first `-`,
/// trimmed and uppercased, when that is exactly two ASCII letters.
pub open spec fn country_code_of(raw_id: Seq<char>) -> Option<Seq<char>> {
    let code = uppercased(trimmed(before_dash(raw_id)));
    if code.len() == 2 && ascii_letter(code[0]) && ascii_letter(code[1]) {
        Some(code)
    } else {
        None
    }
}

/// Derives the two-letter country code from a circuit source id, e.g.
/// `it-monza` gives `IT` (`str::to_uppercase` maps each character by
/// `char::to_uppercase`; two ASCII letters are two bytes).
pub fn country_code_from_track_id(raw_id: &str) -> (out: Option<String>)
    ensures
        match (out, country_code_of(raw_id@)) {
            (Some(x), Some(y)) => x@ == y,
            (None, None) => true,
            _ => false,
        },
{
    let chars = chars_of(raw_id);
    let dash = find_char(&chars, '-');
    proof {
        lemma_first_index_bounded(chars@, '-');
    }
    let prefix = string_from_chars(&chars, 0, dash);
    let trimmed_prefix = trim_text(prefix.as_str());
    let t = chars_of(trimmed_prefix.as_str());
    let mut up: Vec<char> = Vec::new();
    let mut i: usize = 0;
    while i < t.len()
        invariant
            0 <= i <= t.len(),
            up@ == uppercased(t@.subrange(0, i as int)),
        decreases t.len() - i,
    {
        proof {
            let p = t@.subrange(0, i + 1);
            assert(p.drop_last() =~= t@.subrange(0, i as int));
            assert(p.last() == t@[i as int]);
        }
        push_uppercase(&mut up, t[i]);
        i = i + 1;
    }
    assert(t@.subrange(0, i as int) =~= t@);
    if up.len() == 2 && is_ascii_letter(up[0]) && is_ascii_letter(up[1]) {
        Some(string_from_chars(&up, 0, 2))
    } else {
        None
    }
}

fn is_ascii_letter(c: char) -> (r: bool)
    ensures
        r == ascii_letter(c),
{
    ('a' <= c && c <= 'z') || ('A' <= c && c <= 'Z')
}

/// A circuit as the catalog stores it: normalized id and browser id.
#[derive(Debug, PartialEq, Eq)]
pub struct TrackKey {
    pub id: String,
    pub browser_id: String,
}

/// Index of the first circuit at or after `k` whose id (`by_browser` false)
/// or browser id (`by_browser` true) is `id`, or the number of circuits.
pub open spec fn track_index(tracks: Seq<TrackKey>, id: Seq<char>, by_browser: bool, k: int) -> int
    decreases tracks.len() - k,
{
    if k < 0 || k >= tracks.len() {
        tracks.len() as int
    } else if (if by_browser {
        tracks[k].browser_id@
    } else {
        tracks[k].id@
    }) == id {
        k
    } else {
        track_index(tracks, id, by_browser, k + 1)
    }
}

fn find_track(tracks: &Vec<TrackKey>, id: &str, by_browser: bool) -> (i: usize)
    ensures
        i == track_index(tracks@, id@, by_browser, 0),
{
    let mut k: usize = 0;
    while k < tracks.len()
        invariant
            0 <= k <= tracks.len(),
            track_index(tracks@, id@, by_browser, 0) == track_index(tracks@, id@, by_browser, k as int),
        decreases tracks.len() - k,
    {
        let key = if by_browser {
            tracks[k].browser_id.as_str()
        } else {
            tracks[k].id.as_str()
        };
        if same_text(key, id) {
            return k;
        }
        k = k + 1;
    }
    k
}

/// Looks a circuit up by its normalized id, then by browser id; the circuits
/// are searched in the order given.
pub fn get_track(tracks: &Vec<TrackKey>, track_id: &str) -> (out: Result<usize, String>)
    ensures
        ({
            let id = normalized_track_id(track_id@);
            let by_id = track_index(tracks@, id, false, 0);
            let by_browser = track_index(tracks@, id, true, 0);
            if by_id < tracks@.len() {
                out == Ok::<usize, String>(by_id as usize)
            } else if by_browser < tracks@.len() {
                out == Ok::<usize, String>(by_browser as usize)
            } else {
                out matches Err(e) && e@ == "unknown circuit '"@ + id + "'"@
            }
        }),
{
    let id = normalize_track_id(track_id);
    let i = find_track(tracks, id.as_str(), false);
    if i < tracks.len() {
        return Ok(i);
    }
    let j = find_track(tracks, id.as_str(), true);
    if j < tracks.len() {
        return Ok(j);
    }
    let mut message = String::from_str("unknown circuit '");
    message.append(id.as_str());
    message.append("'");
    Err(message)
}

/// The presentation fields of a stored circuit.
#[derive(Debug, PartialEq, Eq)]
pub struct TrackPresentation {
    pub id: String,
    pub browser_id: String,
    pub display_name: String,
    pub country_code: Option<String>,
    pub laps: Option<u16>,
}

/// One circuit of the Presentation Pack index.
#[derive(Debug, PartialEq, Eq)]
pub struct PresentationCircuit {
    pub id: String,
    pub source_id: String,
    pub model_id: String,
    pub display_name: String,
    pub country_code: Option<String>,
    pub laps: Option<u16>,
}

/// Index of the first circuit, at or after `k`, whose browser id is `b`.
pub open spec fn browser_index(tracks: Seq<TrackPresentation>, b: Seq<char>, k: int) -> int
    decreases tracks.len() - k,
{
    if k < 0 || k >= tracks.len() {
        tracks.len() as int
    } else if tracks[k].browser_id@ == b {
        k
    } else {
        browser_index(tracks, b, k + 1)
    }
}

/// Applies one presentation entry: it must match a stored circuit by
/// browser id and name that circuit's model; the circuit then takes the
/// entry's browser id, name, country and laps.
pub open spec fn presentation_step(tracks: Seq<TrackPresentation>, e: PresentationCircuit) -> Result<Seq<TrackPresentation>, Seq<char>> {
    let i = browser_index(tracks, normalized_track_id(e.id@), 0);
    if i >= tracks.len() {
        Err("presentation circuit '"@ + e.source_id@ + "' has no simulation resource"@)
    } else if tracks[i].id@ != normalized_track_id(e.model_id@) {
        Err("presentation circuit '"@ + e.source_id@ + "' expects model '"@ + e.model_id@ + "', found '"@ + tracks[i].id@ + "'"@)
    } else {
        Ok(tracks.update(i, TrackPresentation {
            id: tracks[i].id,
            browser_id: e.id,
            display_name: e.display_name,
            country_code: e.country_code,
            laps: e.laps,
        }))
    }
}

/// The first `k` entries applied in order, or the first error.
pub open spec fn presentation_applied(tracks: Seq<TrackPresentation>, entries: Seq<PresentationCircuit>, k: int) -> Result<Seq<TrackPresentation>, Seq<char>>
    decreases k,
{
    if k <= 0 {
        Ok(tracks)
    } else {
        match presentation_applied(tracks, entries, k - 1) {
            Err(m) => Err(m),
            Ok(t) => presentation_step(t, entries[k - 1]),
        }
    }
}

/// Applying one presentation entry rewrites exactly the stored circuit whose
/// browser id is the entry's normalised id and whose model the entry names:
/// that circuit keeps its model id and takes the entry's browser id, display
/// name, country code and laps; every other circuit is unchanged.
pub proof fn lemma_presentation_step_rewrites_the_matched_circuit(
    tracks: Seq<TrackPresentation>,
    e: PresentationCircuit,
)
    requires
        presentation_step(tracks, e) is Ok,
    ensures
        ({
            let t = presentation_step(tracks, e)->Ok_0;
            &&& t.len() == tracks.len()
            &&& exists|i: int|
                0 <= i < tracks.len() && (#[trigger] tracks[i]).browser_id@ == normalized_track_id(e.id@)
                    && tracks[i].id@ == normalized_track_id(e.model_id@) && t[i] == (TrackPresentation {
                    id: tracks[i].id,
                    browser_id: e.id,
                    display_name: e.display_name,
                    country_code: e.country_code,
                    laps: e.laps,
                }) && forall|j: int| 0 <= j < tracks.len() && j != i ==> #[trigger] t[j] == tracks[j]
        }),
{
    let i = browser_index(tracks, normalized_track_id(e.id@), 0);
    lemma_browser_index_found(tracks, normalized_track_id(e.id@), 0);
    let t = presentation_step(tracks, e)->Ok_0;
    assert(0 <= i < tracks.len() && tracks[i].browser_id@ == normalized_track_id(e.id@));
    assert(forall|j: int| 0 <= j < tracks.len() && j != i ==> #[trigger] t[j] == tracks[j]);
}

proof fn lemma_browser_index_found(tracks: Seq<TrackPresentation>, b: Seq<char>, k: int)
    requires
        0 <= k,
    ensures
        browser_index(tracks, b, k) < tracks.len() ==> k <= browser_index(tracks, b, k)
            && tracks[browser_index(tracks, b, k)].browser_id@ == b,
    decreases tracks.len() - k,
{
    if k < tracks.len() {
        lemma_browser_index_found(tracks, b, k + 1);
    }
}

/// After a successful application of the first `k` entries, the last of
/// them is carried by a stored circuit: its browser id, display name,
/// country code and laps.
pub proof fn lemma_last_presentation_entry_is_carried(
    tracks: Seq<TrackPresentation>,
    entries: Seq<PresentationCircuit>,
    k: int,
)
    requires
        0 < k <= entries.len(),
        presentation_applied(tracks, entries, k) is Ok,
    ensures
        exists|i: int|
            0 <= i < presentation_applied(tracks, entries, k)->Ok_0.len() && {
                let c = #[trigger] presentation_applied(tracks, entries, k)->Ok_0[i];
                &&& c.browser_id == entries[k - 1].id
                &&& c.display_name == entries[k - 1].display_name
                &&& c.country_code == entries[k - 1].country_code
                &&& c.laps == entries[k - 1].laps
            },
{
    let before = presentation_applied(tracks, entries, k - 1)->Ok_0;
    lemma_presentation_step_rewrites_the_matched_circuit(before, entries[k - 1]);
    let t = presentation_step(before, entries[k - 1])->Ok_0;
    let i = choose|i: int|
        0 <= i < before.len() && (#[trigger] before[i]).browser_id@ == normalized_track_id(entries[k - 1].id@)
            && before[i].id@ == normalized_track_id(entries[k - 1].model_id@) && t[i] == (TrackPresentation {
            id: before[i].id,
            browser_id: entries[k - 1].id,
            display_name: entries[k - 1].display_name,
            country_code: entries[k - 1].country_code,
            laps: entries[k - 1].laps,
        }) && forall|j: int| 0 <= j < before.len() && j != i ==> #[trigger] t[j] == before[j];
    assert(presentation_applied(tracks, entries, k)->Ok_0[i] == t[i]);
}

fn find_browser(tracks: &Vec<TrackPresentation>, b: &str) -> (i: usize)
    ensures
        i == browser_index(tracks@, b@, 0),
{
    let mut k: usize = 0;
    while k < tracks.len() && !same_text(tracks[k].browser_id.as_str(), b)
        invariant
            0 <= k <= tracks.len(),
            browser_index(tracks@, b@, 0) == browser_index(tracks@, b@, k as int),
        decreases tracks.len() - k,
    {
        k = k + 1;
    }
    k
}

/// Error text of a count mismatch between the presentation and simulation
/// packs.
pub open spec fn count_message(count: nat, kind: Seq<char>, stored: nat) -> Seq<char> {
    "presentation index contains "@ + decimal(count) + " "@ + kind + " for "@ + decimal(stored) + " simulation resources"@
}

fn count_error(count: usize, kind: &str, stored: usize) -> (out: String)
    ensures
        out@ == count_message(count as nat, kind@, stored as nat),
{
    let mut message = String::from_str("presentation index contains ");
    push_decimal(&mut message, count as u64);
    message.append(" ");
    message.append(kind);
    message.append(" for ");
    push_decimal(&mut message, stored as u64);
    message.append(" simulation resources");
    message
}

/// Applies the Presentation Pack's circuits to the stored circuits: the
/// packs must hold as many circuits (and as many drivers, `driver_count`
/// against `stored_drivers`), and each entry, in order, must match a stored
/// circuit by browser id and name its model. On success the circuits carry
/// the presentation's ids, names, countries and laps.
pub fn apply_presentation_circuits(
    tracks: &mut Vec<TrackPresentation>,
    circuits: Vec<PresentationCircuit>,
    driver_count: usize,
    stored_drivers: usize,
) -> (out: Result<(), String>)
    ensures
        circuits@.len() != old(tracks)@.len() ==> (out matches Err(e) && e@ == count_message(circuits@.len(), "circuits"@, old(tracks)@.len())),
        circuits@.len() == old(tracks)@.len() && driver_count != stored_drivers ==> (out matches Err(e) && e@ == count_message(driver_count as nat, "drivers"@, stored_drivers as nat)),
        circuits@.len() == old(tracks)@.len() && driver_count == stored_drivers ==> match presentation_applied(old(tracks)@, circuits@, circuits@.len() as int) {
            Ok(t) => out is Ok && final(tracks)@ == t,
            Err(m) => out matches Err(e) && e@ == m,
        },
{
    if circuits.len() != tracks.len() {
        return Err(count_error(circuits.len(), "circuits", tracks.len()));
    }
    if driver_count != stored_drivers {
        return Err(count_error(driver_count, "drivers", stored_drivers));
    }
    let ghost entries = circuits@;
    let ghost start = tracks@;
    let mut k: usize = 0;
    let ghost circuits_view = circuits@;
    for entry in it: circuits.into_iter()
        invariant
            it.seq() == entries,
            k == it.index(),
            k <= entries.len(),
            start == old(tracks)@,
            entries == circuits_view,
            entries.len() == start.len(),
            tracks@.len() == start.len(),
            driver_count == stored_drivers,
            presentation_applied(start, entries, k as int) == Ok::<Seq<TrackPresentation>, Seq<char>>(tracks@),
    {
        let b = normalize_track_id(entry.id.as_str());
        let i = find_browser(tracks, b.as_str());
        if i >= tracks.len() {
            let mut message = String::from_str("presentation circuit '");
            message.append(entry.source_id.as_str());
            message.append("' has no simulation resource");
            proof {
                lemma_presentation_error_sticks(start, entries, k + 1, entries.len() as int);
            }
            return Err(message);
        }
        let model = normalize_track_id(entry.model_id.as_str());
        if !same_text(tracks[i].id.as_str(), model.as_str()) {
            let mut message = String::from_str("presentation circuit '");
            message.append(entry.source_id.as_str());
            message.append("' expects model '");
            message.append(entry.model_id.as_str());
            message.append("', found '");
            message.append(tracks[i].id.as_str());
            message.append("'");
            proof {
                lemma_presentation_error_sticks(start, entries, k + 1, entries.len() as int);
            }
            return Err(message);
        }
        let id = tracks[i].id.clone();
        let PresentationCircuit { id: browser_id, source_id: _, model_id: _, display_name, country_code, laps } = entry;
        tracks.set(i, TrackPresentation { id, browser_id, display_name, country_code, laps });
        k = k + 1;
    }
    Ok(())
}

proof fn lemma_presentation_error_sticks(tracks: Seq<TrackPresentation>, entries: Seq<PresentationCircuit>, k: int, n: int)
    requires
        k <= n,
        presentation_applied(tracks, entries, k) is Err,
    ensures
        presentation_applied(tracks, entries, n) == presentation_applied(tracks, entries, k),
    decreases n - k,
{
    if k < n {
        lemma_presentation_error_sticks(tracks, entries, k, n - 1);
    }
}

/// Index of the stored driver with id `id`, or the number of drivers.
pub open spec fn driver_index(drivers: Seq<(String, String)>, id: Seq<char>, k: int) -> int
    decreases drivers.len() - k,
{
    if k < 0 || k >= drivers.len() {
        drivers.len() as int
    } else if drivers[k].0@ == id {
        k
    } else {
        driver_index(drivers, id, k + 1)
    }
}

/// The first `k` presentation drivers applied in order: each must name a
/// stored driver, whose display name it then sets.
pub open spec fn drivers_applied(drivers: Seq<(String, String)>, entries: Seq<(String, String)>, k: int) -> Result<Seq<(String, String)>, Seq<char>>
    decreases k,
{
    if k <= 0 {
        Ok(drivers)
    } else {
        match drivers_applied(drivers, entries, k - 1) {
            Err(m) => Err(m),
            Ok(d) => {
                let e = entries[k - 1];
                let i = driver_index(d, e.0@, 0);
                if i >= d.len() {
                    Err("presentation driver '"@ + e.0@ + "' has no simulation resource"@)
                } else {
                    Ok(d.update(i, (d[i].0, e.1)))
                }
            },
        }
    }
}

proof fn lemma_driver_index_found(drivers: Seq<(String, String)>, id: Seq<char>, k: int)
    requires
        0 <= k <= drivers.len(),
    ensures
        k <= driver_index(drivers, id, k),
        driver_index(drivers, id, k) < drivers.len() ==> drivers[driver_index(drivers, id, k)].0@ == id,
    decreases drivers.len() - k,
{
    if k < drivers.len() {
        lemma_driver_index_found(drivers, id, k + 1);
    }
}

/// Applying presentation drivers keeps every stored driver and its id, in
/// place, and after a successful application of the first `k` entries the
/// driver named by the last of them carries that entry's display name.
pub proof fn lemma_presentation_drivers_set_names(
    drivers: Seq<(String, String)>,
    entries: Seq<(String, String)>,
    k: int,
)
    requires
        0 <= k <= entries.len(),
        drivers_applied(drivers, entries, k) is Ok,
    ensures
        ({
            let d = drivers_applied(drivers, entries, k)->Ok_0;
            &&& d.len() == drivers.len()
            &&& forall|i: int| 0 <= i < d.len() ==> (#[trigger] d[i]).0 == drivers[i].0
            &&& k > 0 ==> exists|i: int|
                0 <= i < d.len() && (#[trigger] d[i]).0@ == entries[k - 1].0@ && d[i].1 == entries[k - 1].1
        }),
    decreases k,
{
    if k > 0 {
        lemma_presentation_drivers_set_names(drivers, entries, k - 1);
        let prev = drivers_applied(drivers, entries, k - 1)->Ok_0;
        let i = driver_index(prev, entries[k - 1].0@, 0);
        lemma_driver_index_found(prev, entries[k - 1].0@, 0);
        assert(0 <= i < prev.len());
        let d = drivers_applied(drivers, entries, k)->Ok_0;
        assert(d == prev.update(i, (prev[i].0, entries[k - 1].1)));
        assert(forall|j: int| 0 <= j < d.len() ==> (#[trigger] d[j]).0 == prev[j].0);
        assert(d[i].0@ == entries[k - 1].0@ && d[i].1 == entries[k - 1].1);
    }
}

proof fn lemma_drivers_error_sticks(drivers: Seq<(String, String)>, entries: Seq<(String, String)>, k: int, n: int)
    requires
        k <= n,
        drivers_applied(drivers, entries, k) is Err,
    ensures
        drivers_applied(drivers, entries, n) == drivers_applied(drivers, entries, k),
    decreases n - k,
{
    if k < n {
        lemma_drivers_error_sticks(drivers, entries, k, n - 1);
    }
}

/// Applies the Presentation Pack's driver names to the stored drivers, given
/// as (id, display name) pairs.
pub fn apply_presentation_drivers(drivers: &mut Vec<(String, String)>, entries: Vec<(String, String)>) -> (out: Result<(), String>)
    ensures
        match drivers_applied(old(drivers)@, entries@, entries@.len() as int) {
            Ok(d) => out is Ok && final(drivers)@ == d,
            Err(m) => out matches Err(e) && e@ == m,
        },
{
    let ghost start = drivers@;
    let ghost all = entries@;
    let n = entries.len();
    let mut k: usize = 0;
    for entry in it: entries.into_iter()
        invariant
            it.seq() == all,
            k == it.index(),
            k <= all.len(),
            all.len() == n,
            start == old(drivers)@,
            drivers_applied(start, all, k as int) == Ok::<Seq<(String, String)>, Seq<char>>(drivers@),
    {
        let (id, name) = entry;
        let mut i: usize = 0;
        while i < drivers.len() && !same_text(drivers[i].0.as_str(), id.as_str())
            invariant
                0 <= i <= drivers.len(),
                driver_index(drivers@, id@, 0) == driver_index(drivers@, id@, i as int),
            decreases drivers.len() - i,
        {
            i = i + 1;
        }
        if i >= drivers.len() {
            let mut message = String::from_str("presentation driver '");
            message.append(id.as_str());
            message.append("' has no simulation resource");
            proof {
                lemma_drivers_error_sticks(start, all, k + 1, all.len() as int);
            }
            return Err(message);
        }
        let stored = drivers[i].0.clone();
        drivers.set(i, (stored, name));
        k = k + 1;
    }
    Ok(())
}

} // verus!
