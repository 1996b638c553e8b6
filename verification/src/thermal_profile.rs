//! Reviewed engine-thermal family profiles: exact validation of the reviewed
//! candidate documents and deterministic selection of one family per vehicle
//! (V1) or per installed power unit (V2).
//!
//! The numeric thermal coefficients of each family are checked by their own
//! validator; a profile entry here carries that check's outcome.

use vstd::prelude::*;
use vstd::string::*;

use crate::identity::{copy_identity, identity_eq, same_identity, ArtifactIdentity};
use crate::workload::{is_identity, model_v3_thermal, racing_model_v3_thermal_candidate_identity};
use crate::text::{debug_quote, debug_text, same_text, text_less, trim_text, trimmed};

verus! {

/// Selection semantics owned by the Racing Simulator (V1).
#[derive(Debug, PartialEq, Eq)]
pub struct V3ThermalFamilyResolutionContractV1 {
    pub resolver_owner: String,
    pub solver_input: String,
    pub selection_key: String,
    pub unknown_vehicle_behavior: String,
    pub era_only_selection_forbidden: bool,
}

/// The vehicles and eras one V1 family is bound to.
#[derive(Debug, PartialEq, Eq)]
pub struct V3ThermalFamilyBindingsV1 {
    pub vehicle_ids: Vec<String>,
    pub eras: Vec<u32>,
}

/// The promotion rights of a reviewed thermal candidate.
#[derive(Debug, PartialEq, Eq)]
pub struct V3ThermalPromotionBoundaryV1 {
    pub candidate_creation_authorized: bool,
    pub rust_wasm_integration_authorized: bool,
    pub catalog_publication_authorized: bool,
    pub authority_verifier_promotion_authorized: bool,
    pub game_staging_promotion_authorized: bool,
    pub production_promotion_authorized: bool,
    pub automatic_promotion: bool,
}

/// One V1 family entry.
#[derive(Debug, PartialEq, Eq)]
pub struct V3ThermalFamilyEntryV1 {
    pub parameter_set_id: String,
    pub validated_profile_ref: String,
    pub bindings: V3ThermalFamilyBindingsV1,
    /// Outcome of validating the family's numeric thermal coefficients.
    pub engine_thermal_resolution_check: Result<(), String>,
}

/// The reviewed V1 candidate, its families in map order (ascending name).
#[derive(Debug, PartialEq, Eq)]
pub struct V3ThermalFamilyProfileCandidateV1 {
    pub schema_version: String,
    pub id: String,
    pub version: String,
    pub status: String,
    pub model: ArtifactIdentity,
    pub resolution_contract: V3ThermalFamilyResolutionContractV1,
    /// Entries by family name, in ascending name order (`names_ascending`).
    pub profiles: Vec<(String, V3ThermalFamilyEntryV1)>,
    /// Whether the excluded experimental fuel reservoir is exactly 130 kg.
    pub excluded_fuel_reservoir_is_reviewed: bool,
    pub excluded_owner_issue: u64,
    pub promotion: V3ThermalPromotionBoundaryV1,
}

/// The exact profile identity selected for one execution (V1).
#[derive(Debug, PartialEq, Eq)]
pub struct V3ThermalFamilyResolutionV1 {
    pub schema_version: String,
    pub candidate: ArtifactIdentity,
    pub model: ArtifactIdentity,
    pub family: String,
    pub vehicle_id: String,
    pub parameter_set_id: String,
    pub validated_profile_ref: String,
}

pub open spec fn family_profile_id() -> Seq<char> {
    "pitgun.racing-v3-thermal-family-profile"@
}

pub open spec fn family_profile_digest() -> Seq<char> {
    "sha256:8aefd230da307e3439eef115fbfcd1117c8a8bbb1128c2c4b00138d6026f2f57"@
}

pub open spec fn reviewed_families() -> Set<Seq<char>> {
    set!["historical_v8"@, "modern_v6t"@, "f1_2026"@]
}

/// Views of a list of strings.
pub open spec fn texts(v: Seq<String>) -> Seq<Seq<char>> {
    v.map_values(|s: String| s@)
}

/// The family names of a profile list.
pub open spec fn family_names<E>(profiles: Seq<(String, E)>) -> Seq<Seq<char>> {
    profiles.map_values(|p: (String, E)| p.0@)
}

/// Family names in strictly ascending text order, as the keys of the
/// ordered map that a profile document is read into: no family twice.
pub open spec fn names_ascending(names: Seq<Seq<char>>) -> bool {
    forall|i: int, j: int| 0 <= i < j < names.len() ==> text_less(#[trigger] names[i], #[trigger] names[j])
}

/// The families are exactly the three reviewed ones.
pub open spec fn covers_reviewed_families(names: Seq<Seq<char>>) -> bool {
    &&& forall|i: int| 0 <= i < names.len() ==> reviewed_families().contains(#[trigger] names[i])
    &&& forall|f: Seq<char>| #[trigger] reviewed_families().contains(f) ==> names.contains(f)
}

/// Vehicles each V1 family must be bound to.
pub open spec fn expected_vehicle_ids(family: Seq<char>) -> Seq<Seq<char>> {
    if family == "historical_v8"@ {
        seq!["classic_v8_1960"@, "classic_v8_1970"@]
    } else if family == "modern_v6t"@ {
        seq!["modern_v6t"@]
    } else {
        seq!["f1_2026"@]
    }
}

/// Eras each V1 family must be bound to.
pub open spec fn expected_eras(family: Seq<char>) -> Seq<u32> {
    if family == "historical_v8"@ {
        seq![1u32, 4u32]
    } else {
        seq![5u32]
    }
}

/// Registers `ids` after `bound` in order; the first id met twice is
/// rejected with the message `dup_prefix + debug(id) + dup_suffix`.
pub open spec fn register_bindings(bound: Seq<Seq<char>>, ids: Seq<Seq<char>>, dup_prefix: Seq<char>, dup_suffix: Seq<char>) -> Result<
    Seq<Seq<char>>,
    Seq<char>,
>
    decreases ids.len(),
{
    if ids.len() == 0 {
        Ok(bound)
    } else {
        match register_bindings(bound, ids.drop_last(), dup_prefix, dup_suffix) {
            Err(e) => Err(e),
            Ok(b) => if b.contains(ids.last()) {
                Err(dup_prefix + debug_text(ids.last()) + dup_suffix)
            } else {
                Ok(b.push(ids.last()))
            },
        }
    }
}

/// Checks the first `k` V1 families in order; yields the vehicles bound so
/// far or the first error.
pub open spec fn family_entries_v1(profiles: Seq<(String, V3ThermalFamilyEntryV1)>, k: int) -> Result<Seq<Seq<char>>, Seq<char>>
    decreases k,
{
    if k <= 0 {
        Ok(Seq::empty())
    } else {
        match family_entries_v1(profiles, k - 1) {
            Err(e) => Err(e),
            Ok(bound) => {
                let family = profiles[k - 1].0@;
                let entry = profiles[k - 1].1;
                match entry.engine_thermal_resolution_check {
                    Err(m) => Err(m@),
                    Ok(_) => if texts(entry.bindings.vehicle_ids@) != expected_vehicle_ids(family)
                        || entry.bindings.eras@ != expected_eras(family) {
                        Err("unexpected thermal bindings for family "@ + debug_text(family))
                    } else {
                        register_bindings(
                            bound,
                            texts(entry.bindings.vehicle_ids@),
                            "vehicle "@,
                            " has multiple thermal profiles"@,
                        )
                    },
                }
            },
        }
    }
}

/// The promotion rights stay exactly those the review granted.
pub open spec fn promotion_within_review(p: V3ThermalPromotionBoundaryV1) -> bool {
    &&& p.candidate_creation_authorized
    &&& p.rust_wasm_integration_authorized
    &&& !p.catalog_publication_authorized
    &&& !p.authority_verifier_promotion_authorized
    &&& !p.game_staging_promotion_authorized
    &&& !p.production_promotion_authorized
    &&& !p.automatic_promotion
}

/// Outcome of validating a V1 candidate against the expected model.
pub open spec fn validate_v1(c: V3ThermalFamilyProfileCandidateV1) -> Result<(), Seq<char>> {
    let contract = c.resolution_contract;
    if !(c.schema_version@ == "pitgun.racing-v3-thermal-family-profile-candidate/v1"@ && c.id@
        == family_profile_id() && c.version@ == "1.0.0-rc.1"@ && c.status@
        == "REVIEWED_CANDIDATE"@) {
        Err("unsupported thermal family profile identity"@)
    } else if !is_identity(c.model, model_v3_thermal()) {
        Err("thermal family profile targets an unsupported model"@)
    } else if !(contract.resolver_owner@ == "pitgun-racing-simulator"@ && contract.solver_input@
        == "one resolved engine_thermal_resolution per execution"@ && contract.selection_key@
        == "vehicle_id"@ && contract.unknown_vehicle_behavior@ == "reject"@
        && contract.era_only_selection_forbidden) {
        Err("unsupported thermal family resolution contract"@)
    } else if !covers_reviewed_families(family_names(c.profiles@)) {
        Err("thermal family profile coverage is incomplete"@)
    } else {
        validate_v1_entries_onward(c)
    }
}

/// The checks of a V1 candidate from its family entries onward.
pub open spec fn validate_v1_entries_onward(c: V3ThermalFamilyProfileCandidateV1) -> Result<(), Seq<char>> {
    if family_entries_v1(c.profiles@, c.profiles@.len() as int) is Err {
        Err(family_entries_v1(c.profiles@, c.profiles@.len() as int)->Err_0)
    } else if !(c.excluded_fuel_reservoir_is_reviewed && c.excluded_owner_issue == 246) {
        Err("experimental fuel exclusion is not preserved"@)
    } else if !promotion_within_review(c.promotion) {
        Err("thermal candidate exceeds its reviewed promotion boundary"@)
    } else {
        Ok(())
    }
}

/// `out` carries the spec outcome.
pub open spec fn unit_matches(out: Result<(), String>, expected: Result<(), Seq<char>>) -> bool {
    match (out, expected) {
        (Ok(_), Ok(_)) => true,
        (Err(e), Err(m)) => e@ == m,
        _ => false,
    }
}

/// The list of texts equals the given literals.
fn texts_are(v: &Vec<String>, expected: &Vec<&str>) -> (r: bool)
    ensures
        r == (texts(v@) == expected@.map_values(|s: &str| s@)),
{
    let ghost ev = expected@.map_values(|s: &str| s@);
    if v.len() != expected.len() {
        proof {
            assert(texts(v@).len() != ev.len());
        }
        return false;
    }
    let mut i: usize = 0;
    while i < v.len()
        invariant
            0 <= i <= v.len() == expected.len(),
            ev == expected@.map_values(|s: &str| s@),
            forall|j: int| 0 <= j < i ==> (#[trigger] v@[j])@ == expected@[j]@,
        decreases v.len() - i,
    {
        if !same_text(v[i].as_str(), expected[i]) {
            proof {
                assert(texts(v@)[i as int] != ev[i as int]);
            }
            return false;
        }
        i = i + 1;
    }
    assert(texts(v@) =~= ev);
    true
}

/// Element-wise equality of two era lists.
fn eras_are(v: &Vec<u32>, expected: &Vec<u32>) -> (r: bool)
    ensures
        r == (v@ == expected@),
{
    if v.len() != expected.len() {
        return false;
    }
    let mut i: usize = 0;
    while i < v.len()
        invariant
            0 <= i <= v.len() == expected.len(),
            forall|j: int| 0 <= j < i ==> v@[j] == expected@[j],
        decreases v.len() - i,
    {
        if v[i] != expected[i] {
            return false;
        }
        i = i + 1;
    }
    assert(v@ =~= expected@);
    true
}

/// Whether `bound` holds a text equal to `id`.
fn holds_text(bound: &Vec<String>, id: &String) -> (r: bool)
    ensures
        r == texts(bound@).contains(id@),
{
    let mut i: usize = 0;
    while i < bound.len()
        invariant
            0 <= i <= bound.len(),
            forall|j: int| 0 <= j < i ==> (#[trigger] bound@[j])@ != id@,
        decreases bound.len() - i,
    {
        if same_text(bound[i].as_str(), id.as_str()) {
            proof {
                assert(texts(bound@)[i as int] == id@);
            }
            return true;
        }
        i = i + 1;
    }
    proof {
        if texts(bound@).contains(id@) {
            let k = choose|k: int| 0 <= k < texts(bound@).len() && texts(bound@)[k] == id@;
            assert(bound@[k]@ == id@);
        }
    }
    false
}

/// Registers ids in order, rejecting the first one already bound.
fn register_ids(
    bound: &mut Vec<String>,
    ids: &Vec<String>,
    dup_prefix: &str,
    dup_suffix: &str,
) -> (out: Result<(), String>)
    ensures
        match register_bindings(texts(old(bound)@), texts(ids@), dup_prefix@, dup_suffix@) {
            Ok(b) => out is Ok && texts(final(bound)@) == b,
            Err(m) => out matches Err(e) && e@ == m,
        },
{
    let ghost start = texts(bound@);
    let mut i: usize = 0;
    while i < ids.len()
        invariant
            0 <= i <= ids.len(),
            start == texts(old(bound)@),
            register_bindings(start, texts(ids@).subrange(0, i as int), dup_prefix@, dup_suffix@)
                == Ok::<Seq<Seq<char>>, Seq<char>>(texts(bound@)),
        decreases ids.len() - i,
    {
        let id = &ids[i];
        let ghost pre = texts(ids@).subrange(0, i as int);
        let ghost next = texts(ids@).subrange(0, i + 1);
        proof {
            assert(next.drop_last() =~= pre);
            assert(next.last() == id@);
        }
        if holds_text(bound, id) {
            let mut message = String::from_str(dup_prefix);
            let quoted = debug_quote(id.as_str());
            message.append(quoted.as_str());
            message.append(dup_suffix);
            proof {
                lemma_register_error_sticks(start, texts(ids@), dup_prefix@, dup_suffix@, i + 1);
            }
            return Err(message);
        }
        let ghost before = bound@;
        bound.push(id.clone());
        proof {
            assert(texts(bound@) =~= texts(before).push(id@));
        }
        i = i + 1;
    }
    assert(texts(ids@).subrange(0, i as int) =~= texts(ids@));
    Ok(())
}

proof fn lemma_register_error_sticks(bound: Seq<Seq<char>>, ids: Seq<Seq<char>>, p: Seq<char>, s: Seq<char>, k: int)
    requires
        0 <= k <= ids.len(),
        register_bindings(bound, ids.subrange(0, k), p, s) is Err,
    ensures
        register_bindings(bound, ids, p, s) == register_bindings(bound, ids.subrange(0, k), p, s),
    decreases ids.len() - k,
{
    if k < ids.len() {
        let next = ids.subrange(0, k + 1);
        assert(next.drop_last() =~= ids.subrange(0, k));
        lemma_register_error_sticks(bound, ids, p, s, k + 1);
    } else {
        assert(ids.subrange(0, k) =~= ids);
    }
}

/// Whether the family names are exactly the reviewed ones.
fn check_family_coverage<E>(profiles: &Vec<(String, E)>) -> (r: bool)
    ensures
        r == covers_reviewed_families(family_names(profiles@)),
{
    proof {
        reveal_strlit("historical_v8");
        reveal_strlit("modern_v6t");
        reveal_strlit("f1_2026");
    }
    let ghost names = family_names(profiles@);
    let mut has_v8 = false;
    let mut has_v6t = false;
    let mut has_f1 = false;
    let mut i: usize = 0;
    while i < profiles.len()
        invariant
            0 <= i <= profiles.len(),
            names == family_names(profiles@),
            forall|j: int| 0 <= j < i ==> reviewed_families().contains(#[trigger] names[j]),
            has_v8 == names.subrange(0, i as int).contains("historical_v8"@),
            has_v6t == names.subrange(0, i as int).contains("modern_v6t"@),
            has_f1 == names.subrange(0, i as int).contains("f1_2026"@),
        decreases profiles.len() - i,
    {
        let name = profiles[i].0.as_str();
        proof {
            reveal_strlit("historical_v8");
            reveal_strlit("modern_v6t");
            reveal_strlit("f1_2026");
            assert("historical_v8"@.len() == 13);
            assert("modern_v6t"@.len() == 10);
            assert("f1_2026"@.len() == 7);
        }
        let ghost pre = names.subrange(0, i as int);
        let ghost next = names.subrange(0, i + 1);
        proof {
            assert(next =~= pre.push(names[i as int]));
            assert(names[i as int] == name@);
            assert forall|x: Seq<char>| next.contains(x) <==> (pre.contains(x) || x == name@) by {
                if next.contains(x) {
                    let k = choose|k: int| 0 <= k < next.len() && next[k] == x;
                    if k < i {
                        assert(pre[k] == x);
                    }
                }
                if pre.contains(x) {
                    let k = choose|k: int| 0 <= k < pre.len() && pre[k] == x;
                    assert(next[k] == x);
                }
                if x == name@ {
                    assert(next[i as int] == x);
                }
            }
        }
        if same_text(name, "historical_v8") {
            has_v8 = true;
        } else if same_text(name, "modern_v6t") {
            has_v6t = true;
        } else if same_text(name, "f1_2026") {
            has_f1 = true;
        } else {
            proof {
                assert(!reviewed_families().contains(names[i as int]));
            }
            return false;
        }
        i = i + 1;
    }
    assert(names.subrange(0, i as int) =~= names);
    proof {
        assert(reviewed_families().contains("historical_v8"@));
        assert(reviewed_families().contains("modern_v6t"@));
        assert(reviewed_families().contains("f1_2026"@));
        assert forall|f: Seq<char>| #[trigger] reviewed_families().contains(f) implies (f == "historical_v8"@ || f == "modern_v6t"@ || f == "f1_2026"@) by {
        }
    }
    has_v8 && has_v6t && has_f1
}

impl V3ThermalFamilyProfileCandidateV1 {
    /// Checks the candidate against the reviewed document: identity, target
    /// model, resolution contract, family coverage, exact bindings (each
    /// vehicle in one family), the preserved fuel exclusion and the promotion
    /// boundary, in that order.
    pub fn validate(&self) -> (out: Result<(), String>)
        requires
            names_ascending(family_names(self.profiles@)),
        ensures
            unit_matches(out, validate_v1(*self)),
    {
        if !(same_text(self.schema_version.as_str(), "pitgun.racing-v3-thermal-family-profile-candidate/v1")
            && same_text(self.id.as_str(), "pitgun.racing-v3-thermal-family-profile")
            && same_text(self.version.as_str(), "1.0.0-rc.1")
            && same_text(self.status.as_str(), "REVIEWED_CANDIDATE")) {
            return Err(String::from_str("unsupported thermal family profile identity"));
        }
        let expected_model = racing_model_v3_thermal_candidate_identity();
        if !identity_eq(&self.model, &expected_model) {
            return Err(String::from_str("thermal family profile targets an unsupported model"));
        }
        let contract = &self.resolution_contract;
        if !(same_text(contract.resolver_owner.as_str(), "pitgun-racing-simulator")
            && same_text(contract.solver_input.as_str(), "one resolved engine_thermal_resolution per execution")
            && same_text(contract.selection_key.as_str(), "vehicle_id")
            && same_text(contract.unknown_vehicle_behavior.as_str(), "reject")
            && contract.era_only_selection_forbidden) {
            return Err(String::from_str("unsupported thermal family resolution contract"));
        }
        if !check_family_coverage(&self.profiles) {
            return Err(String::from_str("thermal family profile coverage is incomplete"));
        }
        let mut bound: Vec<String> = Vec::new();
        assert(texts(bound@) =~= Seq::<Seq<char>>::empty());
        let mut k: usize = 0;
        while k < self.profiles.len()
            invariant
                0 <= k <= self.profiles.len(),
                validate_v1(*self) == validate_v1_entries_onward(*self),
                family_entries_v1(self.profiles@, k as int) == Ok::<Seq<Seq<char>>, Seq<char>>(texts(bound@)),
            decreases self.profiles.len() - k,
        {
            let family = &self.profiles[k].0;
            let entry = &self.profiles[k].1;
            if let Err(message) = &entry.engine_thermal_resolution_check {
                proof {
                    lemma_entries_v1_error_sticks(self.profiles@, k + 1, self.profiles@.len() as int);
                }
                return Err(message.clone());
            }
            let (ids, eras): (Vec<&str>, Vec<u32>) = if same_text(family.as_str(), "historical_v8") {
                (vec!["classic_v8_1960", "classic_v8_1970"], vec![1u32, 4u32])
            } else if same_text(family.as_str(), "modern_v6t") {
                (vec!["modern_v6t"], vec![5u32])
            } else {
                (vec!["f1_2026"], vec![5u32])
            };
            proof {
                assert(ids@.map_values(|s: &str| s@) =~= expected_vehicle_ids(family@));
                assert(eras@ =~= expected_eras(family@));
            }
            if !texts_are(&entry.bindings.vehicle_ids, &ids) || !eras_are(&entry.bindings.eras, &eras) {
                let mut message = String::from_str("unexpected thermal bindings for family ");
                let quoted = debug_quote(family.as_str());
                message.append(quoted.as_str());
                proof {
                    lemma_entries_v1_error_sticks(self.profiles@, k + 1, self.profiles@.len() as int);
                }
                return Err(message);
            }
            let registered = register_ids(&mut bound, &entry.bindings.vehicle_ids, "vehicle ", " has multiple thermal profiles");
            if let Err(message) = registered {
                proof {
                    lemma_entries_v1_error_sticks(self.profiles@, k + 1, self.profiles@.len() as int);
                }
                return Err(message);
            }
            k = k + 1;
        }
        if !(self.excluded_fuel_reservoir_is_reviewed && self.excluded_owner_issue == 246) {
            return Err(String::from_str("experimental fuel exclusion is not preserved"));
        }
        let p = &self.promotion;
        if !(p.candidate_creation_authorized && p.rust_wasm_integration_authorized
            && !p.catalog_publication_authorized && !p.authority_verifier_promotion_authorized
            && !p.game_staging_promotion_authorized && !p.production_promotion_authorized
            && !p.automatic_promotion) {
            return Err(String::from_str("thermal candidate exceeds its reviewed promotion boundary"));
        }
        Ok(())
    }
}

/// Index of the first family at or after `k` bound to `vehicle`, or the
/// number of families.
pub open spec fn first_family_binding_v1(profiles: Seq<(String, V3ThermalFamilyEntryV1)>, vehicle: Seq<char>, k: int) -> int
    decreases profiles.len() - k,
{
    if k < 0 || k >= profiles.len() {
        profiles.len() as int
    } else if texts(profiles[k].1.bindings.vehicle_ids@).contains(vehicle) {
        k
    } else {
        first_family_binding_v1(profiles, vehicle, k + 1)
    }
}

/// The evidence a V1 resolution records for family `i` and the vehicle.
pub open spec fn resolution_evidence_v1(
    c: V3ThermalFamilyProfileCandidateV1,
    i: int,
    vehicle: Seq<char>,
    r: V3ThermalFamilyResolutionV1,
) -> bool {
    &&& r.schema_version@ == "pitgun.racing-v3-thermal-family-resolution/v1"@
    &&& r.candidate.id@ == c.id@
    &&& r.candidate.version@ == c.version@
    &&& r.candidate.digest@ == family_profile_digest()
    &&& r.model == c.model
    &&& r.family == c.profiles@[i].0
    &&& r.vehicle_id@ == vehicle
    &&& r.parameter_set_id == c.profiles@[i].1.parameter_set_id
    &&& r.validated_profile_ref == c.profiles@[i].1.validated_profile_ref
}

impl V3ThermalFamilyProfileCandidateV1 {
    /// Selects the family bound to a vehicle (trimmed); the candidate is
    /// validated first and an unbound vehicle is rejected. Returns the
    /// evidence and the index of the selected family, whose thermal
    /// coefficients the execution uses.
    pub fn resolve_vehicle(&self, vehicle_id: &str) -> (out: Result<
        (V3ThermalFamilyResolutionV1, usize),
        String,
    >)
        requires
            names_ascending(family_names(self.profiles@)),
        ensures
            match validate_v1(*self) {
                Err(m) => out matches Err(e) && e@ == m,
                Ok(_) => {
                    let t = trimmed(vehicle_id@);
                    let i = first_family_binding_v1(self.profiles@, t, 0);
                    if i >= self.profiles@.len() {
                        out matches Err(e) && e@ == "unknown vehicle "@ + debug_text(t)
                            + " for thermal family profile "@ + self.id@ + "@"@ + self.version@
                    } else {
                        out matches Ok((r, idx)) && idx == i && resolution_evidence_v1(*self, i, t, r)
                    }
                },
            },
    {
        let checked = self.validate();
        if let Err(message) = checked {
            return Err(message);
        }
        let vehicle = trim_text(vehicle_id);
        let mut k: usize = 0;
        while k < self.profiles.len()
            invariant
                0 <= k <= self.profiles.len(),
                validate_v1(*self) is Ok,
                vehicle@ == trimmed(vehicle_id@),
                first_family_binding_v1(self.profiles@, vehicle@, 0) == first_family_binding_v1(self.profiles@, vehicle@, k as int),
            decreases self.profiles.len() - k,
        {
            if holds_text(&self.profiles[k].1.bindings.vehicle_ids, &vehicle) {
                let entry = &self.profiles[k].1;
                let evidence = V3ThermalFamilyResolutionV1 {
                    schema_version: String::from_str("pitgun.racing-v3-thermal-family-resolution/v1"),
                    candidate: ArtifactIdentity {
                        id: self.id.clone(),
                        version: self.version.clone(),
                        digest: String::from_str("sha256:8aefd230da307e3439eef115fbfcd1117c8a8bbb1128c2c4b00138d6026f2f57"),
                    },
                    model: copy_identity(&self.model),
                    family: self.profiles[k].0.clone(),
                    vehicle_id: vehicle,
                    parameter_set_id: entry.parameter_set_id.clone(),
                    validated_profile_ref: entry.validated_profile_ref.clone(),
                };
                return Ok((evidence, k));
            }
            k = k + 1;
        }
        let mut message = String::from_str("unknown vehicle ");
        let quoted = debug_quote(vehicle.as_str());
        message.append(quoted.as_str());
        message.append(" for thermal family profile ");
        message.append(self.id.as_str());
        message.append("@");
        message.append(self.version.as_str());
        Err(message)
    }
}

/// Selection semantics introduced with component composition (V2): the key
/// is the installed power unit.
#[derive(Debug, PartialEq, Eq)]
pub struct V3PowerUnitThermalResolutionContractV2 {
    pub resolver_owner: String,
    pub solver_input: String,
    pub selection_key: String,
    pub unknown_power_unit_behavior: String,
    pub era_only_selection_forbidden: bool,
}

/// The power units one V2 family is bound to.
#[derive(Debug, PartialEq, Eq)]
pub struct V3PowerUnitThermalBindingsV2 {
    pub power_unit_ids: Vec<String>,
}

/// One V2 family entry.
#[derive(Debug, PartialEq, Eq)]
pub struct V3PowerUnitThermalEntryV2 {
    pub parameter_set_id: String,
    pub validated_profile_ref: String,
    pub bindings: V3PowerUnitThermalBindingsV2,
    /// Outcome of validating the family's numeric thermal coefficients.
    pub engine_thermal_resolution_check: Result<(), String>,
}

/// The reviewed V2 candidate, its families in map order (ascending name).
#[derive(Debug, PartialEq, Eq)]
pub struct V3PowerUnitThermalProfileCandidateV2 {
    pub schema_version: String,
    pub id: String,
    pub version: String,
    pub status: String,
    pub model: ArtifactIdentity,
    pub resolution_contract: V3PowerUnitThermalResolutionContractV2,
    /// Entries by family name, in ascending name order (`names_ascending`).
    pub profiles: Vec<(String, V3PowerUnitThermalEntryV2)>,
    pub promotion: V3ThermalPromotionBoundaryV1,
}

/// The exact power-unit thermal resource selected for one competitor.
#[derive(Debug, PartialEq, Eq)]
pub struct V3PowerUnitThermalResolutionV2 {
    pub schema_version: String,
    pub candidate: ArtifactIdentity,
    pub model: ArtifactIdentity,
    pub family: String,
    pub power_unit_id: String,
    pub parameter_set_id: String,
    pub validated_profile_ref: String,
}

pub open spec fn power_unit_profile_digest() -> Seq<char> {
    "sha256:47c54c5fb79327d1937c84decab79bfbd9cd72b933f15710515670dc61315c84"@
}

/// Power units each V2 family must be bound to.
pub open spec fn expected_power_unit_ids(family: Seq<char>) -> Seq<Seq<char>> {
    if family == "historical_v8"@ {
        seq!["v8_1960"@, "v8_1970"@]
    } else if family == "modern_v6t"@ {
        seq!["v6t"@]
    } else {
        seq!["v6t_hybrid"@]
    }
}

/// Checks the first `k` V2 families in order; yields the power units bound
/// so far or the first error.
pub open spec fn family_entries_v2(profiles: Seq<(String, V3PowerUnitThermalEntryV2)>, k: int) -> Result<Seq<Seq<char>>, Seq<char>>
    decreases k,
{
    if k <= 0 {
        Ok(Seq::empty())
    } else {
        match family_entries_v2(profiles, k - 1) {
            Err(e) => Err(e),
            Ok(bound) => {
                let family = profiles[k - 1].0@;
                let entry = profiles[k - 1].1;
                match entry.engine_thermal_resolution_check {
                    Err(m) => Err(m@),
                    Ok(_) => if texts(entry.bindings.power_unit_ids@) != expected_power_unit_ids(family) {
                        Err("unexpected power-unit thermal bindings for family "@ + debug_text(family))
                    } else {
                        register_bindings(
                            bound,
                            texts(entry.bindings.power_unit_ids@),
                            "power unit "@,
                            " has multiple thermal profiles"@,
                        )
                    },
                }
            },
        }
    }
}

/// Outcome of validating a V2 candidate against the expected model.
pub open spec fn validate_v2(c: V3PowerUnitThermalProfileCandidateV2, expected_model: ArtifactIdentity) -> Result<(), Seq<char>> {
    let contract = c.resolution_contract;
    if !(c.schema_version@ == "pitgun.racing-v3-thermal-family-profile-candidate/v2"@ && c.id@
        == family_profile_id() && c.version@ == "2.0.0-rc.1"@ && c.status@
        == "REVIEWED_CANDIDATE"@) {
        Err("unsupported power-unit thermal profile identity"@)
    } else if !same_identity(c.model, expected_model) {
        Err("power-unit thermal profile targets an unsupported model"@)
    } else if !(contract.resolver_owner@ == "pitgun-racing-simulator"@ && contract.solver_input@
        == "one resolved engine_thermal_resolution per competitor execution"@
        && contract.selection_key@ == "installed_power_unit_id"@
        && contract.unknown_power_unit_behavior@ == "reject"@
        && contract.era_only_selection_forbidden) {
        Err("unsupported power-unit thermal resolution contract"@)
    } else if !covers_reviewed_families(family_names(c.profiles@)) {
        Err("power-unit thermal profile coverage is incomplete"@)
    } else {
        validate_v2_entries_onward(c)
    }
}

/// The checks of a V2 candidate from its family entries onward.
pub open spec fn validate_v2_entries_onward(c: V3PowerUnitThermalProfileCandidateV2) -> Result<(), Seq<char>> {
    if family_entries_v2(c.profiles@, c.profiles@.len() as int) is Err {
        Err(family_entries_v2(c.profiles@, c.profiles@.len() as int)->Err_0)
    } else if !promotion_within_review(c.promotion) {
        Err("power-unit thermal candidate exceeds its reviewed promotion boundary"@)
    } else {
        Ok(())
    }
}

proof fn lemma_entries_v2_error_sticks(profiles: Seq<(String, V3PowerUnitThermalEntryV2)>, k: int, n: int)
    requires
        k <= n,
        family_entries_v2(profiles, k) is Err,
    ensures
        family_entries_v2(profiles, n) == family_entries_v2(profiles, k),
    decreases n - k,
{
    if k < n {
        lemma_entries_v2_error_sticks(profiles, k, n - 1);
    }
}

/// Index of the first family at or after `k` bound to `unit`, or the number
/// of families.
pub open spec fn first_family_binding_v2(profiles: Seq<(String, V3PowerUnitThermalEntryV2)>, unit: Seq<char>, k: int) -> int
    decreases profiles.len() - k,
{
    if k < 0 || k >= profiles.len() {
        profiles.len() as int
    } else if texts(profiles[k].1.bindings.power_unit_ids@).contains(unit) {
        k
    } else {
        first_family_binding_v2(profiles, unit, k + 1)
    }
}

/// The evidence a V2 resolution records for family `i` and the power unit.
pub open spec fn resolution_evidence_v2(
    c: V3PowerUnitThermalProfileCandidateV2,
    i: int,
    unit: Seq<char>,
    r: V3PowerUnitThermalResolutionV2,
) -> bool {
    &&& r.schema_version@ == "pitgun.racing-v3-thermal-family-resolution/v2"@
    &&& r.candidate.id@ == c.id@
    &&& r.candidate.version@ == c.version@
    &&& r.candidate.digest@ == power_unit_profile_digest()
    &&& r.model == c.model
    &&& r.family == c.profiles@[i].0
    &&& r.power_unit_id@ == unit
    &&& r.parameter_set_id == c.profiles@[i].1.parameter_set_id
    &&& r.validated_profile_ref == c.profiles@[i].1.validated_profile_ref
}

impl V3PowerUnitThermalProfileCandidateV2 {
    /// Checks the candidate against the reviewed document: identity, target
    /// model, resolution contract, family coverage, exact bindings (each
    /// power unit in one family) and the promotion boundary, in that order.
    /// The target model is the component candidate, whose identity the
    /// caller supplies: this library does not hold it.
    pub fn validate(&self, expected_model: &ArtifactIdentity) -> (out: Result<(), String>)
        requires
            names_ascending(family_names(self.profiles@)),
        ensures
            unit_matches(out, validate_v2(*self, *expected_model)),
    {
        if !(same_text(self.schema_version.as_str(), "pitgun.racing-v3-thermal-family-profile-candidate/v2")
            && same_text(self.id.as_str(), "pitgun.racing-v3-thermal-family-profile")
            && same_text(self.version.as_str(), "2.0.0-rc.1")
            && same_text(self.status.as_str(), "REVIEWED_CANDIDATE")) {
            return Err(String::from_str("unsupported power-unit thermal profile identity"));
        }
        if !identity_eq(&self.model, expected_model) {
            return Err(String::from_str("power-unit thermal profile targets an unsupported model"));
        }
        let contract = &self.resolution_contract;
        if !(same_text(contract.resolver_owner.as_str(), "pitgun-racing-simulator")
            && same_text(contract.solver_input.as_str(), "one resolved engine_thermal_resolution per competitor execution")
            && same_text(contract.selection_key.as_str(), "installed_power_unit_id")
            && same_text(contract.unknown_power_unit_behavior.as_str(), "reject")
            && contract.era_only_selection_forbidden) {
            return Err(String::from_str("unsupported power-unit thermal resolution contract"));
        }
        if !check_family_coverage(&self.profiles) {
            return Err(String::from_str("power-unit thermal profile coverage is incomplete"));
        }
        let mut bound: Vec<String> = Vec::new();
        assert(texts(bound@) =~= Seq::<Seq<char>>::empty());
        let mut k: usize = 0;
        while k < self.profiles.len()
            invariant
                0 <= k <= self.profiles.len(),
                validate_v2(*self, *expected_model) == validate_v2_entries_onward(*self),
                family_entries_v2(self.profiles@, k as int) == Ok::<Seq<Seq<char>>, Seq<char>>(texts(bound@)),
            decreases self.profiles.len() - k,
        {
            let family = &self.profiles[k].0;
            let entry = &self.profiles[k].1;
            if let Err(message) = &entry.engine_thermal_resolution_check {
                proof {
                    lemma_entries_v2_error_sticks(self.profiles@, k + 1, self.profiles@.len() as int);
                }
                return Err(message.clone());
            }
            let ids: Vec<&str> = if same_text(family.as_str(), "historical_v8") {
                vec!["v8_1960", "v8_1970"]
            } else if same_text(family.as_str(), "modern_v6t") {
                vec!["v6t"]
            } else {
                vec!["v6t_hybrid"]
            };
            proof {
                assert(ids@.map_values(|s: &str| s@) =~= expected_power_unit_ids(family@));
            }
            if !texts_are(&entry.bindings.power_unit_ids, &ids) {
                let mut message = String::from_str("unexpected power-unit thermal bindings for family ");
                let quoted = debug_quote(family.as_str());
                message.append(quoted.as_str());
                proof {
                    lemma_entries_v2_error_sticks(self.profiles@, k + 1, self.profiles@.len() as int);
                }
                return Err(message);
            }
            let registered = register_ids(&mut bound, &entry.bindings.power_unit_ids, "power unit ", " has multiple thermal profiles");
            if let Err(message) = registered {
                proof {
                    lemma_entries_v2_error_sticks(self.profiles@, k + 1, self.profiles@.len() as int);
                }
                return Err(message);
            }
            k = k + 1;
        }
        let p = &self.promotion;
        if !(p.candidate_creation_authorized && p.rust_wasm_integration_authorized
            && !p.catalog_publication_authorized && !p.authority_verifier_promotion_authorized
            && !p.game_staging_promotion_authorized && !p.production_promotion_authorized
            && !p.automatic_promotion) {
            return Err(String::from_str("power-unit thermal candidate exceeds its reviewed promotion boundary"));
        }
        Ok(())
    }

    /// Selects the family bound to an installed power unit (trimmed); the
    /// candidate is validated first and an unbound power unit is rejected.
    /// Returns the evidence and the index of the selected family.
    pub fn resolve_power_unit(&self, expected_model: &ArtifactIdentity, power_unit_id: &str) -> (out: Result<
        (V3PowerUnitThermalResolutionV2, usize),
        String,
    >)
        requires
            names_ascending(family_names(self.profiles@)),
        ensures
            match validate_v2(*self, *expected_model) {
                Err(m) => out matches Err(e) && e@ == m,
                Ok(_) => {
                    let t = trimmed(power_unit_id@);
                    let i = first_family_binding_v2(self.profiles@, t, 0);
                    if i >= self.profiles@.len() {
                        out matches Err(e) && e@ == "unknown power unit "@ + debug_text(t)
                            + " for thermal family profile "@ + self.id@ + "@"@ + self.version@
                    } else {
                        out matches Ok((r, idx)) && idx == i && resolution_evidence_v2(*self, i, t, r)
                    }
                },
            },
    {
        let checked = self.validate(expected_model);
        if let Err(message) = checked {
            return Err(message);
        }
        let unit = trim_text(power_unit_id);
        let mut k: usize = 0;
        while k < self.profiles.len()
            invariant
                0 <= k <= self.profiles.len(),
                validate_v2(*self, *expected_model) is Ok,
                unit@ == trimmed(power_unit_id@),
                first_family_binding_v2(self.profiles@, unit@, 0) == first_family_binding_v2(self.profiles@, unit@, k as int),
            decreases self.profiles.len() - k,
        {
            if holds_text(&self.profiles[k].1.bindings.power_unit_ids, &unit) {
                let entry = &self.profiles[k].1;
                let evidence = V3PowerUnitThermalResolutionV2 {
                    schema_version: String::from_str("pitgun.racing-v3-thermal-family-resolution/v2"),
                    candidate: ArtifactIdentity {
                        id: self.id.clone(),
                        version: self.version.clone(),
                        digest: String::from_str("sha256:47c54c5fb79327d1937c84decab79bfbd9cd72b933f15710515670dc61315c84"),
                    },
                    model: copy_identity(&self.model),
                    family: self.profiles[k].0.clone(),
                    power_unit_id: unit,
                    parameter_set_id: entry.parameter_set_id.clone(),
                    validated_profile_ref: entry.validated_profile_ref.clone(),
                };
                return Ok((evidence, k));
            }
            k = k + 1;
        }
        let mut message = String::from_str("unknown power unit ");
        let quoted = debug_quote(unit.as_str());
        message.append(quoted.as_str());
        message.append(" for thermal family profile ");
        message.append(self.id.as_str());
        message.append("@");
        message.append(self.version.as_str());
        Err(message)
    }
}

proof fn lemma_entries_v1_error_sticks(profiles: Seq<(String, V3ThermalFamilyEntryV1)>, k: int, n: int)
    requires
        k <= n,
        family_entries_v1(profiles, k) is Err,
    ensures
        family_entries_v1(profiles, n) == family_entries_v1(profiles, k),
    decreases n - k,
{
    if k < n {
        lemma_entries_v1_error_sticks(profiles, k, n - 1);
    }
}

proof fn lemma_register_ok(bound: Seq<Seq<char>>, ids: Seq<Seq<char>>, p: Seq<char>, s: Seq<char>)
    requires
        bound.no_duplicates(),
        register_bindings(bound, ids, p, s) is Ok,
    ensures
        register_bindings(bound, ids, p, s) == Ok::<Seq<Seq<char>>, Seq<char>>(bound + ids),
        (bound + ids).no_duplicates(),
    decreases ids.len(),
{
    if ids.len() == 0 {
        assert(bound + ids =~= bound);
    } else {
        let prev = ids.drop_last();
        lemma_register_ok(bound, prev, p, s);
        let b = bound + prev;
        assert(!b.contains(ids.last()));
        assert(b.push(ids.last()) =~= bound + ids);
        assert forall|x: int, y: int| 0 <= x < y < (bound + ids).len() implies (bound + ids)[x] != (bound + ids)[y] by {
            if y == (bound + ids).len() - 1 {
                assert((bound + ids)[x] == b[x]);
            } else {
                assert((bound + ids)[x] == b[x] && (bound + ids)[y] == b[y]);
            }
        }
    }
}

/// The vehicles of the first `k` V1 families, in order.
pub open spec fn bound_vehicles_v1(profiles: Seq<(String, V3ThermalFamilyEntryV1)>, k: int) -> Seq<Seq<char>>
    decreases k,
{
    if k <= 0 {
        Seq::empty()
    } else {
        bound_vehicles_v1(profiles, k - 1) + texts(profiles[k - 1].1.bindings.vehicle_ids@)
    }
}

proof fn lemma_entries_v1_ok(profiles: Seq<(String, V3ThermalFamilyEntryV1)>, k: int)
    requires
        0 <= k,
        family_entries_v1(profiles, k) is Ok,
    ensures
        family_entries_v1(profiles, k) == Ok::<Seq<Seq<char>>, Seq<char>>(bound_vehicles_v1(profiles, k)),
        bound_vehicles_v1(profiles, k).no_duplicates(),
    decreases k,
{
    if k > 0 {
        lemma_entries_v1_ok(profiles, k - 1);
        lemma_register_ok(bound_vehicles_v1(profiles, k - 1), texts(profiles[k - 1].1.bindings.vehicle_ids@), "vehicle "@, " has multiple thermal profiles"@);
    }
}

proof fn lemma_entries_v1_prefix_ok(profiles: Seq<(String, V3ThermalFamilyEntryV1)>, k: int, n: int)
    requires
        0 <= k <= n,
        family_entries_v1(profiles, n) is Ok,
    ensures
        family_entries_v1(profiles, k) is Ok,
    decreases n - k,
{
    if k < n {
        lemma_entries_v1_prefix_ok(profiles, k + 1, n);
    }
}

proof fn lemma_bound_v1_contains(profiles: Seq<(String, V3ThermalFamilyEntryV1)>, i: int, j: int, v: Seq<char>)
    requires
        0 <= i < j,
        texts(profiles[i].1.bindings.vehicle_ids@).contains(v),
    ensures
        bound_vehicles_v1(profiles, j).contains(v),
    decreases j,
{
    let b = bound_vehicles_v1(profiles, j);
    let prev = bound_vehicles_v1(profiles, j - 1);
    let seg = texts(profiles[j - 1].1.bindings.vehicle_ids@);
    if i == j - 1 {
        let a = choose|a: int| 0 <= a < seg.len() && seg[a] == v;
        assert(b[prev.len() + a] == v);
    } else {
        lemma_bound_v1_contains(profiles, i, j - 1, v);
        let a = choose|a: int| 0 <= a < prev.len() && prev[a] == v;
        assert(b[a] == v);
    }
}

/// In a valid V1 candidate every vehicle is bound to at most one family, so
/// resolution by vehicle is unambiguous.
pub proof fn lemma_v1_vehicle_bound_once(
    c: V3ThermalFamilyProfileCandidateV1,
    i: int,
    j: int,
    v: Seq<char>,
)
    requires
        validate_v1(c) is Ok,
        0 <= i < c.profiles@.len(),
        0 <= j < c.profiles@.len(),
        texts(c.profiles@[i].1.bindings.vehicle_ids@).contains(v),
        texts(c.profiles@[j].1.bindings.vehicle_ids@).contains(v),
    ensures
        i == j,
{
    let p = c.profiles@;
    if i != j {
        let (lo, hi) = if i < j {
            (i, j)
        } else {
            (j, i)
        };
        lemma_entries_v1_prefix_ok(p, hi + 1, p.len() as int);
        lemma_entries_v1_ok(p, hi + 1);
        lemma_bound_v1_contains(p, lo, hi, v);
        let prev = bound_vehicles_v1(p, hi);
        let seg = texts(p[hi].1.bindings.vehicle_ids@);
        let all = bound_vehicles_v1(p, hi + 1);
        let a = choose|a: int| 0 <= a < prev.len() && prev[a] == v;
        let b = choose|b: int| 0 <= b < seg.len() && seg[b] == v;
        assert(all[a] == v);
        assert(all[prev.len() + b] == v);
    }
}

/// A vehicle resolved by a valid V1 candidate is one of the selected
/// family's bindings, and no other family binds it.
pub proof fn lemma_v1_resolution_is_the_binding(
    c: V3ThermalFamilyProfileCandidateV1,
    v: Seq<char>,
    j: int,
)
    requires
        validate_v1(c) is Ok,
        first_family_binding_v1(c.profiles@, v, 0) < c.profiles@.len(),
        0 <= j < c.profiles@.len(),
        texts(c.profiles@[j].1.bindings.vehicle_ids@).contains(v),
    ensures
        first_family_binding_v1(c.profiles@, v, 0) == j,
{
    lemma_first_binding_v1(c.profiles@, v, 0);
    lemma_v1_vehicle_bound_once(c, first_family_binding_v1(c.profiles@, v, 0), j, v);
}

proof fn lemma_first_binding_v1(profiles: Seq<(String, V3ThermalFamilyEntryV1)>, v: Seq<char>, k: int)
    requires
        0 <= k,
        first_family_binding_v1(profiles, v, k) < profiles.len(),
    ensures
        k <= first_family_binding_v1(profiles, v, k),
        texts(profiles[first_family_binding_v1(profiles, v, k)].1.bindings.vehicle_ids@).contains(v),
    decreases profiles.len() - k,
{
    if k < profiles.len() && !texts(profiles[k].1.bindings.vehicle_ids@).contains(v) {
        lemma_first_binding_v1(profiles, v, k + 1);
    }
}

/// The power units of the first `k` V2 families, in order.
pub open spec fn bound_units_v2(profiles: Seq<(String, V3PowerUnitThermalEntryV2)>, k: int) -> Seq<Seq<char>>
    decreases k,
{
    if k <= 0 {
        Seq::empty()
    } else {
        bound_units_v2(profiles, k - 1) + texts(profiles[k - 1].1.bindings.power_unit_ids@)
    }
}

proof fn lemma_entries_v2_ok(profiles: Seq<(String, V3PowerUnitThermalEntryV2)>, k: int)
    requires
        0 <= k,
        family_entries_v2(profiles, k) is Ok,
    ensures
        family_entries_v2(profiles, k) == Ok::<Seq<Seq<char>>, Seq<char>>(bound_units_v2(profiles, k)),
        bound_units_v2(profiles, k).no_duplicates(),
    decreases k,
{
    if k > 0 {
        lemma_entries_v2_ok(profiles, k - 1);
        lemma_register_ok(bound_units_v2(profiles, k - 1), texts(profiles[k - 1].1.bindings.power_unit_ids@), "power unit "@, " has multiple thermal profiles"@);
    }
}

proof fn lemma_entries_v2_prefix_ok(profiles: Seq<(String, V3PowerUnitThermalEntryV2)>, k: int, n: int)
    requires
        0 <= k <= n,
        family_entries_v2(profiles, n) is Ok,
    ensures
        family_entries_v2(profiles, k) is Ok,
    decreases n - k,
{
    if k < n {
        lemma_entries_v2_prefix_ok(profiles, k + 1, n);
    }
}

proof fn lemma_bound_v2_contains(profiles: Seq<(String, V3PowerUnitThermalEntryV2)>, i: int, j: int, v: Seq<char>)
    requires
        0 <= i < j,
        texts(profiles[i].1.bindings.power_unit_ids@).contains(v),
    ensures
        bound_units_v2(profiles, j).contains(v),
    decreases j,
{
    let b = bound_units_v2(profiles, j);
    let prev = bound_units_v2(profiles, j - 1);
    let seg = texts(profiles[j - 1].1.bindings.power_unit_ids@);
    if i == j - 1 {
        let a = choose|a: int| 0 <= a < seg.len() && seg[a] == v;
        assert(b[prev.len() + a] == v);
    } else {
        lemma_bound_v2_contains(profiles, i, j - 1, v);
        let a = choose|a: int| 0 <= a < prev.len() && prev[a] == v;
        assert(b[a] == v);
    }
}

/// In a valid V2 candidate every power unit is bound to at most one family,
/// so resolution by installed power unit is unambiguous.
pub proof fn lemma_v2_power_unit_bound_once(
    c: V3PowerUnitThermalProfileCandidateV2,
    expected_model: ArtifactIdentity,
    i: int,
    j: int,
    v: Seq<char>,
)
    requires
        validate_v2(c, expected_model) is Ok,
        0 <= i < c.profiles@.len(),
        0 <= j < c.profiles@.len(),
        texts(c.profiles@[i].1.bindings.power_unit_ids@).contains(v),
        texts(c.profiles@[j].1.bindings.power_unit_ids@).contains(v),
    ensures
        i == j,
{
    let p = c.profiles@;
    if i != j {
        let (lo, hi) = if i < j {
            (i, j)
        } else {
            (j, i)
        };
        lemma_entries_v2_prefix_ok(p, hi + 1, p.len() as int);
        lemma_entries_v2_ok(p, hi + 1);
        lemma_bound_v2_contains(p, lo, hi, v);
        let prev = bound_units_v2(p, hi);
        let seg = texts(p[hi].1.bindings.power_unit_ids@);
        let all = bound_units_v2(p, hi + 1);
        let a = choose|a: int| 0 <= a < prev.len() && prev[a] == v;
        let b = choose|b: int| 0 <= b < seg.len() && seg[b] == v;
        assert(all[a] == v);
        assert(all[prev.len() + b] == v);
    }
}

} // verus!
