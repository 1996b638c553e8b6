//! Release-level rules of a Racing Catalog: the browser bundle shapes, which
//! resource paths the simulation accepts, the singleton profile resources a
//! release may select, the component inventory of a release and the exact
//! coverage between the Simulation Pack index and the supplied files.
//!
//! Parsing documents, validating paths and hashing bytes belong to the
//! contract crate and stay with the caller; the outcomes enter here as plain
//! values.

use vstd::prelude::*;
use vstd::string::*;

use crate::text::{
    chars_of, ends_with_text, find_char, first_index_of, has_prefix, has_suffix, same_text,
    lemma_text_less_irreflexive, lemma_text_less_total,
    lemma_text_less_transitive, starts_with_text, string_from_chars,
    text_less, text_lt, trim_end_all, trim_end_matches_at,
};

verus! {

/// One exact release-relative file supplied by a browser or another adapter.
#[derive(Debug, PartialEq, Eq)]
pub struct RacingCatalogFileV1 {
    /// Immutable path declared by the Simulation Pack index.
    pub path: String,
    /// Exact UTF-8 JSON file contents.
    pub contents: String,
}

/// Transport-neutral bundle accepted by the browser compatibility facade.
#[derive(Debug, PartialEq, Eq)]
pub struct RacingCatalogBundleV1 {
    pub manifest: String,
    pub release_identity: String,
    pub simulation_index: String,
    pub presentation_index: String,
    pub resources: Vec<RacingCatalogFileV1>,
}

/// Failure produced before a Racing Catalog may enter simulation (the
/// variants whose cause is decided here; digests appear as text).
#[derive(Debug, PartialEq, Eq)]
pub enum RacingCatalogResolutionError {
    InvalidDocument { document: String, reason: String },
    InvalidManifest(String),
    InvalidIndex { pack: String, reason: String },
    IndexDigestMismatch { pack: String, expected: String, actual: String },
    InvalidResourcePath { path: String, reason: String },
    DuplicateResource(String),
    MissingResource(String),
    UnexpectedResource(String),
    ResourceDigestMismatch { path: String, expected: String, actual: String },
    UnsupportedResourceMediaType { path: String, media_type: String },
    InvalidResource { path: String, reason: String },
    InvalidResolvedResources(String),
}

/// Category of a simulation resource, named by its directory.
#[derive(Clone, Copy, Debug, PartialEq, Eq, Structural)]
pub enum ResourceCategory {
    Aero,
    Chassis,
    Engines,
    Tires,
    Vehicles,
    Drivers,
    Circuits,
    Policies,
    ModelParameters,
    ThermalProfiles,
    ComponentCapabilities,
    DriverInstructions,
    DriverControl,
    DriversV2,
    FuelContract,
}

/// The category a directory name selects.
pub open spec fn category_of(name: Seq<char>) -> Option<ResourceCategory> {
    if name == "aero"@ {
        Some(ResourceCategory::Aero)
    } else if name == "chassis"@ {
        Some(ResourceCategory::Chassis)
    } else if name == "engines"@ {
        Some(ResourceCategory::Engines)
    } else if name == "tires"@ {
        Some(ResourceCategory::Tires)
    } else if name == "vehicles"@ {
        Some(ResourceCategory::Vehicles)
    } else if name == "drivers"@ {
        Some(ResourceCategory::Drivers)
    } else if name == "circuits"@ {
        Some(ResourceCategory::Circuits)
    } else if name == "policies"@ {
        Some(ResourceCategory::Policies)
    } else if name == "model-parameters"@ {
        Some(ResourceCategory::ModelParameters)
    } else if name == "thermal-profiles"@ {
        Some(ResourceCategory::ThermalProfiles)
    } else if name == "component-capabilities"@ {
        Some(ResourceCategory::ComponentCapabilities)
    } else if name == "driver-instructions"@ {
        Some(ResourceCategory::DriverInstructions)
    } else if name == "driver-control"@ {
        Some(ResourceCategory::DriverControl)
    } else if name == "drivers-v2"@ {
        Some(ResourceCategory::DriversV2)
    } else if name == "fuel-contract"@ {
        Some(ResourceCategory::FuelContract)
    } else {
        None
    }
}

/// How a simulation-relative path (`category/stem.json`) is read: its
/// category and stem, or the error text.
pub open spec fn classify_path(path: Seq<char>) -> Result<(ResourceCategory, Seq<char>), Seq<char>> {
    let slash = first_index_of(path, '/');
    if slash >= path.len() {
        Err("invalid embedded path '"@ + path + "'"@)
    } else {
        let category = path.subrange(0, slash);
        let file = path.subrange(slash + 1, path.len() as int);
        if first_index_of(file, '/') < file.len() || !has_suffix(file, ".json"@) {
            Err("invalid Racing simulation resource path '"@ + path + "'"@)
        } else {
            match category_of(category) {
                None => Err("unsupported Racing simulation resource category '"@ + category + "'"@),
                Some(c) => Ok((c, trim_end_all(file, ".json"@))),
            }
        }
    }
}

fn category_named(name: &str) -> (out: Option<ResourceCategory>)
    ensures
        out == category_of(name@),
{
    if same_text(name, "aero") {
        Some(ResourceCategory::Aero)
    } else if same_text(name, "chassis") {
        Some(ResourceCategory::Chassis)
    } else if same_text(name, "engines") {
        Some(ResourceCategory::Engines)
    } else if same_text(name, "tires") {
        Some(ResourceCategory::Tires)
    } else if same_text(name, "vehicles") {
        Some(ResourceCategory::Vehicles)
    } else if same_text(name, "drivers") {
        Some(ResourceCategory::Drivers)
    } else if same_text(name, "circuits") {
        Some(ResourceCategory::Circuits)
    } else if same_text(name, "policies") {
        Some(ResourceCategory::Policies)
    } else if same_text(name, "model-parameters") {
        Some(ResourceCategory::ModelParameters)
    } else if same_text(name, "thermal-profiles") {
        Some(ResourceCategory::ThermalProfiles)
    } else if same_text(name, "component-capabilities") {
        Some(ResourceCategory::ComponentCapabilities)
    } else if same_text(name, "driver-instructions") {
        Some(ResourceCategory::DriverInstructions)
    } else if same_text(name, "driver-control") {
        Some(ResourceCategory::DriverControl)
    } else if same_text(name, "drivers-v2") {
        Some(ResourceCategory::DriversV2)
    } else if same_text(name, "fuel-contract") {
        Some(ResourceCategory::FuelContract)
    } else {
        None
    }
}

/// Reads a simulation-relative resource path as `category/stem.json`: one
/// slash, a `.json` file name, and a known category.
pub fn classify_resource_path(path: &str) -> (out: Result<(ResourceCategory, String), String>)
    ensures
        match (out, classify_path(path@)) {
            (Ok((c, stem)), Ok((d, t))) => c == d && stem@ == t,
            (Err(e), Err(m)) => e@ == m,
            _ => false,
        },
{
    let chars = chars_of(path);
    let n = chars.len();
    let slash = find_char(&chars, '/');
    if slash >= n {
        let mut message = String::from_str("invalid embedded path '");
        message.append(path);
        message.append("'");
        return Err(message);
    }
    let file = string_from_chars(&chars, slash + 1, n);
    let file_chars = chars_of(file.as_str());
    let inner_slash = find_char(&file_chars, '/');
    if inner_slash < file_chars.len() || !ends_with_text(&chars, slash + 1, n, ".json") {
        let mut message = String::from_str("invalid Racing simulation resource path '");
        message.append(path);
        message.append("'");
        return Err(message);
    }
    let category = string_from_chars(&chars, 0, slash);
    match category_named(category.as_str()) {
        None => {
            let mut message = String::from_str("unsupported Racing simulation resource category '");
            message.append(category.as_str());
            message.append("'");
            Err(message)
        },
        Some(c) => {
            let end = trim_end_matches_at(&chars, slash + 1, n, ".json");
            Ok((c, string_from_chars(&chars, slash + 1, end)))
        },
    }
}

/// One entry of the Simulation Pack index, its digest as text.
#[derive(Debug, PartialEq, Eq)]
pub struct IndexedResource {
    pub id: String,
    pub path: String,
    pub media_type: String,
    pub digest: String,
}

/// The indices of the resources selected by an id or a path, in index order.
pub open spec fn selected_indices(rs: Seq<IndexedResource>, id: Seq<char>, path: Seq<char>, k: int) -> Seq<int>
    decreases k,
{
    if k <= 0 {
        Seq::empty()
    } else {
        let prev = selected_indices(rs, id, path, k - 1);
        if rs[k - 1].id@ == id || rs[k - 1].path@ == path {
            prev.push(k - 1)
        } else {
            prev
        }
    }
}

/// How many resources select a profile: none, exactly one, or several.
pub enum SingletonMatch {
    Absent,
    Unique(usize),
    Several,
}

/// Finds the resources selected by a profile's id or path.
pub fn match_singleton(rs: &Vec<IndexedResource>, id: &str, path: &str) -> (out: SingletonMatch)
    ensures
        ({
            let sel = selected_indices(rs@, id@, path@, rs@.len() as int);
            match out {
                SingletonMatch::Absent => sel.len() == 0,
                SingletonMatch::Unique(i) => sel.len() == 1 && sel[0] == i && i < rs@.len(),
                SingletonMatch::Several => sel.len() >= 2,
            }
        }),
{
    let mut found: Option<usize> = None;
    let mut k: usize = 0;
    while k < rs.len()
        invariant
            0 <= k <= rs.len(),
            ({
                let sel = selected_indices(rs@, id@, path@, k as int);
                match found {
                    None => sel.len() == 0,
                    Some(i) => sel.len() == 1 && sel[0] == i && i < k,
                }
            }),
        decreases rs.len() - k,
    {
        if same_text(rs[k].id.as_str(), id) || same_text(rs[k].path.as_str(), path) {
            if found.is_some() {
                proof {
                    lemma_selected_grows(rs@, id@, path@, k + 1, rs@.len() as int);
                }
                return SingletonMatch::Several;
            }
            found = Some(k);
        }
        k = k + 1;
    }
    match found {
        None => SingletonMatch::Absent,
        Some(i) => SingletonMatch::Unique(i),
    }
}

proof fn lemma_selected_grows(rs: Seq<IndexedResource>, id: Seq<char>, path: Seq<char>, k: int, n: int)
    requires
        0 <= k <= n,
    ensures
        selected_indices(rs, id, path, k).len() <= selected_indices(rs, id, path, n).len(),
    decreases n - k,
{
    if k < n {
        lemma_selected_grows(rs, id, path, k, n - 1);
    }
}

/// What selecting a singleton profile resource yields: the index of the one
/// resource, no resource, or the error text. `supported` is `Some(b)` when
/// the release's compatibility decides whether the profile is required and
/// allowed, `None` when it is optional whatever the model.
pub open spec fn singleton_outcome(
    rs: Seq<IndexedResource>,
    id: Seq<char>,
    path: Seq<char>,
    supported: Option<bool>,
    missing: Seq<char>,
    several: Seq<char>,
    unsupported: Seq<char>,
    must_use: Seq<char>,
) -> Result<Option<int>, Seq<char>> {
    let sel = selected_indices(rs, id, path, rs.len() as int);
    if sel.len() == 0 {
        if supported == Some(true) {
            Err(missing)
        } else {
            Ok(None)
        }
    } else if sel.len() >= 2 {
        Err(several)
    } else if supported == Some(false) {
        Err(unsupported)
    } else if rs[sel[0]].id@ != id || rs[sel[0]].path@ != path {
        Err(must_use)
    } else {
        Ok(Some(sel[0]))
    }
}

/// `out` carries a singleton outcome; errors are unresolved resources.
pub open spec fn singleton_matches(out: Result<Option<usize>, RacingCatalogResolutionError>, expected: Result<Option<int>, Seq<char>>) -> bool {
    match expected {
        Ok(None) => out == Ok::<Option<usize>, RacingCatalogResolutionError>(None),
        Ok(Some(i)) => out matches Ok(Some(j)) && j == i,
        Err(m) => out matches Err(RacingCatalogResolutionError::InvalidResolvedResources(e)) && e@ == m,
    }
}

fn resolve_singleton(
    rs: &Vec<IndexedResource>,
    id: &str,
    path: &str,
    supported: Option<bool>,
    missing: &str,
    several: &str,
    unsupported: &str,
    must_use: &str,
) -> (out: Result<Option<usize>, RacingCatalogResolutionError>)
    ensures
        singleton_matches(out, singleton_outcome(rs@, id@, path@, supported, missing@, several@, unsupported@, must_use@)),
{
    match match_singleton(rs, id, path) {
        SingletonMatch::Absent => {
            if supported == Some(true) {
                Err(RacingCatalogResolutionError::InvalidResolvedResources(String::from_str(missing)))
            } else {
                Ok(None)
            }
        },
        SingletonMatch::Several => Err(
            RacingCatalogResolutionError::InvalidResolvedResources(String::from_str(several)),
        ),
        SingletonMatch::Unique(i) => {
            if supported == Some(false) {
                return Err(
                    RacingCatalogResolutionError::InvalidResolvedResources(String::from_str(unsupported)),
                );
            }
            if !same_text(rs[i].id.as_str(), id) || !same_text(rs[i].path.as_str(), path) {
                return Err(
                    RacingCatalogResolutionError::InvalidResolvedResources(String::from_str(must_use)),
                );
            }
            Ok(Some(i))
        },
    }
}

/// Selects the thermal-family profile resource: required and allowed exactly
/// when the release supports the Model V3 thermal candidate.
pub fn resolve_thermal_family_profile_resource(rs: &Vec<IndexedResource>, supports_v3_thermal: bool) -> (out: Result<
    Option<usize>,
    RacingCatalogResolutionError,
>)
    ensures
        singleton_matches(out, singleton_outcome(
            rs@,
            "pitgun.racing.thermal-profiles.family-v1"@,
            "simulation/thermal-profiles/family-v1.json"@,
            Some(supports_v3_thermal),
            "Model V3 thermal catalog is missing its thermal-family profile"@,
            "Racing catalog must select exactly one thermal-family profile"@,
            "thermal-family profile requires the exact Model V3 thermal compatibility"@,
            "thermal-family profile must use resource ID pitgun.racing.thermal-profiles.family-v1 and path simulation/thermal-profiles/family-v1.json"@,
        )),
{
    resolve_singleton(
        rs,
        "pitgun.racing.thermal-profiles.family-v1",
        "simulation/thermal-profiles/family-v1.json",
        Some(supports_v3_thermal),
        "Model V3 thermal catalog is missing its thermal-family profile",
        "Racing catalog must select exactly one thermal-family profile",
        "thermal-family profile requires the exact Model V3 thermal compatibility",
        "thermal-family profile must use resource ID pitgun.racing.thermal-profiles.family-v1 and path simulation/thermal-profiles/family-v1.json",
    )
}

/// Selects the power-unit thermal profile resource: required and allowed
/// exactly when the release supports the component-composed model.
pub fn resolve_power_unit_thermal_profile_resource(rs: &Vec<IndexedResource>, supports_component_model: bool) -> (out: Result<
    Option<usize>,
    RacingCatalogResolutionError,
>)
    ensures
        singleton_matches(out, singleton_outcome(
            rs@,
            "pitgun.racing.thermal-profiles.family-v2"@,
            "simulation/thermal-profiles/family-v2.json"@,
            Some(supports_component_model),
            "component-composed Model V3 catalog is missing its power-unit thermal profile"@,
            "Racing catalog must select exactly one power-unit thermal profile"@,
            "power-unit thermal profile requires exact component-composed Model V3 compatibility"@,
            "power-unit thermal profile must use resource ID pitgun.racing.thermal-profiles.family-v2 and path simulation/thermal-profiles/family-v2.json"@,
        )),
{
    resolve_singleton(
        rs,
        "pitgun.racing.thermal-profiles.family-v2",
        "simulation/thermal-profiles/family-v2.json",
        Some(supports_component_model),
        "component-composed Model V3 catalog is missing its power-unit thermal profile",
        "Racing catalog must select exactly one power-unit thermal profile",
        "power-unit thermal profile requires exact component-composed Model V3 compatibility",
        "power-unit thermal profile must use resource ID pitgun.racing.thermal-profiles.family-v2 and path simulation/thermal-profiles/family-v2.json",
    )
}

/// Selects the component-capability profile resource: required and allowed
/// exactly when the release supports the component-composed model.
pub fn resolve_component_capability_profile_resource(rs: &Vec<IndexedResource>, supports_component_model: bool) -> (out: Result<
    Option<usize>,
    RacingCatalogResolutionError,
>)
    ensures
        singleton_matches(out, singleton_outcome(
            rs@,
            "pitgun.racing.component-capabilities.v1"@,
            "simulation/component-capabilities/v1.json"@,
            Some(supports_component_model),
            "component-composed Model V3 catalog is missing its capability profile"@,
            "Racing catalog must select exactly one component-capability profile"@,
            "component-capability profile requires exact component-composed Model V3 compatibility"@,
            "component-capability profile must use resource ID pitgun.racing.component-capabilities.v1 and path simulation/component-capabilities/v1.json"@,
        )),
{
    resolve_singleton(
        rs,
        "pitgun.racing.component-capabilities.v1",
        "simulation/component-capabilities/v1.json",
        Some(supports_component_model),
        "component-composed Model V3 catalog is missing its capability profile",
        "Racing catalog must select exactly one component-capability profile",
        "component-capability profile requires exact component-composed Model V3 compatibility",
        "component-capability profile must use resource ID pitgun.racing.component-capabilities.v1 and path simulation/component-capabilities/v1.json",
    )
}

/// Selects the optional driver-instruction profile resource.
pub fn resolve_driver_instruction_profile_resource(rs: &Vec<IndexedResource>) -> (out: Result<
    Option<usize>,
    RacingCatalogResolutionError,
>)
    ensures
        singleton_matches(out, singleton_outcome(
            rs@,
            "pitgun.racing.driver-instructions"@,
            "simulation/driver-instructions/profile-v1.json"@,
            None,
            ""@,
            "Racing catalog must select at most one driver-instruction profile"@,
            ""@,
            "driver-instruction profile must use catalog resource ID pitgun.racing.driver-instructions and path simulation/driver-instructions/profile-v1.json"@,
        )),
{
    resolve_singleton(
        rs,
        "pitgun.racing.driver-instructions",
        "simulation/driver-instructions/profile-v1.json",
        None,
        "",
        "Racing catalog must select at most one driver-instruction profile",
        "",
        "driver-instruction profile must use catalog resource ID pitgun.racing.driver-instructions and path simulation/driver-instructions/profile-v1.json",
    )
}

/// The model-parameter resources: ids or paths under the model-parameter
/// prefixes, in index order.
pub open spec fn model_parameter_indices(rs: Seq<IndexedResource>, k: int) -> Seq<int>
    decreases k,
{
    if k <= 0 {
        Seq::empty()
    } else {
        let prev = model_parameter_indices(rs, k - 1);
        if has_prefix(rs[k - 1].id@, "pitgun.racing.model-parameters."@) || has_prefix(
            rs[k - 1].path@,
            "simulation/model-parameters/"@,
        ) {
            prev.push(k - 1)
        } else {
            prev
        }
    }
}

/// What selecting the model-parameter resource yields: its index and stem,
/// none, or the error text.
pub open spec fn model_parameters_outcome(rs: Seq<IndexedResource>) -> Result<Option<(int, Seq<char>)>, Seq<char>> {
    let sel = model_parameter_indices(rs, rs.len() as int);
    if sel.len() == 0 {
        Ok(None)
    } else if sel.len() >= 2 {
        Err("Racing catalog must select at most one model-parameter resource"@)
    } else {
        let r = rs[sel[0]];
        let prefix = "pitgun.racing.model-parameters."@;
        if !has_prefix(r.id@, prefix) {
            Err("model-parameter path "@ + r.path@ + " uses an incompatible resource ID "@ + r.id@)
        } else {
            let stem = r.id@.subrange(prefix.len() as int, r.id@.len() as int);
            let expected = "simulation/model-parameters/"@ + stem + ".json"@;
            if r.path@ != expected {
                Err("model-parameter resource "@ + r.id@ + " must use path "@ + expected)
            } else {
                Ok(Some((sel[0], stem)))
            }
        }
    }
}

proof fn lemma_model_parameters_grow(rs: Seq<IndexedResource>, k: int, n: int)
    requires
        0 <= k <= n,
    ensures
        model_parameter_indices(rs, k).len() <= model_parameter_indices(rs, n).len(),
    decreases n - k,
{
    if k < n {
        lemma_model_parameters_grow(rs, k, n - 1);
    }
}

/// Selects the optional model-parameter resource: at most one, its id under
/// the model-parameter id prefix and its path derived from the id's stem.
pub fn resolve_model_parameters_resource(rs: &Vec<IndexedResource>) -> (out: Result<
    Option<(usize, String)>,
    RacingCatalogResolutionError,
>)
    ensures
        match model_parameters_outcome(rs@) {
            Ok(None) => out matches Ok(None),
            Ok(Some((i, stem))) => out matches Ok(Some((j, t))) && j == i && t@ == stem,
            Err(m) => out matches Err(RacingCatalogResolutionError::InvalidResolvedResources(e)) && e@ == m,
        },
{
    let mut found: Option<usize> = None;
    let mut k: usize = 0;
    while k < rs.len()
        invariant
            0 <= k <= rs.len(),
            ({
                let sel = model_parameter_indices(rs@, k as int);
                match found {
                    None => sel.len() == 0,
                    Some(i) => sel.len() == 1 && sel[0] == i && i < k,
                }
            }),
        decreases rs.len() - k,
    {
        let id_chars = chars_of(rs[k].id.as_str());
        let path_chars = chars_of(rs[k].path.as_str());
        proof {
            assert(id_chars@.subrange(0, id_chars@.len() as int) =~= id_chars@);
            assert(path_chars@.subrange(0, path_chars@.len() as int) =~= path_chars@);
        }
        if starts_with_text(&id_chars, 0, id_chars.len(), "pitgun.racing.model-parameters.")
            || starts_with_text(&path_chars, 0, path_chars.len(), "simulation/model-parameters/") {
            if found.is_some() {
                proof {
                    lemma_model_parameters_grow(rs@, k + 1, rs@.len() as int);
                }
                return Err(
                    RacingCatalogResolutionError::InvalidResolvedResources(
                        String::from_str("Racing catalog must select at most one model-parameter resource"),
                    ),
                );
            }
            found = Some(k);
        }
        k = k + 1;
    }
    let i = match found {
        None => {
            return Ok(None);
        },
        Some(i) => i,
    };
    let r = &rs[i];
    let id_chars = chars_of(r.id.as_str());
    proof {
        assert(id_chars@.subrange(0, id_chars@.len() as int) =~= id_chars@);
    }
    if !starts_with_text(&id_chars, 0, id_chars.len(), "pitgun.racing.model-parameters.") {
        let mut message = String::from_str("model-parameter path ");
        message.append(r.path.as_str());
        message.append(" uses an incompatible resource ID ");
        message.append(r.id.as_str());
        return Err(RacingCatalogResolutionError::InvalidResolvedResources(message));
    }
    let prefix_len = "pitgun.racing.model-parameters.".unicode_len();
    let stem = string_from_chars(&id_chars, prefix_len, id_chars.len());
    let mut expected = String::from_str("simulation/model-parameters/");
    expected.append(stem.as_str());
    expected.append(".json");
    if !same_text(r.path.as_str(), expected.as_str()) {
        let mut message = String::from_str("model-parameter resource ");
        message.append(r.id.as_str());
        message.append(" must use path ");
        message.append(expected.as_str());
        return Err(RacingCatalogResolutionError::InvalidResolvedResources(message));
    }
    Ok(Some((i, stem)))
}

/// Kind of vehicle component a catalog resource provides.
#[derive(Clone, Copy, Debug, PartialEq, Eq, Structural)]
pub enum VehicleComponentKind {
    AerodynamicPackage,
    Chassis,
    PowerUnit,
    TireSpecification,
}

/// The component directory a path lies in, if any, with its prefix.
pub open spec fn component_dir(path: Seq<char>) -> Option<(VehicleComponentKind, Seq<char>)> {
    if has_prefix(path, "simulation/aero/"@) {
        Some((VehicleComponentKind::AerodynamicPackage, "simulation/aero/"@))
    } else if has_prefix(path, "simulation/chassis/"@) {
        Some((VehicleComponentKind::Chassis, "simulation/chassis/"@))
    } else if has_prefix(path, "simulation/engines/"@) {
        Some((VehicleComponentKind::PowerUnit, "simulation/engines/"@))
    } else if has_prefix(path, "simulation/tires/"@) {
        Some((VehicleComponentKind::TireSpecification, "simulation/tires/"@))
    } else {
        None
    }
}

/// The components listed by the first `k` resources of an index, in order:
/// kind and id (the file name without `.json`), or the first bad path.
pub open spec fn component_inventory(rs: Seq<IndexedResource>, k: int) -> Result<Seq<(VehicleComponentKind, Seq<char>)>, Seq<char>>
    decreases k,
{
    if k <= 0 {
        Ok(Seq::empty())
    } else {
        match component_inventory(rs, k - 1) {
            Err(e) => Err(e),
            Ok(done) => {
                let path = rs[k - 1].path@;
                match component_dir(path) {
                    None => Ok(done),
                    Some((kind, prefix)) => {
                        let rest = path.subrange(prefix.len() as int, path.len() as int);
                        if has_suffix(rest, ".json"@) {
                            Ok(done.push((kind, rest.subrange(0, rest.len() - 5))))
                        } else {
                            Err("invalid component resource path "@ + path)
                        }
                    },
                }
            },
        }
    }
}

proof fn lemma_inventory_error_sticks(rs: Seq<IndexedResource>, k: int, n: int)
    requires
        k <= n,
        component_inventory(rs, k) is Err,
    ensures
        component_inventory(rs, n) == component_inventory(rs, k),
    decreases n - k,
{
    if k < n {
        lemma_inventory_error_sticks(rs, k, n - 1);
    }
}

/// The directory of each kind of component.
pub open spec fn kind_directory(kind: VehicleComponentKind) -> Seq<char> {
    match kind {
        VehicleComponentKind::AerodynamicPackage => "simulation/aero/"@,
        VehicleComponentKind::Chassis => "simulation/chassis/"@,
        VehicleComponentKind::PowerUnit => "simulation/engines/"@,
        VehicleComponentKind::TireSpecification => "simulation/tires/"@,
    }
}

proof fn lemma_prefix_char(path: Seq<char>, prefix: Seq<char>, i: int)
    requires
        has_prefix(path, prefix),
        0 <= i < prefix.len(),
    ensures
        path[i] == prefix[i],
{
    assert(path.subrange(0, prefix.len() as int)[i] == path[i]);
}

/// A component's kind is fixed by its directory: `simulation/aero/` holds
/// aerodynamic packages, `simulation/chassis/` chassis, `simulation/engines/`
/// power units and `simulation/tires/` tire specifications; any other path
/// is no component. The four directories, and so the four kinds, are
/// distinct.
pub proof fn lemma_component_kind_by_directory(path: Seq<char>)
    ensures
        has_prefix(path, "simulation/aero/"@) ==> component_dir(path) == Some(
            (VehicleComponentKind::AerodynamicPackage, "simulation/aero/"@),
        ),
        has_prefix(path, "simulation/chassis/"@) ==> component_dir(path) == Some(
            (VehicleComponentKind::Chassis, "simulation/chassis/"@),
        ),
        has_prefix(path, "simulation/engines/"@) ==> component_dir(path) == Some(
            (VehicleComponentKind::PowerUnit, "simulation/engines/"@),
        ),
        has_prefix(path, "simulation/tires/"@) ==> component_dir(path) == Some(
            (VehicleComponentKind::TireSpecification, "simulation/tires/"@),
        ),
        !has_prefix(path, "simulation/aero/"@) && !has_prefix(path, "simulation/chassis/"@)
            && !has_prefix(path, "simulation/engines/"@) && !has_prefix(path, "simulation/tires/"@)
            ==> component_dir(path) is None,
        component_dir(path) matches Some((kind, dir)) ==> dir == kind_directory(kind),
{
    reveal_strlit("simulation/aero/");
    reveal_strlit("simulation/chassis/");
    reveal_strlit("simulation/engines/");
    reveal_strlit("simulation/tires/");
    if has_prefix(path, "simulation/aero/"@) {
        lemma_prefix_char(path, "simulation/aero/"@, 11);
    }
    if has_prefix(path, "simulation/chassis/"@) {
        lemma_prefix_char(path, "simulation/chassis/"@, 11);
    }
    if has_prefix(path, "simulation/engines/"@) {
        lemma_prefix_char(path, "simulation/engines/"@, 11);
    }
    if has_prefix(path, "simulation/tires/"@) {
        lemma_prefix_char(path, "simulation/tires/"@, 11);
    }
}

/// Every listed component comes from a resource whose path is the kind's
/// directory, the component id and `.json`, in that order.
pub proof fn lemma_listed_components_come_from_their_directory(rs: Seq<IndexedResource>, k: int)
    requires
        0 <= k <= rs.len(),
        component_inventory(rs, k) is Ok,
    ensures
        ({
            let items = component_inventory(rs, k)->Ok_0;
            forall|i: int| #![trigger items[i]] 0 <= i < items.len() ==> exists|j: int| 0 <= j < k
                && (#[trigger] rs[j]).path@ == kind_directory(items[i].0) + items[i].1 + ".json"@
        }),
    decreases k,
{
    reveal_strlit(".json");
    if k > 0 {
        lemma_listed_components_come_from_their_directory(rs, k - 1);
        let done = component_inventory(rs, k - 1)->Ok_0;
        let items = component_inventory(rs, k)->Ok_0;
        let path = rs[k - 1].path@;
        lemma_component_kind_by_directory(path);
        assert forall|i: int| #![trigger items[i]] 0 <= i < items.len() implies exists|j: int| 0 <= j < k
            && (#[trigger] rs[j]).path@ == kind_directory(items[i].0) + items[i].1 + ".json"@ by {
            if i < done.len() {
                assert(items[i] == done[i]);
                let j = choose|j: int| 0 <= j < k - 1
                    && (#[trigger] rs[j]).path@ == kind_directory(done[i].0) + done[i].1 + ".json"@;
                assert(0 <= j < k && rs[j].path@ == kind_directory(items[i].0) + items[i].1 + ".json"@);
            } else {
                let (kind, prefix) = component_dir(path)->Some_0;
                let rest = path.subrange(prefix.len() as int, path.len() as int);
                let id = rest.subrange(0, rest.len() - 5);
                assert(rest.subrange(rest.len() - 5, rest.len() as int) == ".json"@);
                assert(rest =~= id + ".json"@);
                assert(path.subrange(0, prefix.len() as int) == prefix);
                assert(path =~= prefix + rest);
                assert(items[i] == (kind, id));
                assert(rs[k - 1].path@ == kind_directory(items[i].0) + items[i].1 + ".json"@);
            }
        }
    }
}

/// Lists the vehicle components a release indexes, in index order; a
/// component path that is not `<dir>/<id>.json` is rejected.
pub fn list_component_resources(rs: &Vec<IndexedResource>) -> (out: Result<Vec<(VehicleComponentKind, String)>, RacingCatalogResolutionError>)
    ensures
        match component_inventory(rs@, rs@.len() as int) {
            Ok(items) => out matches Ok(v) && v@.len() == items.len() && forall|i: int| 0 <= i < items.len() ==> (#[trigger] v@[i]).0 == items[i].0 && v@[i].1@ == items[i].1,
            Err(m) => out matches Err(RacingCatalogResolutionError::InvalidResolvedResources(e)) && e@ == m,
        },
{
    proof {
        reveal_strlit(".json");
    }
    let mut items: Vec<(VehicleComponentKind, String)> = Vec::new();
    let mut k: usize = 0;
    while k < rs.len()
        invariant
            0 <= k <= rs.len(),
            ".json"@.len() == 5,
            component_inventory(rs@, k as int) matches Ok(done) && items@.len() == done.len() && forall|i: int| 0 <= i < done.len() ==> (#[trigger] items@[i]).0 == done[i].0 && items@[i].1@ == done[i].1,
        decreases rs.len() - k,
    {
        let chars = chars_of(rs[k].path.as_str());
        let n = chars.len();
        proof {
            assert(chars@.subrange(0, n as int) =~= chars@);
        }
        let (kind, prefix): (VehicleComponentKind, &str) = if starts_with_text(&chars, 0, n, "simulation/aero/") {
            (VehicleComponentKind::AerodynamicPackage, "simulation/aero/")
        } else if starts_with_text(&chars, 0, n, "simulation/chassis/") {
            (VehicleComponentKind::Chassis, "simulation/chassis/")
        } else if starts_with_text(&chars, 0, n, "simulation/engines/") {
            (VehicleComponentKind::PowerUnit, "simulation/engines/")
        } else if starts_with_text(&chars, 0, n, "simulation/tires/") {
            (VehicleComponentKind::TireSpecification, "simulation/tires/")
        } else {
            k = k + 1;
            continue;
        };
        let p = prefix.unicode_len();
        proof {
            assert(chars@.subrange(p as int, n as int) =~= chars@.subrange(prefix@.len() as int, chars@.len() as int));
        }
        if !ends_with_text(&chars, p, n, ".json") {
            let mut message = String::from_str("invalid component resource path ");
            message.append(rs[k].path.as_str());
            proof {
                lemma_inventory_error_sticks(rs@, k + 1, rs@.len() as int);
            }
            return Err(RacingCatalogResolutionError::InvalidResolvedResources(message));
        }
        let id = string_from_chars(&chars, p, n - 5);
        proof {
            let rest = chars@.subrange(p as int, n as int);
            assert(rest.subrange(0, rest.len() - 5) =~= chars@.subrange(p as int, n - 5));
        }
        items.push((kind, id));
        k = k + 1;
    }
    Ok(items)
}

/// One supplied release file, described by what the contract crate found:
/// whether its path is a canonical release path, whether its bytes are
/// strict UTF-8 canonical JSON, and the digest of its bytes.
#[derive(Debug, PartialEq, Eq)]
pub struct SuppliedResource {
    pub path: String,
    pub path_check: Result<(), String>,
    pub text_check: Result<(), String>,
    pub digest: String,
}

/// Whether an earlier supplied file has the path of file `j`.
pub open spec fn repeats_earlier(s: Seq<SuppliedResource>, j: int) -> bool {
    exists|k: int| 0 <= k < j && (#[trigger] s[k]).path@ == s[j].path@
}

/// First supplied file, at or after `j`, whose path is invalid or repeated.
pub open spec fn first_supplied_failure(s: Seq<SuppliedResource>, j: int) -> int
    decreases s.len() - j,
{
    if j < 0 || j >= s.len() {
        s.len() as int
    } else if s[j].path_check is Err || repeats_earlier(s, j) {
        j
    } else {
        first_supplied_failure(s, j + 1)
    }
}

/// Index of the first supplied file with path `p`, or the number of files.
pub open spec fn slot_of(s: Seq<SuppliedResource>, p: Seq<char>, j: int) -> int
    decreases s.len() - j,
{
    if j < 0 || j >= s.len() {
        s.len() as int
    } else if s[j].path@ == p {
        j
    } else {
        slot_of(s, p, j + 1)
    }
}

/// Whether indexed resource `i` fails: not JSON, not supplied, not strict
/// JSON text, or not matching its digest.
pub open spec fn resource_fails(idx: Seq<IndexedResource>, s: Seq<SuppliedResource>, i: int) -> bool {
    let j = slot_of(s, idx[i].path@, 0);
    ||| idx[i].media_type@ != "application/json"@
    ||| j >= s.len()
    ||| s[j].text_check is Err
    ||| s[j].digest@ != idx[i].digest@
}

/// First indexed resource, at or after `i`, that fails.
pub open spec fn first_resource_failure(idx: Seq<IndexedResource>, s: Seq<SuppliedResource>, i: int) -> int
    decreases idx.len() - i,
{
    if i < 0 || i >= idx.len() {
        idx.len() as int
    } else if resource_fails(idx, s, i) {
        i
    } else {
        first_resource_failure(idx, s, i + 1)
    }
}

/// A supplied file that the index does not declare.
pub open spec fn is_unexpected(idx: Seq<IndexedResource>, s: Seq<SuppliedResource>, j: int) -> bool {
    0 <= j < s.len() && forall|i: int| 0 <= i < idx.len() ==> (#[trigger] idx[i]).path@ != s[j].path@
}

/// `out` is the error that the failing supplied file `j` causes.
pub open spec fn supplied_error(s: Seq<SuppliedResource>, j: int, out: RacingCatalogResolutionError) -> bool {
    match s[j].path_check {
        Err(reason) => out matches RacingCatalogResolutionError::InvalidResourcePath { path, reason: r } && path@ == s[j].path@ && r == reason,
        Ok(_) => out matches RacingCatalogResolutionError::DuplicateResource(p) && p@ == s[j].path@,
    }
}

/// `out` is the error that the failing indexed resource `i` causes.
pub open spec fn resource_error(idx: Seq<IndexedResource>, s: Seq<SuppliedResource>, i: int, out: RacingCatalogResolutionError) -> bool {
    let r = idx[i];
    let j = slot_of(s, r.path@, 0);
    if r.media_type@ != "application/json"@ {
        out matches RacingCatalogResolutionError::UnsupportedResourceMediaType { path, media_type } && path@ == r.path@ && media_type@ == r.media_type@
    } else if j >= s.len() {
        out matches RacingCatalogResolutionError::MissingResource(p) && p@ == r.path@
    } else if s[j].text_check is Err {
        out matches RacingCatalogResolutionError::InvalidResource { path, reason } && path@ == r.path@ && reason == s[j].text_check->Err_0
    } else {
        out matches RacingCatalogResolutionError::ResourceDigestMismatch { path, expected, actual } && path@ == r.path@ && expected@ == r.digest@ && actual@ == s[j].digest@
    }
}

/// Checks that the supplied files cover the Simulation Pack index exactly:
/// every supplied path is canonical and given once, every indexed resource is
/// JSON, supplied, strict JSON text and matches its digest (in index order),
/// and no supplied file is left undeclared (the first such in path order is
/// reported). Returns, for each indexed resource, the supplied file holding
/// it.
pub fn check_release_resources(index: &Vec<IndexedResource>, supplied: &Vec<SuppliedResource>) -> (out: Result<Vec<usize>, RacingCatalogResolutionError>)
    ensures
        ({
            let fs = first_supplied_failure(supplied@, 0);
            let fi = first_resource_failure(index@, supplied@, 0);
            if fs < supplied@.len() {
                out matches Err(e) && supplied_error(supplied@, fs, e)
            } else if fi < index@.len() {
                out matches Err(e) && resource_error(index@, supplied@, fi, e)
            } else if exists|j: int| is_unexpected(index@, supplied@, j) {
                out matches Err(RacingCatalogResolutionError::UnexpectedResource(p)) && exists|j: int| {
                    &&& is_unexpected(index@, supplied@, j)
                    &&& p@ == (#[trigger] supplied@[j]).path@
                    &&& forall|k: int| is_unexpected(index@, supplied@, k) ==> !text_less((#[trigger] supplied@[k]).path@, p@)
                }
            } else {
                out matches Ok(slots) && slots@.len() == index@.len() && forall|i: int| 0 <= i < index@.len() ==> #[trigger] slots@[i] == slot_of(supplied@, index@[i].path@, 0)
            }
        }),
{
    let s = supplied;
    let mut j: usize = 0;
    while j < s.len()
        invariant
            0 <= j <= s.len(),
            s == supplied,
            first_supplied_failure(s@, 0) == first_supplied_failure(s@, j as int),
            forall|a: int, b: int| 0 <= a < b < j ==> (#[trigger] s@[a]).path@ != (#[trigger] s@[b]).path@,
        decreases s.len() - j,
    {
        if let Err(reason) = &s[j].path_check {
            proof {
                assert(first_supplied_failure(s@, j as int) == j);
            }
            let e = RacingCatalogResolutionError::InvalidResourcePath { path: s[j].path.clone(), reason: reason.clone() };
            assert(e matches RacingCatalogResolutionError::InvalidResourcePath { path, reason: r } && path@ == s@[j as int].path@);
            assert(supplied_error(s@, j as int, e));
            return Err(e);
        }
        let mut k: usize = 0;
        while k < j
            invariant
                0 <= k <= j < s.len(),
                s == supplied,
                s@[j as int].path_check is Ok,
                first_supplied_failure(s@, 0) == first_supplied_failure(s@, j as int),
                forall|m: int| 0 <= m < k ==> (#[trigger] s@[m]).path@ != s@[j as int].path@,
            decreases j - k,
        {
            if same_text(s[k].path.as_str(), s[j].path.as_str()) {
                proof {
                    assert(s@[k as int].path@ == s@[j as int].path@);
                    assert(repeats_earlier(s@, j as int));
                    assert(first_supplied_failure(s@, j as int) == j);
                }
                return Err(RacingCatalogResolutionError::DuplicateResource(s[j].path.clone()));
            }
            k = k + 1;
        }
        proof {
            assert(!repeats_earlier(s@, j as int));
            assert(first_supplied_failure(s@, j as int) == first_supplied_failure(s@, j + 1));
        }
        j = j + 1;
    }
    let mut slots: Vec<usize> = Vec::new();
    let mut i: usize = 0;
    while i < index.len()
        invariant
            0 <= i <= index.len(),
            s == supplied,
            first_supplied_failure(s@, 0) == s@.len(),
            first_resource_failure(index@, s@, 0) == first_resource_failure(index@, s@, i as int),
            slots@.len() == i,
            forall|m: int| 0 <= m < i ==> #[trigger] slots@[m] == slot_of(s@, index@[m].path@, 0),
        decreases index.len() - i,
    {
        let r = &index[i];
        if !same_text(r.media_type.as_str(), "application/json") {
            proof {
                assert(resource_fails(index@, s@, i as int));
                assert(first_resource_failure(index@, s@, i as int) == i);
            }
            return Err(RacingCatalogResolutionError::UnsupportedResourceMediaType { path: r.path.clone(), media_type: r.media_type.clone() });
        }
        let mut j: usize = 0;
        while j < s.len() && !same_text(s[j].path.as_str(), r.path.as_str())
            invariant
                0 <= j <= s.len(),
                slot_of(s@, r.path@, 0) == slot_of(s@, r.path@, j as int),
            decreases s.len() - j,
        {
            j = j + 1;
        }
        proof {
            assert(slot_of(s@, r.path@, 0) == j);
        }
        if j >= s.len() {
            proof {
                assert(resource_fails(index@, s@, i as int));
                assert(first_resource_failure(index@, s@, i as int) == i);
            }
            return Err(RacingCatalogResolutionError::MissingResource(r.path.clone()));
        }
        if let Err(reason) = &s[j].text_check {
            proof {
                assert(resource_fails(index@, s@, i as int));
                assert(first_resource_failure(index@, s@, i as int) == i);
            }
            return Err(RacingCatalogResolutionError::InvalidResource { path: r.path.clone(), reason: reason.clone() });
        }
        if !same_text(s[j].digest.as_str(), r.digest.as_str()) {
            proof {
                assert(resource_fails(index@, s@, i as int));
                assert(first_resource_failure(index@, s@, i as int) == i);
            }
            return Err(RacingCatalogResolutionError::ResourceDigestMismatch { path: r.path.clone(), expected: r.digest.clone(), actual: s[j].digest.clone() });
        }
        proof {
            assert(!resource_fails(index@, s@, i as int));
            assert(first_resource_failure(index@, s@, i as int) == first_resource_failure(index@, s@, i + 1));
        }
        slots.push(j);
        i = i + 1;
    }
    let mut best: Option<usize> = None;
    let mut j: usize = 0;
    while j < s.len()
        invariant
            0 <= j <= s.len(),
            s == supplied,
            first_supplied_failure(s@, 0) == s@.len(),
            first_resource_failure(index@, s@, 0) == index@.len(),
            slots@.len() == index@.len(),
            forall|m: int| 0 <= m < index@.len() ==> #[trigger] slots@[m] == slot_of(s@, index@[m].path@, 0),
            match best {
                None => forall|k: int| 0 <= k < j ==> !is_unexpected(index@, s@, k),
                Some(b) => b < j && is_unexpected(index@, s@, b as int) && forall|k: int| 0 <= k < j && is_unexpected(index@, s@, k) ==> !text_less((#[trigger] s@[k]).path@, s@[b as int].path@),
            },
        decreases s.len() - j,
    {
        let mut declared = false;
        let mut i: usize = 0;
        while i < index.len()
            invariant
                0 <= i <= index.len(),
                j < s.len(),
                declared == exists|m: int| 0 <= m < i && (#[trigger] index@[m]).path@ == s@[j as int].path@,
            decreases index.len() - i,
        {
            if same_text(index[i].path.as_str(), s[j].path.as_str()) {
                declared = true;
            }
            proof {
                if !declared {
                    assert forall|m: int| 0 <= m < i + 1 implies (#[trigger] index@[m]).path@ != s@[j as int].path@ by {
                        if m < i {
                            if index@[m].path@ == s@[j as int].path@ {
                                assert(exists|m2: int| 0 <= m2 < i && (#[trigger] index@[m2]).path@ == s@[j as int].path@);
                            }
                        }
                    }
                } else {
                    if index@[i as int].path@ == s@[j as int].path@ {
                        assert(0 <= i < i + 1);
                    } else {
                        let m = choose|m: int| 0 <= m < i && (#[trigger] index@[m]).path@ == s@[j as int].path@;
                        assert(0 <= m < i + 1);
                    }
                }
            }
            i = i + 1;
        }
        proof {
            if declared {
                let m = choose|m: int| 0 <= m < index@.len() && (#[trigger] index@[m]).path@ == s@[j as int].path@;
                assert(!is_unexpected(index@, s@, j as int));
            } else {
                assert(is_unexpected(index@, s@, j as int));
            }
            lemma_text_less_irreflexive(s@[j as int].path@);
            if let Some(b) = best {
                lemma_text_less_irreflexive(s@[b as int].path@);
                if text_less(s@[j as int].path@, s@[b as int].path@) {
                    assert forall|k: int| 0 <= k < j && is_unexpected(index@, s@, k) implies !text_less((#[trigger] s@[k]).path@, s@[j as int].path@) by {
                        if text_less(s@[k].path@, s@[j as int].path@) {
                            lemma_text_less_transitive(s@[k].path@, s@[j as int].path@, s@[b as int].path@);
                        }
                    }
                }
            }
        }
        if !declared {
            match best {
                None => {
                    best = Some(j);
                },
                Some(b) => {
                    if text_lt(s[j].path.as_str(), s[b].path.as_str()) {
                        best = Some(j);
                    }
                },
            }
        }
        j = j + 1;
    }
    match best {
        Some(b) => Err(RacingCatalogResolutionError::UnexpectedResource(s[b].path.clone())),
        None => Ok(slots),
    }
}

/// A resource path relative to the Simulation Pack: the path without its
/// `simulation/` prefix.
pub fn simulation_relative_path(path: &str) -> (out: Result<String, String>)
    ensures
        has_prefix(path@, "simulation/"@) ==> (out matches Ok(r) && r@ == path@.subrange("simulation/"@.len() as int, path@.len() as int)),
        !has_prefix(path@, "simulation/"@) ==> (out matches Err(e) && e@ == "Racing resource is outside simulation/: "@ + path@),
{
    let chars = chars_of(path);
    let n = chars.len();
    proof {
        assert(chars@.subrange(0, n as int) =~= chars@);
    }
    if !starts_with_text(&chars, 0, n, "simulation/") {
        let mut message = String::from_str("Racing resource is outside simulation/: ");
        message.append(path);
        return Err(message);
    }
    let p = "simulation/".unicode_len();
    Ok(string_from_chars(&chars, p, n))
}

/// The Racing models a catalog may declare itself compatible with, as (id,
/// version) pairs.
pub fn known_racing_models() -> (out: Vec<(&'static str, &'static str)>)
    ensures
        out@.len() == 4,
        out@[0].0@ == "pitgun.racing"@ && out@[0].1@ == "1.0.0"@,
        out@[1].0@ == "pitgun.racing"@ && out@[1].1@ == "2.0.0"@,
        out@[2].0@ == "pitgun.racing-v3-candidate"@ && out@[2].1@ == "0.10.0"@,
        out@[3].0@ == "pitgun.racing-v3-candidate"@ && out@[3].1@ == "0.11.0"@,
{
    vec![
        ("pitgun.racing", "1.0.0"),
        ("pitgun.racing", "2.0.0"),
        ("pitgun.racing-v3-candidate", "0.10.0"),
        ("pitgun.racing-v3-candidate", "0.11.0"),
    ]
}

/// A manifest must support at least one known model; `supports[i]` is the
/// compatibility of known model `i`.
pub fn validate_known_racing_model_compatibility(supports: &Vec<bool>) -> (out: Result<(), RacingCatalogResolutionError>)
    ensures
        (exists|i: int| 0 <= i < supports@.len() && #[trigger] supports@[i]) ==> out is Ok,
        !(exists|i: int| 0 <= i < supports@.len() && #[trigger] supports@[i]) ==> (out matches Err(RacingCatalogResolutionError::InvalidManifest(m))
            && m@ == "catalog does not support a known Racing model (pitgun.racing@1.0.0, pitgun.racing@2.0.0, pitgun.racing-v3-candidate@0.10.0, pitgun.racing-v3-candidate@0.11.0)"@),
{
    let mut i: usize = 0;
    while i < supports.len()
        invariant
            0 <= i <= supports.len(),
            forall|k: int| 0 <= k < i ==> !supports@[k],
        decreases supports.len() - i,
    {
        if supports[i] {
            return Ok(());
        }
        i = i + 1;
    }
    Err(RacingCatalogResolutionError::InvalidManifest(String::from_str(
        "catalog does not support a known Racing model (pitgun.racing@1.0.0, pitgun.racing@2.0.0, pitgun.racing-v3-candidate@0.10.0, pitgun.racing-v3-candidate@0.11.0)",
    )))
}

/// `a` is listed before `b`: a smaller id, or the same id and given earlier.
pub open spec fn listed_before(ids: Seq<String>, a: usize, b: usize) -> bool {
    text_less(ids[a as int]@, ids[b as int]@) || (ids[a as int]@ == ids[b as int]@ && a < b)
}

/// `order` lists every index below `n` once, in id order (ties in the
/// given order).
pub open spec fn is_id_order(ids: Seq<String>, order: Seq<usize>, n: int) -> bool {
    &&& order.len() == n
    &&& forall|k: int| 0 <= k < order.len() ==> #[trigger] order[k] < n
    &&& forall|a: int, b: int| 0 <= a < b < order.len() ==> listed_before(ids, order[a], order[b])
}

/// The order in which catalog listings present their entries: by id, ties
/// keeping their given order (a stable sort by id).
pub fn order_by_id(ids: &Vec<String>) -> (order: Vec<usize>)
    ensures
        is_id_order(ids@, order@, ids@.len() as int),
        order@.no_duplicates(),
{
    let n = ids.len();
    let mut order: Vec<usize> = Vec::new();
    let mut i: usize = 0;
    while i < n
        invariant
            0 <= i <= n == ids@.len(),
            is_id_order(ids@, order@, i as int),
        decreases n - i,
    {
        let key = ids[i].as_str();
        let mut p: usize = 0;
        while p < order.len() && !text_lt(key, ids[order[p]].as_str())
            invariant
                0 <= p <= order.len() == i,
                i < n == ids@.len(),
                key@ == ids@[i as int]@,
                is_id_order(ids@, order@, i as int),
                forall|k: int| 0 <= k < p ==> !text_less(key@, ids@[#[trigger] order@[k] as int]@),
            decreases order.len() - p,
        {
            p = p + 1;
        }
        let ghost before = order@;
        proof {
            if p < before.len() {
                assert(text_less(key@, ids@[before[p as int] as int]@));
            }
        }
        order.insert(p, i);
        assert forall|a: int, b: int| 0 <= a < b < order@.len() implies listed_before(ids@, order@[a], order@[b]) by {
            if b < p {
                assert(order@[a] == before[a] && order@[b] == before[b]);
            } else if b == p {
                assert(order@[a] == before[a]);
                let x = ids@[before[a] as int]@;
                assert(!text_less(key@, x));
                if x != key@ {
                    lemma_text_less_total(x, key@);
                }
            } else if a < p {
                assert(order@[a] == before[a] && order@[b] == before[b - 1]);
            } else if a == p {
                assert(order@[b] == before[b - 1]);
                let y = ids@[before[p as int] as int]@;
                let z = ids@[before[b - 1] as int]@;
                assert(text_less(key@, y));
                if p < b - 1 {
                    assert(listed_before(ids@, before[p as int], before[b - 1]));
                    if text_less(y, z) {
                        lemma_text_less_transitive(key@, y, z);
                    }
                }
            } else {
                assert(order@[a] == before[a - 1] && order@[b] == before[b - 1]);
            }
        }
        i = i + 1;
    }
    proof {
        assert forall|a: int, b: int| 0 <= a < order@.len() && 0 <= b < order@.len() && a != b implies order@[a] != order@[b] by {
            if a < b {
                assert(listed_before(ids@, order@[a], order@[b]));
                if order@[a] == order@[b] {
                    lemma_text_less_irreflexive(ids@[order@[a] as int]@);
                }
            } else {
                assert(listed_before(ids@, order@[b], order@[a]));
                if order@[a] == order@[b] {
                    lemma_text_less_irreflexive(ids@[order@[a] as int]@);
                }
            }
        }
    }
    order
}

/// Checks a pack index against the digest its manifest declares. `actual`
/// is the canonical JSON digest of the index, or why it could not be taken.
pub fn verify_index_digest(pack: &str, expected: &str, actual: Result<String, String>) -> (out: Result<(), RacingCatalogResolutionError>)
    ensures
        match actual {
            Err(reason) => out matches Err(RacingCatalogResolutionError::InvalidDocument { document, reason: r })
                && document@ == "catalog index"@ && r == reason,
            Ok(digest) => if digest@ == expected@ {
                out is Ok
            } else {
                out matches Err(RacingCatalogResolutionError::IndexDigestMismatch { pack: p, expected: e, actual: a })
                    && p@ == pack@ && e@ == expected@ && a == digest
            },
        },
{
    match actual {
        Err(reason) => Err(RacingCatalogResolutionError::InvalidDocument { document: String::from_str("catalog index"), reason }),
        Ok(digest) => {
            if same_text(digest.as_str(), expected) {
                Ok(())
            } else {
                Err(RacingCatalogResolutionError::IndexDigestMismatch {
                    pack: String::from_str(pack),
                    expected: String::from_str(expected),
                    actual: digest,
                })
            }
        },
    }
}

} // verus!
