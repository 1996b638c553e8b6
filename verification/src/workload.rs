//! Model identities of the Racing workload and the selection of one
//! statically linked workload for an exact model and catalog.

use vstd::prelude::*;
use vstd::string::*;

use crate::identity::{identity_eq, same_identity, ArtifactIdentity};
use crate::solver::CurvatureAeroResponse;
use crate::text::{chars_of, debug_quote, debug_text, same_text};

verus! {

/// Failure produced while executing or projecting evidence for Racing.
#[derive(Debug, PartialEq, Eq)]
pub enum RacingWorkloadError {
    /// The Racing Simulator rejected the request.
    Simulation(String),
    /// Racing output could not be projected into canonical evidence.
    Evidence(String),
}

impl RacingWorkloadError {
    /// The error's display text.
    pub fn message(&self) -> (out: String)
        ensures
            match self {
                RacingWorkloadError::Simulation(m) => out@ == "Racing simulation failed: "@ + m@,
                RacingWorkloadError::Evidence(m) => out@ == "Racing evidence failed: "@ + m@,
            },
    {
        match self {
            RacingWorkloadError::Simulation(m) => {
                let mut out = String::from_str("Racing simulation failed: ");
                out.append(m.as_str());
                out
            },
            RacingWorkloadError::Evidence(m) => {
                let mut out = String::from_str("Racing evidence failed: ");
                out.append(m.as_str());
                out
            },
        }
    }
}

/// An identity of three literal texts.
fn identity_of(id: &str, version: &str, digest: &str) -> (out: ArtifactIdentity)
    ensures
        out.id@ == id@,
        out.version@ == version@,
        out.digest@ == digest@,
{
    ArtifactIdentity {
        id: String::from_str(id),
        version: String::from_str(version),
        digest: String::from_str(digest),
    }
}

pub open spec fn model_v1() -> (Seq<char>, Seq<char>, Seq<char>) {
    ("pitgun.racing"@, "1.0.0"@, "sha256:03541bcc24f946d11071e6fb67915ec5d429dce63362d456aba2c3d339a3fe38"@)
}

pub open spec fn model_v2() -> (Seq<char>, Seq<char>, Seq<char>) {
    ("pitgun.racing"@, "2.0.0"@, "sha256:a372f990c320d10207220f98ca4bf677607fc5c13918c73b47dfbb8949b106d2"@)
}

pub open spec fn model_v3_thermal() -> (Seq<char>, Seq<char>, Seq<char>) {
    ("pitgun.racing-v3-candidate"@, "0.10.0"@, "sha256:cc1394a1ba52d83ddb9be6f6272729c29f87944969c41a21991d43997379e5cd"@)
}

pub open spec fn model_v3_candidate() -> (Seq<char>, Seq<char>, Seq<char>) {
    ("pitgun.racing-v3-candidate"@, "0.9.0"@, "sha256:d8767c911912c1ae19cf50f8bb2c6455f7308d83a762d6192f4ef090ef199d99"@)
}

pub open spec fn model_v3_fuel_mass() -> (Seq<char>, Seq<char>, Seq<char>) {
    ("pitgun.racing-v3-candidate"@, "0.8.0"@, "sha256:01c7d8abbe33e8dd7afa87a5ba13668f579f746de8a781ed242e2ac73e0bed6e"@)
}

pub open spec fn model_v3_fidelity() -> (Seq<char>, Seq<char>, Seq<char>) {
    ("pitgun.racing-v3-candidate"@, "0.7.0"@, "sha256:fa8f557fde751d8d38e52bf0d5961ae2b06b4dd1915825c6deb1d869592f0afa"@)
}

pub open spec fn model_v3_transmission() -> (Seq<char>, Seq<char>, Seq<char>) {
    ("pitgun.racing-v3-candidate"@, "0.6.0"@, "sha256:ecb7bd48bb0ed556f3b6e9f20f15f12646eca0ef70a57afd05de8e59f435f936"@)
}

pub open spec fn model_v3_development() -> (Seq<char>, Seq<char>, Seq<char>) {
    ("pitgun.racing-v3-candidate"@, "0.5.0"@, "sha256:359720d98e93dfdd7ed51f9bdf2ce52fc593a00f76024bb1f90839c90f27dc16"@)
}

pub open spec fn model_v3_aero() -> (Seq<char>, Seq<char>, Seq<char>) {
    ("pitgun.racing-v3-candidate"@, "0.4.0"@, "sha256:849d109d7a15345f58d2cdd5f33f62e5f429ff49cb7f14989775f50c1a050598"@)
}

pub open spec fn model_v3_mechanical() -> (Seq<char>, Seq<char>, Seq<char>) {
    ("pitgun.racing-v3-candidate"@, "0.3.0"@, "sha256:79a262d7c1625ca577627e0d134a744284f6aabd15ee683133c572dd4af4e35c"@)
}

/// An identity holds the given texts.
pub open spec fn is_identity(a: ArtifactIdentity, t: (Seq<char>, Seq<char>, Seq<char>)) -> bool {
    a.id@ == t.0 && a.version@ == t.1 && a.digest@ == t.2
}

/// The published Racing model V1 (its digest is that of the model manifest
/// `pitgun.racing:model:1.0.0:conformance-vector`).
pub fn racing_model_v1_identity() -> (out: ArtifactIdentity)
    ensures
        is_identity(out, model_v1()),
{
    identity_of("pitgun.racing", "1.0.0", "sha256:03541bcc24f946d11071e6fb67915ec5d429dce63362d456aba2c3d339a3fe38")
}

/// The continuous-curvature Racing model V2.
pub fn racing_model_v2_identity() -> (out: ArtifactIdentity)
    ensures
        is_identity(out, model_v2()),
{
    identity_of("pitgun.racing", "2.0.0", "sha256:a372f990c320d10207220f98ca4bf677607fc5c13918c73b47dfbb8949b106d2")
}

/// The V3 tire-slice candidate (0.9.0).
pub fn racing_model_v3_candidate_identity() -> (out: ArtifactIdentity)
    ensures
        is_identity(out, model_v3_candidate()),
{
    identity_of("pitgun.racing-v3-candidate", "0.9.0", "sha256:d8767c911912c1ae19cf50f8bb2c6455f7308d83a762d6192f4ef090ef199d99")
}

/// The V3 thermal-parameter candidate (0.10.0).
pub fn racing_model_v3_thermal_candidate_identity() -> (out: ArtifactIdentity)
    ensures
        is_identity(out, model_v3_thermal()),
{
    identity_of("pitgun.racing-v3-candidate", "0.10.0", "sha256:cc1394a1ba52d83ddb9be6f6272729c29f87944969c41a21991d43997379e5cd")
}

/// The V3 fuel and mass candidate (0.8.0).
pub fn racing_model_v3_fuel_mass_candidate_identity() -> (out: ArtifactIdentity)
    ensures
        is_identity(out, model_v3_fuel_mass()),
{
    identity_of("pitgun.racing-v3-candidate", "0.8.0", "sha256:01c7d8abbe33e8dd7afa87a5ba13668f579f746de8a781ed242e2ac73e0bed6e")
}

/// The V3 active-vehicle and tire candidate (0.7.0).
pub fn racing_model_v3_fidelity_candidate_identity() -> (out: ArtifactIdentity)
    ensures
        is_identity(out, model_v3_fidelity()),
{
    identity_of("pitgun.racing-v3-candidate", "0.7.0", "sha256:fa8f557fde751d8d38e52bf0d5961ae2b06b4dd1915825c6deb1d869592f0afa")
}

/// The V3 transmission-resolution candidate (0.6.0).
pub fn racing_model_v3_transmission_candidate_identity() -> (out: ArtifactIdentity)
    ensures
        is_identity(out, model_v3_transmission()),
{
    identity_of("pitgun.racing-v3-candidate", "0.6.0", "sha256:ecb7bd48bb0ed556f3b6e9f20f15f12646eca0ef70a57afd05de8e59f435f936")
}

/// The V3 development-resolution candidate (0.5.0).
pub fn racing_model_v3_development_candidate_identity() -> (out: ArtifactIdentity)
    ensures
        is_identity(out, model_v3_development()),
{
    identity_of("pitgun.racing-v3-candidate", "0.5.0", "sha256:359720d98e93dfdd7ed51f9bdf2ce52fc593a00f76024bb1f90839c90f27dc16")
}

/// The V3 aerodynamic-efficiency candidate (0.4.0).
pub fn racing_model_v3_aero_candidate_identity() -> (out: ArtifactIdentity)
    ensures
        is_identity(out, model_v3_aero()),
{
    identity_of("pitgun.racing-v3-candidate", "0.4.0", "sha256:849d109d7a15345f58d2cdd5f33f62e5f429ff49cb7f14989775f50c1a050598")
}

/// The V3 mechanical-controls candidate (0.3.0).
pub fn racing_model_v3_mechanical_candidate_identity() -> (out: ArtifactIdentity)
    ensures
        is_identity(out, model_v3_mechanical()),
{
    identity_of("pitgun.racing-v3-candidate", "0.3.0", "sha256:79a262d7c1625ca577627e0d134a744284f6aabd15ee683133c572dd4af4e35c")
}

/// Resolves a supported model version to its exact identity: 1.0.0, 2.0.0
/// and the 0.10.0 thermal candidate; any other version is rejected.
pub fn racing_model_identity_for_version(version: &str) -> (out: Result<ArtifactIdentity, String>)
    ensures
        version@ == "1.0.0"@ ==> (out matches Ok(a) && is_identity(a, model_v1())),
        version@ == "2.0.0"@ ==> (out matches Ok(a) && is_identity(a, model_v2())),
        version@ == "0.10.0"@ ==> (out matches Ok(a) && is_identity(a, model_v3_thermal())),
        version@ != "1.0.0"@ && version@ != "2.0.0"@ && version@ != "0.10.0"@ ==> (out matches Err(e)
            && e@ == "unsupported Racing model version "@ + debug_text(version@) + "; expected 1.0.0, 2.0.0 or 0.10.0"@),
{
    proof {
        reveal_strlit("1.0.0");
        reveal_strlit("2.0.0");
        reveal_strlit("0.10.0");
        assert("1.0.0"@ != "2.0.0"@ && "1.0.0"@.len() != "0.10.0"@.len() && "2.0.0"@.len() != "0.10.0"@.len()) by {
            assert("1.0.0"@[0] == '1');
            assert("2.0.0"@[0] == '2');
        }
    }
    if same_text(version, "1.0.0") {
        Ok(racing_model_v1_identity())
    } else if same_text(version, "2.0.0") {
        Ok(racing_model_v2_identity())
    } else if same_text(version, "0.10.0") {
        Ok(racing_model_v3_thermal_candidate_identity())
    } else {
        let mut message = String::from_str("unsupported Racing model version ");
        let quoted = debug_quote(version);
        message.append(quoted.as_str());
        message.append("; expected 1.0.0, 2.0.0 or 0.10.0");
        Err(message)
    }
}

/// Statically linked adapter for one exact Racing model identity, optionally
/// pinned to a validated catalog.
pub struct RacingWorkload<C> {
    pub model: ArtifactIdentity,
    pub catalog: Option<C>,
    pub curvature_response: CurvatureAeroResponse,
}

impl<C> RacingWorkload<C> {
    /// The adapter for the published model V1 without a catalog.
    pub fn v1() -> (out: Self)
        ensures
            is_identity(out.model, model_v1()),
            out.catalog is None,
            out.curvature_response == CurvatureAeroResponse::LegacyBinary,
    {
        RacingWorkload { model: racing_model_v1_identity(), catalog: None, curvature_response: CurvatureAeroResponse::LegacyBinary }
    }

    /// The V1 adapter pinned to a catalog.
    pub fn with_catalog(catalog: C) -> (out: Self)
        ensures
            is_identity(out.model, model_v1()),
            out.catalog == Some(catalog),
            out.curvature_response == CurvatureAeroResponse::LegacyBinary,
    {
        RacingWorkload { model: racing_model_v1_identity(), catalog: Some(catalog), curvature_response: CurvatureAeroResponse::LegacyBinary }
    }

    /// The V2 adapter pinned to its catalog.
    pub fn v2_with_catalog(catalog: C) -> (out: Self)
        ensures
            is_identity(out.model, model_v2()),
            out.catalog == Some(catalog),
            out.curvature_response == CurvatureAeroResponse::ContinuousV1,
    {
        RacingWorkload { model: racing_model_v2_identity(), catalog: Some(catalog), curvature_response: CurvatureAeroResponse::ContinuousV1 }
    }

    /// The V3 thermal adapter pinned to its catalog.
    pub fn v3_thermal_with_catalog(catalog: C) -> (out: Self)
        ensures
            is_identity(out.model, model_v3_thermal()),
            out.catalog == Some(catalog),
            out.curvature_response == CurvatureAeroResponse::ContinuousV1,
    {
        RacingWorkload { model: racing_model_v3_thermal_candidate_identity(), catalog: Some(catalog), curvature_response: CurvatureAeroResponse::ContinuousV1 }
    }

    /// The model this adapter executes.
    pub fn model_identity(&self) -> (out: &ArtifactIdentity)
        ensures
            *out == self.model,
    {
        &self.model
    }

    /// Selects the adapter for an exact model and catalog. `compatibility`
    /// is the outcome of checking the catalog manifest against the model; a
    /// model other than V1, V2 and the V3 thermal candidate is rejected.
    pub fn for_model(model: &ArtifactIdentity, catalog: C, compatibility: Result<(), String>) -> (out: Result<Self, String>)
        ensures
            compatibility matches Err(e) ==> (out matches Err(m) && m@ == "Racing model/catalog incompatibility: "@ + e@),
            compatibility is Ok ==> {
                if is_identity(*model, model_v1()) {
                    out matches Ok(w) && is_identity(w.model, model_v1()) && w.catalog == Some(catalog) && w.curvature_response == CurvatureAeroResponse::LegacyBinary
                } else if is_identity(*model, model_v2()) {
                    out matches Ok(w) && is_identity(w.model, model_v2()) && w.catalog == Some(catalog) && w.curvature_response == CurvatureAeroResponse::ContinuousV1
                } else if is_identity(*model, model_v3_thermal()) {
                    out matches Ok(w) && is_identity(w.model, model_v3_thermal()) && w.catalog == Some(catalog) && w.curvature_response == CurvatureAeroResponse::ContinuousV1
                } else {
                    out matches Err(m) && m@ == "unsupported Racing model identity "@ + model.id@ + "@"@ + model.version@ + " "@ + model.digest@
                }
            },
    {
        if let Err(e) = compatibility {
            let mut message = String::from_str("Racing model/catalog incompatibility: ");
            message.append(e.as_str());
            return Err(message);
        }
        let v1 = racing_model_v1_identity();
        let v2 = racing_model_v2_identity();
        let v3 = racing_model_v3_thermal_candidate_identity();
        if identity_eq(model, &v1) {
            Ok(Self::with_catalog(catalog))
        } else if identity_eq(model, &v2) {
            Ok(Self::v2_with_catalog(catalog))
        } else if identity_eq(model, &v3) {
            Ok(Self::v3_thermal_with_catalog(catalog))
        } else {
            let mut message = String::from_str("unsupported Racing model identity ");
            message.append(model.id.as_str());
            message.append("@");
            message.append(model.version.as_str());
            message.append(" ");
            message.append(model.digest.as_str());
            Err(message)
        }
    }
}

/// Whether a signature is 64 lowercase hexadecimal characters.
pub open spec fn lowercase_hex(c: char) -> bool {
    ('0' <= c && c <= '9') || ('a' <= c && c <= 'f')
}

/// Checks an attempt signature's shape: HMAC-SHA256 and 64 lowercase hex
/// characters (64 hex characters are 64 bytes).
pub fn validate_attempt_signature_shape(algorithm_is_hmac_sha256: bool, signature: &str) -> (out: Result<(), String>)
    ensures
        !algorithm_is_hmac_sha256 ==> (out matches Err(e) && e@ == "unsupported dynamic authorization signature algorithm"@),
        match out {
            Ok(_) => signature_shape_outcome(algorithm_is_hmac_sha256, signature@) is Ok,
            Err(e) => signature_shape_outcome(algorithm_is_hmac_sha256, signature@) == Err::<(), Seq<char>>(e@),
        },
        algorithm_is_hmac_sha256 ==> {
            if signature@.len() == 64 && forall|i: int| 0 <= i < 64 ==> lowercase_hex(#[trigger] signature@[i]) {
                out is Ok
            } else {
                out matches Err(e) && e@ == "invalid dynamic authorization signature shape: expected 64 lowercase hex characters"@
            }
        },
{
    if !algorithm_is_hmac_sha256 {
        return Err(String::from_str("unsupported dynamic authorization signature algorithm"));
    }
    let chars = chars_of(signature);
    let mut ok = chars.len() == 64;
    let mut i: usize = 0;
    while i < chars.len()
        invariant
            0 <= i <= chars.len(),
            chars@ == signature@,
            ok == (chars@.len() == 64 && forall|k: int| 0 <= k < i ==> lowercase_hex(#[trigger] chars@[k])),
        decreases chars.len() - i,
    {
        let c = chars[i];
        if !(('0' <= c && c <= '9') || ('a' <= c && c <= 'f')) {
            ok = false;
        }
        i = i + 1;
    }
    if ok {
        Ok(())
    } else {
        Err(String::from_str("invalid dynamic authorization signature shape: expected 64 lowercase hex characters"))
    }
}


/// Outcome of the signature-shape check, as texts.
pub open spec fn signature_shape_outcome(algorithm_is_hmac_sha256: bool, signature: Seq<char>) -> Result<(), Seq<char>> {
    if !algorithm_is_hmac_sha256 {
        Err("unsupported dynamic authorization signature algorithm"@)
    } else if signature.len() == 64 && forall|i: int| 0 <= i < 64 ==> lowercase_hex(#[trigger] signature[i]) {
        Ok(())
    } else {
        Err("invalid dynamic authorization signature shape: expected 64 lowercase hex characters"@)
    }
}

/// A catalog release named by id, version and manifest digest.
#[derive(Debug, PartialEq, Eq)]
pub struct CatalogReleaseIdentity {
    pub id: String,
    pub version: String,
    pub manifest_digest: String,
}

/// The dynamic model candidate an authorized race runs.
#[derive(Clone, Copy, Debug, PartialEq, Eq, Structural)]
pub enum DynamicRaceModel {
    Timeline,
    FuelContract,
}

/// What an authorized dynamic race is checked on before it runs. The
/// outcomes of the checks that belong to the contract types (authorization
/// integrity, catalog availability for the initial contract, canonical input
/// digest) arrive as results.
#[derive(Debug, PartialEq, Eq)]
pub struct DynamicRaceAdmission {
    pub authorization_integrity: Result<(), String>,
    pub algorithm_is_hmac_sha256: bool,
    pub signature: String,
    pub model: ArtifactIdentity,
    pub catalog_for_run: Result<(), String>,
    pub requested_release: CatalogReleaseIdentity,
    pub catalog_release: CatalogReleaseIdentity,
    pub input_digest: Result<String, String>,
    pub contract_input_digest: String,
}

/// `id@version digest` of an identity.
pub open spec fn identity_text(a: ArtifactIdentity) -> Seq<char> {
    a.id@ + "@"@ + a.version@ + " "@ + a.digest@
}

/// `id@version manifest_digest` of a catalog release.
pub open spec fn release_text(r: CatalogReleaseIdentity) -> Seq<char> {
    r.id@ + "@"@ + r.version@ + " "@ + r.manifest_digest@
}

pub open spec fn same_release(a: CatalogReleaseIdentity, b: CatalogReleaseIdentity) -> bool {
    a.id@ == b.id@ && a.version@ == b.version@ && a.manifest_digest@ == b.manifest_digest@
}

/// The admission of an authorized dynamic race, in the order of its checks:
/// authorization integrity, signature shape, one of the two dynamic models,
/// catalog availability, the exact catalog release, and the input digest.
pub open spec fn dynamic_admission(a: DynamicRaceAdmission, timeline: ArtifactIdentity, fuel_contract: ArtifactIdentity) -> Result<DynamicRaceModel, Seq<char>> {
    if a.authorization_integrity is Err {
        Err("invalid signed attempt authorization: "@ + a.authorization_integrity->Err_0@)
    } else if signature_shape_outcome(a.algorithm_is_hmac_sha256, a.signature@) is Err {
        Err(signature_shape_outcome(a.algorithm_is_hmac_sha256, a.signature@)->Err_0)
    } else if !same_identity(a.model, timeline) && !same_identity(a.model, fuel_contract) {
        Err("dynamic Racing execution requires model "@ + timeline.version@ + " or "@ + fuel_contract.version@
            + ", got "@ + identity_text(a.model))
    } else if a.catalog_for_run is Err {
        Err("authorized dynamic catalog is unavailable: "@ + a.catalog_for_run->Err_0@)
    } else if !same_release(a.catalog_release, a.requested_release) {
        Err("dynamic Racing catalog release mismatch: expected "@ + release_text(a.requested_release) + ", got "@
            + release_text(a.catalog_release))
    } else if a.input_digest is Err {
        Err("cannot canonicalize dynamic Racing input: "@ + a.input_digest->Err_0@)
    } else if a.input_digest->Ok_0@ != a.contract_input_digest@ {
        Err("dynamic Racing input digest mismatch: expected "@ + a.contract_input_digest@ + ", got "@
            + a.input_digest->Ok_0@)
    } else if same_identity(a.model, fuel_contract) {
        Ok(DynamicRaceModel::FuelContract)
    } else {
        Ok(DynamicRaceModel::Timeline)
    }
}

fn append_identity(out: &mut String, a: &ArtifactIdentity)
    ensures
        final(out)@ == old(out)@ + identity_text(*a),
{
    out.append(a.id.as_str());
    out.append("@");
    out.append(a.version.as_str());
    out.append(" ");
    out.append(a.digest.as_str());
}

fn append_release(out: &mut String, r: &CatalogReleaseIdentity)
    ensures
        final(out)@ == old(out)@ + release_text(*r),
{
    out.append(r.id.as_str());
    out.append("@");
    out.append(r.version.as_str());
    out.append(" ");
    out.append(r.manifest_digest.as_str());
}

/// Admits an authorized dynamic race before it runs and selects the model
/// candidate it runs under. The two dynamic candidate identities (timeline
/// and fuel contract) are the caller's.
pub fn admit_dynamic_race(
    admission: &DynamicRaceAdmission,
    timeline: &ArtifactIdentity,
    fuel_contract: &ArtifactIdentity,
) -> (out: Result<DynamicRaceModel, String>)
    ensures
        match dynamic_admission(*admission, *timeline, *fuel_contract) {
            Ok(m) => out == Ok::<DynamicRaceModel, String>(m),
            Err(e) => out matches Err(x) && x@ == e,
        },
{
    if let Err(error) = &admission.authorization_integrity {
        let mut message = String::from_str("invalid signed attempt authorization: ");
        message.append(error.as_str());
        return Err(message);
    }
    let shape = validate_attempt_signature_shape(admission.algorithm_is_hmac_sha256, admission.signature.as_str());
    if let Err(error) = shape {
        return Err(error);
    }
    let model = &admission.model;
    let is_fuel = identity_eq(model, fuel_contract);
    if !identity_eq(model, timeline) && !is_fuel {
        let mut message = String::from_str("dynamic Racing execution requires model ");
        message.append(timeline.version.as_str());
        message.append(" or ");
        message.append(fuel_contract.version.as_str());
        message.append(", got ");
        append_identity(&mut message, model);
        return Err(message);
    }
    if let Err(error) = &admission.catalog_for_run {
        let mut message = String::from_str("authorized dynamic catalog is unavailable: ");
        message.append(error.as_str());
        return Err(message);
    }
    let requested = &admission.requested_release;
    let actual = &admission.catalog_release;
    if !(same_text(actual.id.as_str(), requested.id.as_str())
        && same_text(actual.version.as_str(), requested.version.as_str())
        && same_text(actual.manifest_digest.as_str(), requested.manifest_digest.as_str())) {
        let mut message = String::from_str("dynamic Racing catalog release mismatch: expected ");
        append_release(&mut message, requested);
        message.append(", got ");
        append_release(&mut message, actual);
        return Err(message);
    }
    match &admission.input_digest {
        Err(error) => {
            let mut message = String::from_str("cannot canonicalize dynamic Racing input: ");
            message.append(error.as_str());
            Err(message)
        },
        Ok(digest) => {
            if !same_text(digest.as_str(), admission.contract_input_digest.as_str()) {
                let mut message = String::from_str("dynamic Racing input digest mismatch: expected ");
                message.append(admission.contract_input_digest.as_str());
                message.append(", got ");
                message.append(digest.as_str());
                Err(message)
            } else if is_fuel {
                Ok(DynamicRaceModel::FuelContract)
            } else {
                Ok(DynamicRaceModel::Timeline)
            }
        },
    }
}

} // verus!
