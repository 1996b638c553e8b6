//! Versioned V3 experiment profiles: which optional resolution resources
//! each schema version requires or forbids, and the candidate semantics it
//! binds.
//!
//! The numeric parameters of each resource are validated by their own
//! checks; a profile shape carries, for each resource present, that check's
//! outcome.

use vstd::prelude::*;
use vstd::string::*;

use crate::identity::{copy_identity, ArtifactIdentity};
use crate::workload::{
    is_identity, model_v3_aero, model_v3_candidate, model_v3_development, model_v3_fidelity,
    model_v3_fuel_mass, model_v3_mechanical, model_v3_thermal, model_v3_transmission,
    racing_model_v3_aero_candidate_identity, racing_model_v3_candidate_identity,
    racing_model_v3_development_candidate_identity, racing_model_v3_fidelity_candidate_identity,
    racing_model_v3_fuel_mass_candidate_identity, racing_model_v3_mechanical_candidate_identity,
    racing_model_v3_thermal_candidate_identity, racing_model_v3_transmission_candidate_identity,
};

verus! {

/// Schema version of a V3 experiment profile.
#[derive(Clone, Copy, Debug, PartialEq, Eq, Structural)]
pub enum V3CandidateExperimentProfileVersion {
    V1,
    V2,
    V3,
    V4,
    V5,
    V6,
    V7,
    V8,
    V9,
    V10,
    V11,
}

/// Ordinal of a schema version (V1 is 1).
pub open spec fn version_number(v: V3CandidateExperimentProfileVersion) -> int {
    match v {
        V3CandidateExperimentProfileVersion::V1 => 1,
        V3CandidateExperimentProfileVersion::V2 => 2,
        V3CandidateExperimentProfileVersion::V3 => 3,
        V3CandidateExperimentProfileVersion::V4 => 4,
        V3CandidateExperimentProfileVersion::V5 => 5,
        V3CandidateExperimentProfileVersion::V6 => 6,
        V3CandidateExperimentProfileVersion::V7 => 7,
        V3CandidateExperimentProfileVersion::V8 => 8,
        V3CandidateExperimentProfileVersion::V9 => 9,
        V3CandidateExperimentProfileVersion::V10 => 10,
        V3CandidateExperimentProfileVersion::V11 => 11,
    }
}

/// The ordinal of a schema version.
pub fn profile_version_number(v: V3CandidateExperimentProfileVersion) -> (n: u8)
    ensures
        n == version_number(v),
{
    match v {
        V3CandidateExperimentProfileVersion::V1 => 1,
        V3CandidateExperimentProfileVersion::V2 => 2,
        V3CandidateExperimentProfileVersion::V3 => 3,
        V3CandidateExperimentProfileVersion::V4 => 4,
        V3CandidateExperimentProfileVersion::V5 => 5,
        V3CandidateExperimentProfileVersion::V6 => 6,
        V3CandidateExperimentProfileVersion::V7 => 7,
        V3CandidateExperimentProfileVersion::V8 => 8,
        V3CandidateExperimentProfileVersion::V9 => 9,
        V3CandidateExperimentProfileVersion::V10 => 10,
        V3CandidateExperimentProfileVersion::V11 => 11,
    }
}

/// The resources a profile defines. An optional resource is `None` when
/// absent and `Some(check)` when present, `check` being the outcome of its
/// own parameter validation.
#[derive(Debug, PartialEq, Eq)]
pub struct V3ExperimentProfileShape {
    pub schema_version: V3CandidateExperimentProfileVersion,
    pub tuning_response: Result<(), String>,
    pub aero_resolution: Option<Result<(), String>>,
    pub development_resolution: Option<Result<(), String>>,
    pub transmission_resolution: Option<Result<(), String>>,
    pub fuel_mass: Option<Result<(), String>>,
    pub tire_degradation: Option<Result<(), String>>,
    pub engine_thermal_resolution: Option<Result<(), String>>,
    pub has_driver_control_override: bool,
    pub driver_control_profile: Option<Result<(), String>>,
}

/// Texts of a check outcome.
pub open spec fn check_view(r: Result<(), String>) -> Result<(), Seq<char>> {
    match r {
        Ok(_) => Ok(()),
        Err(e) => Err(e@),
    }
}

/// The first failure of two checks in order.
pub open spec fn then_check(a: Result<(), Seq<char>>, b: Result<(), Seq<char>>) -> Result<(), Seq<char>> {
    match a {
        Err(e) => Err(e),
        Ok(_) => b,
    }
}

/// Message of a version whose resolution resources are wrong.
pub open spec fn resolution_shape_message(v: V3CandidateExperimentProfileVersion) -> Seq<char> {
    match v {
        V3CandidateExperimentProfileVersion::V1 => "V3 experiment profile V1 cannot define later resolution resources"@,
        V3CandidateExperimentProfileVersion::V2 => "V3 experiment profile V2 requires aero_resolution and forbids development_resolution"@,
        V3CandidateExperimentProfileVersion::V3 => "V3 experiment profile V3 requires aero and development resolution and forbids transmission resolution"@,
        V3CandidateExperimentProfileVersion::V4 => "V3 experiment profile V4 requires aero, development and transmission resolution"@,
        V3CandidateExperimentProfileVersion::V5 => "V3 experiment profile V5 requires aero, development and transmission resolution"@,
        V3CandidateExperimentProfileVersion::V6 => "V3 experiment profile V6 requires aero, development and transmission resolution"@,
        V3CandidateExperimentProfileVersion::V7 => "V3 experiment profile V7 requires aero, development and transmission resolution"@,
        V3CandidateExperimentProfileVersion::V8 => "V3 experiment profile V8 requires aero, development and transmission resolution"@,
        V3CandidateExperimentProfileVersion::V9 => "V3 experiment profile V9 requires aero, development and transmission resolution"@,
        V3CandidateExperimentProfileVersion::V10 => "V3 experiment profile V10 requires aero, development and transmission resolution"@,
        V3CandidateExperimentProfileVersion::V11 => "V3 experiment profile V11 requires aero, development and transmission resolution"@,
    }
}

/// The resolution resources: V1 none, V2 aero, V3 aero and development, V4
/// onwards all three; present resources are then checked in that order.
pub open spec fn resolution_outcome(p: V3ExperimentProfileShape) -> Result<(), Seq<char>> {
    let n = version_number(p.schema_version);
    match (p.aero_resolution, p.development_resolution, p.transmission_resolution) {
        (None, None, None) if n == 1 => Ok(()),
        (Some(a), None, None) if n == 2 => check_view(a),
        (Some(a), Some(d), None) if n == 3 => then_check(check_view(a), check_view(d)),
        (Some(a), Some(d), Some(t)) if n >= 4 => then_check(
            check_view(a),
            then_check(check_view(d), check_view(t)),
        ),
        _ => Err(resolution_shape_message(p.schema_version)),
    }
}

/// Fuel mass: required from V6, forbidden before.
pub open spec fn fuel_mass_outcome(p: V3ExperimentProfileShape) -> Result<(), Seq<char>> {
    let n = version_number(p.schema_version);
    match p.fuel_mass {
        Some(f) => if n >= 6 {
            check_view(f)
        } else {
            Err("historical V3 experiment profiles cannot define fuel_mass"@)
        },
        None => if n >= 6 {
            Err("V3 experiment profiles V6 through V11 require fuel_mass"@)
        } else {
            Ok(())
        },
    }
}

/// Tire degradation: required from V7, forbidden before.
pub open spec fn tire_degradation_outcome(p: V3ExperimentProfileShape) -> Result<(), Seq<char>> {
    let n = version_number(p.schema_version);
    match p.tire_degradation {
        Some(t) => if n >= 7 {
            check_view(t)
        } else {
            Err("historical V3 experiment profiles cannot define tire_degradation"@)
        },
        None => if n >= 7 {
            Err("V3 experiment profiles V7 through V11 require tire_degradation"@)
        } else {
            Ok(())
        },
    }
}

/// Engine thermal resolution: required by V8, optional from V9, forbidden
/// before V8.
pub open spec fn engine_thermal_outcome(p: V3ExperimentProfileShape) -> Result<(), Seq<char>> {
    let n = version_number(p.schema_version);
    match p.engine_thermal_resolution {
        Some(t) => if n >= 8 {
            check_view(t)
        } else {
            Err("historical V3 experiment profiles cannot define engine_thermal_resolution"@)
        },
        None => if n == 8 {
            Err("V3 experiment profile V8 requires engine_thermal_resolution"@)
        } else {
            Ok(())
        },
    }
}

/// Driver control: V10 and V11 require a driver-control profile and forbid
/// the legacy override; earlier versions forbid the profile.
pub open spec fn driver_control_outcome(p: V3ExperimentProfileShape) -> Result<(), Seq<char>> {
    let n = version_number(p.schema_version);
    if n >= 10 {
        if p.has_driver_control_override {
            Err("V3 experiment profiles V10 and V11 forbid the legacy driver_control_override"@)
        } else {
            match p.driver_control_profile {
                None => Err("V3 experiment profiles V10 and V11 require driver_control_profile"@),
                Some(Ok(_)) => Ok(()),
                Some(Err(e)) => Err("invalid driver-control profile: "@ + e@),
            }
        }
    } else {
        match p.driver_control_profile {
            None => Ok(()),
            Some(_) => Err("historical V3 experiment profiles cannot define driver_control_profile"@),
        }
    }
}

/// Outcome of validating a profile: the tuning response, then each rule
/// above in order.
pub open spec fn profile_outcome(p: V3ExperimentProfileShape) -> Result<(), Seq<char>> {
    then_check(
        check_view(p.tuning_response),
        then_check(
            resolution_outcome(p),
            then_check(
                fuel_mass_outcome(p),
                then_check(
                    tire_degradation_outcome(p),
                    then_check(engine_thermal_outcome(p), driver_control_outcome(p)),
                ),
            ),
        ),
    )
}

fn copy_check(r: &Result<(), String>) -> (out: Result<(), String>)
    ensures
        check_view(out) == check_view(*r),
{
    match r {
        Ok(_) => Ok(()),
        Err(e) => Err(e.clone()),
    }
}

fn err_text(m: &str) -> (out: Result<(), String>)
    ensures
        check_view(out) == Err::<(), Seq<char>>(m@),
{
    Err(String::from_str(m))
}

impl V3ExperimentProfileShape {
    fn check_resolution(&self) -> (out: Result<(), String>)
        ensures
            check_view(out) == resolution_outcome(*self),
    {
        let n = profile_version_number(self.schema_version);
        match (&self.aero_resolution, &self.development_resolution, &self.transmission_resolution) {
            (None, None, None) if n == 1 => Ok(()),
            (Some(a), None, None) if n == 2 => copy_check(a),
            (Some(a), Some(d), None) if n == 3 => {
                if a.is_err() {
                    return copy_check(a);
                }
                copy_check(d)
            },
            (Some(a), Some(d), Some(t)) if n >= 4 => {
                if a.is_err() {
                    return copy_check(a);
                }
                if d.is_err() {
                    return copy_check(d);
                }
                copy_check(t)
            },
            _ => match self.schema_version {
                V3CandidateExperimentProfileVersion::V1 => err_text("V3 experiment profile V1 cannot define later resolution resources"),
                V3CandidateExperimentProfileVersion::V2 => err_text("V3 experiment profile V2 requires aero_resolution and forbids development_resolution"),
                V3CandidateExperimentProfileVersion::V3 => err_text("V3 experiment profile V3 requires aero and development resolution and forbids transmission resolution"),
                V3CandidateExperimentProfileVersion::V4 => err_text("V3 experiment profile V4 requires aero, development and transmission resolution"),
                V3CandidateExperimentProfileVersion::V5 => err_text("V3 experiment profile V5 requires aero, development and transmission resolution"),
                V3CandidateExperimentProfileVersion::V6 => err_text("V3 experiment profile V6 requires aero, development and transmission resolution"),
                V3CandidateExperimentProfileVersion::V7 => err_text("V3 experiment profile V7 requires aero, development and transmission resolution"),
                V3CandidateExperimentProfileVersion::V8 => err_text("V3 experiment profile V8 requires aero, development and transmission resolution"),
                V3CandidateExperimentProfileVersion::V9 => err_text("V3 experiment profile V9 requires aero, development and transmission resolution"),
                V3CandidateExperimentProfileVersion::V10 => err_text("V3 experiment profile V10 requires aero, development and transmission resolution"),
                V3CandidateExperimentProfileVersion::V11 => err_text("V3 experiment profile V11 requires aero, development and transmission resolution"),
            },
        }
    }

    /// Validates the profile's shape for its schema version and the outcome
    /// of each present resource's own check, in the order: tuning response,
    /// resolution resources, fuel mass, tire degradation, engine thermal
    /// resolution, driver control.
    pub fn validate(&self) -> (out: Result<(), String>)
        ensures
            check_view(out) == profile_outcome(*self),
    {
        let n = profile_version_number(self.schema_version);
        if self.tuning_response.is_err() {
            return copy_check(&self.tuning_response);
        }
        let resolution = self.check_resolution();
        if resolution.is_err() {
            return resolution;
        }
        match &self.fuel_mass {
            Some(f) => {
                if n < 6 {
                    return err_text("historical V3 experiment profiles cannot define fuel_mass");
                }
                if f.is_err() {
                    return copy_check(f);
                }
            },
            None => {
                if n >= 6 {
                    return err_text("V3 experiment profiles V6 through V11 require fuel_mass");
                }
            },
        }
        match &self.tire_degradation {
            Some(t) => {
                if n < 7 {
                    return err_text("historical V3 experiment profiles cannot define tire_degradation");
                }
                if t.is_err() {
                    return copy_check(t);
                }
            },
            None => {
                if n >= 7 {
                    return err_text("V3 experiment profiles V7 through V11 require tire_degradation");
                }
            },
        }
        match &self.engine_thermal_resolution {
            Some(t) => {
                if n < 8 {
                    return err_text("historical V3 experiment profiles cannot define engine_thermal_resolution");
                }
                if t.is_err() {
                    return copy_check(t);
                }
            },
            None => {
                if n == 8 {
                    return err_text("V3 experiment profile V8 requires engine_thermal_resolution");
                }
            },
        }
        if n >= 10 {
            if self.has_driver_control_override {
                return err_text("V3 experiment profiles V10 and V11 forbid the legacy driver_control_override");
            }
            match &self.driver_control_profile {
                None => err_text("V3 experiment profiles V10 and V11 require driver_control_profile"),
                Some(Ok(_)) => Ok(()),
                Some(Err(e)) => {
                    let mut message = String::from_str("invalid driver-control profile: ");
                    message.append(e.as_str());
                    Err(message)
                },
            }
        } else {
            match &self.driver_control_profile {
                None => Ok(()),
                Some(_) => err_text("historical V3 experiment profiles cannot define driver_control_profile"),
            }
        }
    }
}

/// Whether a profile version fits the declared first-stint tire (V5
/// onwards).
pub fn applies_first_stint_tire(version: V3CandidateExperimentProfileVersion) -> (r: bool)
    ensures
        r == (version_number(version) >= 5),
{
    profile_version_number(version) >= 5
}

/// Whether a profile version accepts vehicles without downforce (V5
/// onwards).
pub fn accepts_zero_downforce(version: V3CandidateExperimentProfileVersion) -> (r: bool)
    ensures
        r == (version_number(version) >= 5),
{
    profile_version_number(version) >= 5
}

/// The model candidate a profile version binds.
#[derive(Clone, Copy, Debug, PartialEq, Eq, Structural)]
pub enum V3ModelCandidate {
    Mechanical,
    Aero,
    Development,
    Transmission,
    Fidelity,
    FuelMass,
    TireDegradation,
    Thermal,
    Component,
    DriverControl,
    DriverFriction,
}

/// Each profile version binds its own model candidate, one for one.
pub open spec fn candidate_of(v: V3CandidateExperimentProfileVersion) -> V3ModelCandidate {
    match v {
        V3CandidateExperimentProfileVersion::V1 => V3ModelCandidate::Mechanical,
        V3CandidateExperimentProfileVersion::V2 => V3ModelCandidate::Aero,
        V3CandidateExperimentProfileVersion::V3 => V3ModelCandidate::Development,
        V3CandidateExperimentProfileVersion::V4 => V3ModelCandidate::Transmission,
        V3CandidateExperimentProfileVersion::V5 => V3ModelCandidate::Fidelity,
        V3CandidateExperimentProfileVersion::V6 => V3ModelCandidate::FuelMass,
        V3CandidateExperimentProfileVersion::V7 => V3ModelCandidate::TireDegradation,
        V3CandidateExperimentProfileVersion::V8 => V3ModelCandidate::Thermal,
        V3CandidateExperimentProfileVersion::V9 => V3ModelCandidate::Component,
        V3CandidateExperimentProfileVersion::V10 => V3ModelCandidate::DriverControl,
        V3CandidateExperimentProfileVersion::V11 => V3ModelCandidate::DriverFriction,
    }
}

/// The model candidate a profile version binds.
pub fn model_candidate(version: V3CandidateExperimentProfileVersion) -> (c: V3ModelCandidate)
    ensures
        c == candidate_of(version),
{
    match version {
        V3CandidateExperimentProfileVersion::V1 => V3ModelCandidate::Mechanical,
        V3CandidateExperimentProfileVersion::V2 => V3ModelCandidate::Aero,
        V3CandidateExperimentProfileVersion::V3 => V3ModelCandidate::Development,
        V3CandidateExperimentProfileVersion::V4 => V3ModelCandidate::Transmission,
        V3CandidateExperimentProfileVersion::V5 => V3ModelCandidate::Fidelity,
        V3CandidateExperimentProfileVersion::V6 => V3ModelCandidate::FuelMass,
        V3CandidateExperimentProfileVersion::V7 => V3ModelCandidate::TireDegradation,
        V3CandidateExperimentProfileVersion::V8 => V3ModelCandidate::Thermal,
        V3CandidateExperimentProfileVersion::V9 => V3ModelCandidate::Component,
        V3CandidateExperimentProfileVersion::V10 => V3ModelCandidate::DriverControl,
        V3CandidateExperimentProfileVersion::V11 => V3ModelCandidate::DriverFriction,
    }
}

/// Texts of the model identity a profile version selects, for the versions
/// whose identities this library holds (V1 to V8).
pub open spec fn profile_identity_of(v: V3CandidateExperimentProfileVersion) -> Option<(Seq<char>, Seq<char>, Seq<char>)> {
    match v {
        V3CandidateExperimentProfileVersion::V1 => Some(model_v3_mechanical()),
        V3CandidateExperimentProfileVersion::V2 => Some(model_v3_aero()),
        V3CandidateExperimentProfileVersion::V3 => Some(model_v3_development()),
        V3CandidateExperimentProfileVersion::V4 => Some(model_v3_transmission()),
        V3CandidateExperimentProfileVersion::V5 => Some(model_v3_fidelity()),
        V3CandidateExperimentProfileVersion::V6 => Some(model_v3_fuel_mass()),
        V3CandidateExperimentProfileVersion::V7 => Some(model_v3_candidate()),
        V3CandidateExperimentProfileVersion::V8 => Some(model_v3_thermal()),
        _ => None,
    }
}

impl V3ExperimentProfileShape {
    /// The model identity a profile selects: V1 the mechanical candidate
    /// (0.3.0), V2 aero (0.4.0), V3 development (0.5.0), V4 transmission
    /// (0.6.0), V5 fidelity (0.7.0), V6 fuel and mass (0.8.0), V7 the tire
    /// candidate (0.9.0), V8 thermal (0.10.0), and V9, V10 and V11 the
    /// component, driver-control and driver-friction candidates, whose
    /// identities the caller supplies.
    pub fn model_identity(
        &self,
        component: &ArtifactIdentity,
        driver_control: &ArtifactIdentity,
        driver_friction: &ArtifactIdentity,
    ) -> (out: ArtifactIdentity)
        ensures
            match profile_identity_of(self.schema_version) {
                Some(t) => is_identity(out, t),
                None => out == match self.schema_version {
                    V3CandidateExperimentProfileVersion::V9 => *component,
                    V3CandidateExperimentProfileVersion::V10 => *driver_control,
                    _ => *driver_friction,
                },
            },
    {
        match self.schema_version {
            V3CandidateExperimentProfileVersion::V1 => racing_model_v3_mechanical_candidate_identity(),
            V3CandidateExperimentProfileVersion::V2 => racing_model_v3_aero_candidate_identity(),
            V3CandidateExperimentProfileVersion::V3 => racing_model_v3_development_candidate_identity(),
            V3CandidateExperimentProfileVersion::V4 => racing_model_v3_transmission_candidate_identity(),
            V3CandidateExperimentProfileVersion::V5 => racing_model_v3_fidelity_candidate_identity(),
            V3CandidateExperimentProfileVersion::V6 => racing_model_v3_fuel_mass_candidate_identity(),
            V3CandidateExperimentProfileVersion::V7 => racing_model_v3_candidate_identity(),
            V3CandidateExperimentProfileVersion::V8 => racing_model_v3_thermal_candidate_identity(),
            V3CandidateExperimentProfileVersion::V9 => copy_identity(component),
            V3CandidateExperimentProfileVersion::V10 => copy_identity(driver_control),
            V3CandidateExperimentProfileVersion::V11 => copy_identity(driver_friction),
        }
    }
}

/// Distinct profile versions bind distinct model candidates, so a profile's
/// candidate identifies its exact semantics.
pub proof fn lemma_versions_bind_distinct_candidates(
    a: V3CandidateExperimentProfileVersion,
    b: V3CandidateExperimentProfileVersion,
)
    requires
        a != b,
    ensures
        candidate_of(a) != candidate_of(b),
{
}

/// A valid profile from V4 on defines all three resolution resources, from
/// V6 on its fuel mass, from V7 on its tire degradation, and from V10 on a
/// driver-control profile without the legacy override.
pub proof fn lemma_valid_profile_defines_required_resources(p: V3ExperimentProfileShape)
    requires
        profile_outcome(p) is Ok,
    ensures
        version_number(p.schema_version) == 1 ==> p.aero_resolution is None && p.development_resolution is None && p.transmission_resolution is None,
        version_number(p.schema_version) >= 4 ==> p.aero_resolution is Some && p.development_resolution is Some && p.transmission_resolution is Some,
        version_number(p.schema_version) >= 6 <==> p.fuel_mass is Some,
        version_number(p.schema_version) >= 7 <==> p.tire_degradation is Some,
        version_number(p.schema_version) >= 10 ==> !p.has_driver_control_override && p.driver_control_profile is Some,
        version_number(p.schema_version) < 10 ==> p.driver_control_profile is None,
{
}

} // verus!
