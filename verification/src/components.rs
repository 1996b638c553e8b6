//! Vehicle composition: which aero, chassis, power unit and tire a
//! competitor's vehicle runs, given the catalog's vehicle records and a
//! per-competitor component selection, plus the catalog's reference checks.

use vstd::prelude::*;
use vstd::string::*;

use crate::text::{debug_quote, debug_text, same_text, trim_text, trimmed};

verus! {

/// Component overrides of one competitor's vehicle.
#[derive(Debug, PartialEq, Eq)]
pub struct VehicleComponentSelectionV1 {
    pub aero_id: Option<String>,
    pub chassis_id: Option<String>,
    pub engine_id: Option<String>,
    pub tire_id: Option<String>,
}

/// The components a catalog vehicle is built from.
#[derive(Debug, PartialEq, Eq)]
pub struct VehicleRecord {
    pub aero_id: String,
    pub chassis_id: String,
    pub engine_id: String,
    pub tire_id: String,
}

/// The ids a catalog knows, per resource kind, and its vehicles.
#[derive(Debug, PartialEq, Eq)]
pub struct ComponentInventory {
    pub vehicles: Vec<(String, VehicleRecord)>,
    pub aeros: Vec<String>,
    pub chassis: Vec<String>,
    pub engines: Vec<String>,
    pub tires: Vec<String>,
}

/// The components installed on one competitor's vehicle.
#[derive(Debug, PartialEq, Eq)]
pub struct InstalledComponents {
    pub aero_id: String,
    pub chassis_id: String,
    pub engine_id: String,
    pub tire_id: String,
}

/// Whether a list of ids holds `id`.
pub open spec fn lists(ids: Seq<String>, id: Seq<char>) -> bool {
    exists|i: int| 0 <= i < ids.len() && (#[trigger] ids[i])@ == id
}

fn list_has(ids: &Vec<String>, id: &str) -> (r: bool)
    ensures
        r == lists(ids@, id@),
{
    let mut i: usize = 0;
    while i < ids.len()
        invariant
            0 <= i <= ids.len(),
            forall|j: int| 0 <= j < i ==> (#[trigger] ids@[j])@ != id@,
        decreases ids.len() - i,
    {
        if same_text(ids[i].as_str(), id) {
            return true;
        }
        i = i + 1;
    }
    false
}

/// Error text of a non-canonical override.
pub open spec fn non_canonical_message(kind: Seq<char>, v: Seq<char>) -> Seq<char> {
    "vehicle component selection has non-canonical "@ + kind + " id '"@ + v + "'"@
}

/// Error text of an unknown component.
pub open spec fn unknown_message(kind: Seq<char>, id: Seq<char>) -> Seq<char> {
    "unknown "@ + kind + " '"@ + id + "'"@
}

/// Error text of a vehicle referencing an unknown component.
pub open spec fn reference_message(id: Seq<char>, kind: Seq<char>, reference: Seq<char>) -> Seq<char> {
    "vehicle '"@ + id + "' references unknown "@ + kind + " '"@ + reference + "'"@
}

/// A selection override is canonical when it is non-empty and untrimmable.
pub open spec fn canonical_id(v: Seq<char>) -> bool {
    v.len() > 0 && trimmed(v) == v
}

/// Outcome of validating a component selection: at least one override, and
/// each override canonical (checked aero, chassis, engine, tire).
pub open spec fn selection_outcome(s: VehicleComponentSelectionV1) -> Result<(), Seq<char>> {
    if s.aero_id is None && s.chassis_id is None && s.engine_id is None && s.tire_id is None {
        Err("vehicle component selection must override at least one component"@)
    } else if s.aero_id matches Some(v) && !canonical_id(v@) {
        Err(non_canonical_message("aero"@, s.aero_id->0@))
    } else if s.chassis_id matches Some(v) && !canonical_id(v@) {
        Err(non_canonical_message("chassis"@, s.chassis_id->0@))
    } else if s.engine_id matches Some(v) && !canonical_id(v@) {
        Err(non_canonical_message("engine"@, s.engine_id->0@))
    } else if s.tire_id matches Some(v) && !canonical_id(v@) {
        Err(non_canonical_message("tire"@, s.tire_id->0@))
    } else {
        Ok(())
    }
}

/// Texts of a check outcome.
pub open spec fn outcome_view(r: Result<(), String>) -> Result<(), Seq<char>> {
    match r {
        Ok(_) => Ok(()),
        Err(e) => Err(e@),
    }
}

fn check_canonical(kind: &str, value: &Option<String>) -> (out: Result<(), String>)
    ensures
        match value {
            Some(v) => if canonical_id(v@) {
                out is Ok
            } else {
                out matches Err(e) && e@ == non_canonical_message(kind@, v@)
            },
            None => out is Ok,
        },
{
    if let Some(v) = value {
        let t = trim_text(v.as_str());
        if v.as_str().is_empty() || !same_text(t.as_str(), v.as_str()) {
            let mut message = String::from_str("vehicle component selection has non-canonical ");
            message.append(kind);
            message.append(" id '");
            message.append(v.as_str());
            message.append("'");
            return Err(message);
        }
    }
    Ok(())
}

/// Checks that a selection overrides at least one component and that every
/// override is a canonical id.
pub fn validate_component_selection(selection: &VehicleComponentSelectionV1) -> (out: Result<(), String>)
    ensures
        outcome_view(out) == selection_outcome(*selection),
{
    if selection.aero_id.is_none() && selection.chassis_id.is_none() && selection.engine_id.is_none()
        && selection.tire_id.is_none() {
        return Err(String::from_str("vehicle component selection must override at least one component"));
    }
    let r = check_canonical("aero", &selection.aero_id);
    if r.is_err() {
        return r;
    }
    let r = check_canonical("chassis", &selection.chassis_id);
    if r.is_err() {
        return r;
    }
    let r = check_canonical("engine", &selection.engine_id);
    if r.is_err() {
        return r;
    }
    check_canonical("tire", &selection.tire_id)
}

/// Index of the vehicle record with id `id`, or the number of records.
pub open spec fn vehicle_index(vs: Seq<(String, VehicleRecord)>, id: Seq<char>, k: int) -> int
    decreases vs.len() - k,
{
    if k < 0 || k >= vs.len() {
        vs.len() as int
    } else if vs[k].0@ == id {
        k
    } else {
        vehicle_index(vs, id, k + 1)
    }
}

fn find_vehicle(vs: &Vec<(String, VehicleRecord)>, id: &str) -> (i: usize)
    ensures
        i == vehicle_index(vs@, id@, 0),
{
    let mut k: usize = 0;
    while k < vs.len() && !same_text(vs[k].0.as_str(), id)
        invariant
            0 <= k <= vs.len(),
            vehicle_index(vs@, id@, 0) == vehicle_index(vs@, id@, k as int),
        decreases vs.len() - k,
    {
        k = k + 1;
    }
    k
}

/// The id of one component: the override when the selection has one, else
/// the vehicle's own.
pub open spec fn chosen(override_id: Option<String>, own: String) -> Seq<char> {
    match override_id {
        Some(v) => v@,
        None => own@,
    }
}

/// The override of each kind, when a selection is given.
pub open spec fn override_of(selection: Option<VehicleComponentSelectionV1>, kind: int) -> Option<String> {
    match selection {
        None => None,
        Some(s) => if kind == 0 {
            s.aero_id
        } else if kind == 1 {
            s.chassis_id
        } else if kind == 2 {
            s.engine_id
        } else {
            s.tire_id
        },
    }
}

/// What resolving the installed components yields: the four ids, or the
/// error text. The vehicle must exist, the selection (when given) must be
/// valid, and each chosen component must be known (aero, chassis, engine,
/// tire, in that order).
pub open spec fn installed_outcome(
    inv: ComponentInventory,
    vehicle_id: Seq<char>,
    selection: Option<VehicleComponentSelectionV1>,
) -> Result<(Seq<char>, Seq<char>, Seq<char>, Seq<char>), Seq<char>> {
    let vi = vehicle_index(inv.vehicles@, vehicle_id, 0);
    if vi >= inv.vehicles@.len() {
        Err("unknown vehicle '"@ + vehicle_id + "'"@)
    } else if selection matches Some(s) && selection_outcome(s) is Err {
        Err(selection_outcome(selection->0)->Err_0)
    } else {
        let rec = inv.vehicles@[vi].1;
        let a = chosen(override_of(selection, 0), rec.aero_id);
        let c = chosen(override_of(selection, 1), rec.chassis_id);
        let e = chosen(override_of(selection, 2), rec.engine_id);
        let t = chosen(override_of(selection, 3), rec.tire_id);
        if !lists(inv.aeros@, a) {
            Err(unknown_message("aero"@, a))
        } else if !lists(inv.chassis@, c) {
            Err(unknown_message("chassis"@, c))
        } else if !lists(inv.engines@, e) {
            Err(unknown_message("engine"@, e))
        } else if !lists(inv.tires@, t) {
            Err(unknown_message("tire"@, t))
        } else {
            Ok((a, c, e, t))
        }
    }
}

fn pick(override_id: &Option<String>, own: &String) -> (out: String)
    ensures
        out@ == chosen(*override_id, *own),
{
    match override_id {
        Some(v) => v.clone(),
        None => own.clone(),
    }
}

fn unknown(kind: &str, id: &String) -> (out: String)
    ensures
        out@ == unknown_message(kind@, id@),
{
    let mut message = String::from_str("unknown ");
    message.append(kind);
    message.append(" '");
    message.append(id.as_str());
    message.append("'");
    message
}

/// Resolves the four components a competitor's vehicle runs: the catalog
/// vehicle's own, each replaced by the selection's override when present.
pub fn resolve_installed_components(
    inv: &ComponentInventory,
    vehicle_id: &str,
    selection: Option<&VehicleComponentSelectionV1>,
) -> (out: Result<InstalledComponents, String>)
    ensures
        match installed_outcome(*inv, vehicle_id@, match selection { Some(s) => Some(*s), None => None }) {
            Ok((a, c, e, t)) => out matches Ok(ic) && ic.aero_id@ == a && ic.chassis_id@ == c && ic.engine_id@ == e && ic.tire_id@ == t,
            Err(m) => out matches Err(x) && x@ == m,
        },
{
    let vi = find_vehicle(&inv.vehicles, vehicle_id);
    if vi >= inv.vehicles.len() {
        let mut message = String::from_str("unknown vehicle '");
        message.append(vehicle_id);
        message.append("'");
        return Err(message);
    }
    if let Some(s) = selection {
        let r = validate_component_selection(s);
        if let Err(e) = r {
            return Err(e);
        }
    }
    let rec = &inv.vehicles[vi].1;
    let none: Option<String> = None;
    let (a, c, e, t) = match selection {
        Some(s) => (pick(&s.aero_id, &rec.aero_id), pick(&s.chassis_id, &rec.chassis_id), pick(&s.engine_id, &rec.engine_id), pick(&s.tire_id, &rec.tire_id)),
        None => (pick(&none, &rec.aero_id), pick(&none, &rec.chassis_id), pick(&none, &rec.engine_id), pick(&none, &rec.tire_id)),
    };
    if !list_has(&inv.aeros, a.as_str()) {
        return Err(unknown("aero", &a));
    }
    if !list_has(&inv.chassis, c.as_str()) {
        return Err(unknown("chassis", &c));
    }
    if !list_has(&inv.engines, e.as_str()) {
        return Err(unknown("engine", &e));
    }
    if !list_has(&inv.tires, t.as_str()) {
        return Err(unknown("tire", &t));
    }
    Ok(InstalledComponents { aero_id: a, chassis_id: c, engine_id: e, tire_id: t })
}

/// The installed components are the vehicle's own, each replaced by the
/// selection's override of that kind when it gives one: for the first
/// catalog vehicle with the requested id, a successful resolution installs
/// the overriding aero, chassis, power unit and tire where the selection
/// names them and the vehicle's own otherwise, and every installed id is
/// known to the catalog.
pub proof fn lemma_installed_components_follow_overrides(
    inv: ComponentInventory,
    vehicle_id: Seq<char>,
    selection: Option<VehicleComponentSelectionV1>,
    v: int,
)
    requires
        0 <= v < inv.vehicles@.len(),
        inv.vehicles@[v].0@ == vehicle_id,
        forall|w: int| 0 <= w < v ==> (#[trigger] inv.vehicles@[w]).0@ != vehicle_id,
        installed_outcome(inv, vehicle_id, selection) is Ok,
    ensures
        ({
            let (a, c, e, t) = installed_outcome(inv, vehicle_id, selection)->Ok_0;
            let rec = inv.vehicles@[v].1;
            &&& a == match selection {
                Some(s) if s.aero_id is Some => s.aero_id->0@,
                _ => rec.aero_id@,
            }
            &&& c == match selection {
                Some(s) if s.chassis_id is Some => s.chassis_id->0@,
                _ => rec.chassis_id@,
            }
            &&& e == match selection {
                Some(s) if s.engine_id is Some => s.engine_id->0@,
                _ => rec.engine_id@,
            }
            &&& t == match selection {
                Some(s) if s.tire_id is Some => s.tire_id->0@,
                _ => rec.tire_id@,
            }
            &&& lists(inv.aeros@, a) && lists(inv.chassis@, c) && lists(inv.engines@, e) && lists(inv.tires@, t)
        }),
{
    lemma_vehicle_index_is_first(inv.vehicles@, vehicle_id, v, 0);
}

proof fn lemma_vehicle_index_is_first(vs: Seq<(String, VehicleRecord)>, id: Seq<char>, v: int, k: int)
    requires
        0 <= k <= v < vs.len(),
        vs[v].0@ == id,
        forall|w: int| 0 <= w < v ==> (#[trigger] vs[w]).0@ != id,
    ensures
        vehicle_index(vs, id, k) == v,
    decreases v - k,
{
    if k < v {
        lemma_vehicle_index_is_first(vs, id, v, k + 1);
    }
}

/// What resolving only the power unit yields.
pub open spec fn engine_outcome(
    inv: ComponentInventory,
    vehicle_id: Seq<char>,
    selection: Option<VehicleComponentSelectionV1>,
) -> Result<Seq<char>, Seq<char>> {
    let vi = vehicle_index(inv.vehicles@, vehicle_id, 0);
    if vi >= inv.vehicles@.len() {
        Err("unknown vehicle '"@ + vehicle_id + "'"@)
    } else if selection matches Some(s) && selection_outcome(s) is Err {
        Err(selection_outcome(selection->0)->Err_0)
    } else {
        let e = chosen(override_of(selection, 2), inv.vehicles@[vi].1.engine_id);
        if !lists(inv.engines@, e) {
            Err(unknown_message("engine"@, e))
        } else {
            Ok(e)
        }
    }
}

/// Resolves the power unit a competitor's vehicle runs.
pub fn resolve_engine_id_with_components(
    inv: &ComponentInventory,
    vehicle_id: &str,
    selection: Option<&VehicleComponentSelectionV1>,
) -> (out: Result<String, String>)
    ensures
        match engine_outcome(*inv, vehicle_id@, match selection { Some(s) => Some(*s), None => None }) {
            Ok(e) => out matches Ok(x) && x@ == e,
            Err(m) => out matches Err(x) && x@ == m,
        },
{
    let vi = find_vehicle(&inv.vehicles, vehicle_id);
    if vi >= inv.vehicles.len() {
        let mut message = String::from_str("unknown vehicle '");
        message.append(vehicle_id);
        message.append("'");
        return Err(message);
    }
    if let Some(s) = selection {
        let r = validate_component_selection(s);
        if let Err(e) = r {
            return Err(e);
        }
    }
    let rec = &inv.vehicles[vi].1;
    let e = match selection {
        Some(s) => pick(&s.engine_id, &rec.engine_id),
        None => rec.engine_id.clone(),
    };
    if !list_has(&inv.engines, e.as_str()) {
        return Err(unknown("engine", &e));
    }
    Ok(e)
}

/// Without a selection, both resolutions pick the vehicle's own power unit;
/// with one, they agree on the engine whenever the full resolution succeeds.
pub proof fn lemma_engine_agrees_with_installed(
    inv: ComponentInventory,
    vehicle_id: Seq<char>,
    selection: Option<VehicleComponentSelectionV1>,
)
    requires
        installed_outcome(inv, vehicle_id, selection) is Ok,
    ensures
        engine_outcome(inv, vehicle_id, selection) == Ok::<Seq<char>, Seq<char>>(installed_outcome(inv, vehicle_id, selection)->Ok_0.2),
{
}

/// Checks that every selection names a competitor of the race; the
/// selections are visited in the order given.
pub fn validate_component_selection_subjects(competitor_ids: &Vec<String>, selected_competitors: &Vec<String>) -> (out: Result<(), String>)
    ensures
        match out {
            Ok(_) => forall|j: int| 0 <= j < selected_competitors@.len() ==> lists(competitor_ids@, (#[trigger] selected_competitors@[j])@),
            Err(e) => exists|j: int| {
                &&& 0 <= j < selected_competitors@.len()
                &&& !lists(competitor_ids@, (#[trigger] selected_competitors@[j])@)
                &&& forall|k: int| 0 <= k < j ==> lists(competitor_ids@, (#[trigger] selected_competitors@[k])@)
                &&& e@ == "vehicle component selection references unknown competitor '"@ + selected_competitors@[j]@ + "'"@
            },
        },
{
    let mut j: usize = 0;
    while j < selected_competitors.len()
        invariant
            0 <= j <= selected_competitors.len(),
            forall|k: int| 0 <= k < j ==> lists(competitor_ids@, (#[trigger] selected_competitors@[k])@),
        decreases selected_competitors.len() - j,
    {
        if !list_has(competitor_ids, selected_competitors[j].as_str()) {
            let mut message = String::from_str("vehicle component selection references unknown competitor '");
            message.append(selected_competitors[j].as_str());
            message.append("'");
            return Err(message);
        }
        j = j + 1;
    }
    Ok(())
}

/// A model without component semantics accepts no selection.
pub fn reject_component_selections_for_model(selection_count: usize, model: &str) -> (out: Result<(), String>)
    ensures
        selection_count == 0 ==> out is Ok,
        selection_count > 0 ==> (out matches Err(e) && e@ == model@ + " does not support vehicle component selection; select a component-aware model and catalog"@),
{
    if selection_count == 0 {
        return Ok(());
    }
    let mut message = String::from_str(model);
    message.append(" does not support vehicle component selection; select a component-aware model and catalog");
    Err(message)
}

/// The requested vehicle, trimmed; a missing or blank id is rejected.
pub fn resolve_vehicle_id(vehicle_id: Option<&str>) -> (out: Result<String, String>)
    ensures
        match vehicle_id {
            Some(v) if trimmed(v@).len() > 0 => out matches Ok(x) && x@ == trimmed(v@),
            _ => out matches Err(e) && e@ == "vehicle_id is required"@,
        },
{
    if let Some(v) = vehicle_id {
        let t = trim_text(v);
        if !t.as_str().is_empty() {
            return Ok(t);
        }
    }
    Err(String::from_str("vehicle_id is required"))
}

/// Which driver a request runs with.
#[derive(Debug, PartialEq, Eq)]
pub enum DriverChoice {
    /// A catalog driver, by id.
    Catalog(String),
    /// The built-in default driver (the catalog has no `default` driver).
    BuiltIn,
}

/// The requested driver (trimmed; blank or absent means `default`), else the
/// catalog's `default` driver, else the built-in default.
pub fn resolve_driver(drivers: &Vec<String>, driver_id: Option<&str>) -> (out: DriverChoice)
    ensures
        ({
            let requested = match driver_id {
                Some(d) if trimmed(d@).len() > 0 => trimmed(d@),
                _ => "default"@,
            };
            if lists(drivers@, requested) {
                out matches DriverChoice::Catalog(id) && id@ == requested
            } else if lists(drivers@, "default"@) {
                out matches DriverChoice::Catalog(id) && id@ == "default"@
            } else {
                out is BuiltIn
            }
        }),
{
    let requested = match driver_id {
        Some(d) => {
            let t = trim_text(d);
            if t.as_str().is_empty() {
                String::from_str("default")
            } else {
                t
            }
        },
        None => String::from_str("default"),
    };
    if list_has(drivers, requested.as_str()) {
        return DriverChoice::Catalog(requested);
    }
    if list_has(drivers, "default") {
        return DriverChoice::Catalog(String::from_str("default"));
    }
    DriverChoice::BuiltIn
}

/// First vehicle, in the order given, that references a missing component;
/// each vehicle's references are checked aero, chassis, engine, tire.
pub open spec fn bad_reference(inv: ComponentInventory, k: int) -> Option<Seq<char>> {
    let (id, v) = inv.vehicles@[k];
    if !lists(inv.aeros@, v.aero_id@) {
        Some(reference_message(id@, "aero"@, v.aero_id@))
    } else if !lists(inv.chassis@, v.chassis_id@) {
        Some(reference_message(id@, "chassis"@, v.chassis_id@))
    } else if !lists(inv.engines@, v.engine_id@) {
        Some(reference_message(id@, "engine"@, v.engine_id@))
    } else if !lists(inv.tires@, v.tire_id@) {
        Some(reference_message(id@, "tire"@, v.tire_id@))
    } else {
        None
    }
}

fn reference_error(id: &String, kind: &str, reference: &String) -> (out: String)
    ensures
        out@ == reference_message(id@, kind@, reference@),
{
    let mut message = String::from_str("vehicle '");
    message.append(id.as_str());
    message.append("' references unknown ");
    message.append(kind);
    message.append(" '");
    message.append(reference.as_str());
    message.append("'");
    message
}

/// Checks the catalog's references: the `default` driver exists and every
/// vehicle's components exist (vehicles in the order given).
pub fn validate_catalog_references(inv: &ComponentInventory, drivers: &Vec<String>) -> (out: Result<(), String>)
    ensures
        !lists(drivers@, "default"@) ==> (out matches Err(e) && e@ == "Racing catalog is missing the default driver"@),
        lists(drivers@, "default"@) ==> match out {
            Ok(_) => forall|k: int| 0 <= k < inv.vehicles@.len() ==> bad_reference(*inv, k) is None,
            Err(e) => exists|k: int| {
                &&& 0 <= k < inv.vehicles@.len()
                &&& forall|m: int| 0 <= m < k ==> bad_reference(*inv, m) is None
                &&& bad_reference(*inv, k) == Some(e@)
            },
        },
{
    if !list_has(drivers, "default") {
        return Err(String::from_str("Racing catalog is missing the default driver"));
    }
    let mut k: usize = 0;
    while k < inv.vehicles.len()
        invariant
            0 <= k <= inv.vehicles.len(),
            lists(drivers@, "default"@),
            forall|m: int| 0 <= m < k ==> bad_reference(*inv, m) is None,
        decreases inv.vehicles.len() - k,
    {
        let id = &inv.vehicles[k].0;
        let v = &inv.vehicles[k].1;
        if !list_has(&inv.aeros, v.aero_id.as_str()) {
            let message = reference_error(id, "aero", &v.aero_id);
            assert(bad_reference(*inv, k as int) == Some(message@));
            return Err(message);
        }
        if !list_has(&inv.chassis, v.chassis_id.as_str()) {
            let message = reference_error(id, "chassis", &v.chassis_id);
            assert(bad_reference(*inv, k as int) == Some(message@));
            return Err(message);
        }
        if !list_has(&inv.engines, v.engine_id.as_str()) {
            let message = reference_error(id, "engine", &v.engine_id);
            assert(bad_reference(*inv, k as int) == Some(message@));
            return Err(message);
        }
        if !list_has(&inv.tires, v.tire_id.as_str()) {
            let message = reference_error(id, "tire", &v.tire_id);
            assert(bad_reference(*inv, k as int) == Some(message@));
            return Err(message);
        }
        k = k + 1;
    }
    Ok(())
}

/// Index of the driver resource keyed `key`, or the number of resources.
pub open spec fn driver_key_index(drivers: Seq<(String, String)>, key: Seq<char>, k: int) -> int
    decreases drivers.len() - k,
{
    if k < 0 || k >= drivers.len() {
        drivers.len() as int
    } else if drivers[k].0@ == key {
        k
    } else {
        driver_key_index(drivers, key, k + 1)
    }
}

/// Finds the V2 driver resource of a competitor in the resources given as
/// (map key, embedded id) pairs: the competitor must name a driver, the key
/// must exist and the resource's embedded id must equal it.
pub fn driver_resource_for_competitor(
    drivers: &Vec<(String, String)>,
    competitor_id: &str,
    driver_id: Option<&str>,
) -> (out: Result<usize, String>)
    ensures
        match driver_id {
            None => out matches Err(e) && e@ == "V3 driver-control candidate requires driver_id for competitor "@ + competitor_id@,
            Some(d) => {
                let i = driver_key_index(drivers@, d@, 0);
                if i >= drivers@.len() {
                    out matches Err(e) && e@ == "missing V2 driver resource "@ + debug_text(d@) + " for competitor "@ + competitor_id@
                } else if drivers@[i].1@ != d@ {
                    out matches Err(e) && e@ == "V2 driver resource key "@ + debug_text(d@) + " does not match embedded id "@ + debug_text(drivers@[i].1@)
                } else {
                    out == Ok::<usize, String>(i as usize)
                }
            },
        },
{
    let d = match driver_id {
        None => {
            let mut message = String::from_str("V3 driver-control candidate requires driver_id for competitor ");
            message.append(competitor_id);
            return Err(message);
        },
        Some(d) => d,
    };
    let mut k: usize = 0;
    while k < drivers.len() && !same_text(drivers[k].0.as_str(), d)
        invariant
            0 <= k <= drivers.len(),
            driver_key_index(drivers@, d@, 0) == driver_key_index(drivers@, d@, k as int),
        decreases drivers.len() - k,
    {
        k = k + 1;
    }
    if k >= drivers.len() {
        let mut message = String::from_str("missing V2 driver resource ");
        let quoted = debug_quote(d);
        message.append(quoted.as_str());
        message.append(" for competitor ");
        message.append(competitor_id);
        return Err(message);
    }
    if !same_text(drivers[k].1.as_str(), d) {
        let mut message = String::from_str("V2 driver resource key ");
        let quoted = debug_quote(d);
        message.append(quoted.as_str());
        message.append(" does not match embedded id ");
        let embedded = debug_quote(drivers[k].1.as_str());
        message.append(embedded.as_str());
        return Err(message);
    }
    Ok(k)
}

/// Index of the tire `id` in the catalog's tire list, or its length.
pub open spec fn tire_index(tires: Seq<String>, id: Seq<char>, k: int) -> int
    decreases tires.len() - k,
{
    if k < 0 || k >= tires.len() {
        tires.len() as int
    } else if tires[k]@ == id {
        k
    } else {
        tire_index(tires, id, k + 1)
    }
}

/// Looks a tire up by id.
pub fn resolve_tire(tires: &Vec<String>, tire_id: &str) -> (out: Result<usize, String>)
    ensures
        ({
            let i = tire_index(tires@, tire_id@, 0);
            if i < tires@.len() {
                out == Ok::<usize, String>(i as usize)
            } else {
                out matches Err(e) && e@ == unknown_message("tire"@, tire_id@)
            }
        }),
{
    let mut k: usize = 0;
    while k < tires.len() && !same_text(tires[k].as_str(), tire_id)
        invariant
            0 <= k <= tires.len(),
            tire_index(tires@, tire_id@, 0) == tire_index(tires@, tire_id@, k as int),
        decreases tires.len() - k,
    {
        k = k + 1;
    }
    if k < tires.len() {
        return Ok(k);
    }
    let mut message = String::from_str("unknown ");
    message.append("tire");
    message.append(" '");
    message.append(tire_id);
    message.append("'");
    Err(message)
}

/// The pit loss of a session: the configured loss, at least one second, or
/// the circuit's own.
pub fn resolve_pit_loss_ms(configured: Option<u64>, track_pit_loss_ms: u64) -> (ms: u64)
    ensures
        ms == match configured {
            Some(v) => if v < 1000 {
                1000
            } else {
                v
            },
            None => track_pit_loss_ms,
        },
{
    match configured {
        Some(v) => if v < 1000 {
            1000
        } else {
            v
        },
        None => track_pit_loss_ms,
    }
}

/// Laps a finished competitor is credited with: the session's laps, at least
/// one.
pub fn laps_completed(session_laps: u16) -> (laps: u16)
    ensures
        laps == if session_laps < 1 {
            1
        } else {
            session_laps
        },
{
    if session_laps < 1 {
        1
    } else {
        session_laps
    }
}

} // verus!
