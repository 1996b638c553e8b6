//! Verified decision logic of the Pitgun Racing simulator and solver.

pub mod catalog;
pub mod components;
pub mod fuel_contract;
pub mod identity;
pub mod local_stream;
pub mod profile;
pub mod solver;
pub mod standings;
pub mod stint;
pub mod telemetry;
pub mod text;
pub mod track;
pub mod workload;
pub mod thermal_profile;
