# pitgun_racing

The verified decision logic of the Pitgun Racing simulator and lap solver,
written in Verus.

`src/` holds the decisions that stand apart from the floating-point physics
and from the contract and runtime types of the wider workspace: stint plans
and pit stops, race classification, the local pull-session registry and its JSON answers,
catalog release coverage and resource selection, vehicle composition,
circuit identifiers, reviewed thermal-family profiles, experiment-profile
shapes and the model identity each profile selects, model identities and
workload selection, the admission of an authorized dynamic race, and the integer steps of
the solver (sequential gearbox, tire per lap, deterministic noise seeds).
Each public function states its result in `ensures`; the laws that relate
several operations are public proof functions beside them.

`app/` is the host side: serde shapes of the library types, the
thread-local session registry of the browser facade, and the
floating-point solver steps that call into the library. The race runners,
the catalog snapshot and the incremental engine are built on the
workspace's contract and runtime crates and are not part of this crate.

`tests/` exercises the library on concrete values.
