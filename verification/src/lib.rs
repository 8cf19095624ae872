//! Structured control plans, destruction recipes and the dynamic monitor of the Sable language,
//! with the pure parts of its diagnostics, its installation check and its proof daemon.

pub mod repr;
pub mod text;
pub mod bindings;
pub mod span;
pub mod ast;
pub mod place;
pub mod flow;
pub mod outline;
pub mod outline_laws;
pub mod drops;
pub mod traps;
pub mod plan;
pub mod lookup;
pub mod builder;
pub mod inventory;
pub mod structure;
pub mod reconcile;
pub mod seal;
pub mod seal_laws;
pub mod ledger_laws;
pub mod program;
pub mod gates;
pub mod value;
pub mod heap;
pub mod heap_laws;
pub mod render;
pub mod monitor;
pub mod slots;
pub mod rawheap;
pub mod devices;
pub mod machine;
pub mod steps;
pub mod effects;
pub mod semantics;
pub mod callable;
pub mod interp;
pub mod operators;
pub mod calls;
pub mod execute;
pub mod lines;
pub mod diag;
pub mod run;
pub mod scan;
pub mod text_laws;
pub mod line_laws;
pub mod diag_laws;
pub mod doctor;
pub mod doctor_laws;
pub mod json;
pub mod wire;
pub mod daemon;
pub mod daemon_laws;
pub mod session;
pub mod serve;
pub mod session_laws;
pub mod plan_laws;
pub mod run_laws;
pub mod monitor_laws;
pub mod contract_laws;
pub mod control_laws;
pub mod gate_laws;
pub mod device_laws;
pub mod eval_laws;
pub mod trap_laws;
pub mod stmt_laws;
pub mod drop_laws;
pub mod frame_laws;
pub mod value_laws;
