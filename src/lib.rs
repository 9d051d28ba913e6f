//! Instrumentation of WebAssembly function bodies for metered, interruptible
//! execution: a breakpoint-signal pass that owns the "why did execution stop"
//! cell, a metering pass that charges every straight-line segment against a
//! budget and traps once it is spent, the cause taxonomy read back by the host,
//! and the orchestration that reserves the cells once per module and rewrites
//! each function body.
pub mod breakpoint_value;
pub mod breakpoints;
pub mod capi_error;
pub mod instr;
pub mod laws;
pub mod metering;
pub mod module_globals;
pub mod pipeline;
pub mod rewrite_error;
pub mod service;
