//! A WebAssembly interpreter whose decoder, validator and execution engine
//! are verified with Verus, together with the report comparison that its CI
//! uses.
//!
//! The pipeline has three steps, each with an exact contract:
//! - `validation::validate` decodes the bytes of a module and checks them; it
//!   returns a `ValidationInfo` for a valid module and the first error for any
//!   other input;
//! - `instance::RuntimeInstance::instantiate` sets up the globals, the memory
//!   and the tables of a validated module and runs its start function;
//! - `instance::RuntimeInstance::invoke_func` calls a function of the
//!   instance with values from the host.
//!
//! What the instructions mean is defined in `execution`, `numeric` and
//! `memory`. That validated code never misses an operand at run time is
//! proved in `soundness`; what else holds of the pipeline is stated in `laws`.
//!
//! Floating-point values are carried by their bits; floating-point
//! arithmetic is not part of the instruction set here.

pub mod ci_reports;
pub mod deltas;
pub mod error;
pub mod execution;
pub mod instance;
pub mod instr;
pub mod laws;
pub mod memory;
pub mod module;
pub mod numeric;
pub mod reader;
pub mod section_header;
pub mod soundness;
pub mod types;
pub mod typing;
pub mod validation;
