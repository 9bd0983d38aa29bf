//! Toolkit that turns a declaratively annotated function description into a
//! runnable, structured property-based test target.
//!
//! The core of the crate is the configuration resolver: it merges possibly
//! repeated, possibly conflicting directives attached to one function and its
//! parameters into a single immutable target specification, collecting every
//! problem it finds in one pass instead of stopping at the first. A resolved
//! specification compiles to a target contract that the runtime executor
//! drives through the external property engine.

mod config;
mod errors;
mod fuzz_target;
mod propfuzz;
mod propfuzz_impl;
mod runtime;
mod text;
mod value_generator;

pub use config::{
    Directive, DirectiveArg, DirectiveValue, ParamConfig, ParamConfigBuilder, PropfuzzConfig,
    PropfuzzConfigBuilder, ProptestConfig, ResolvedConfig, StrategyExpr,
};
pub use errors::{DiagnosticKind, Error, ErrorList};
pub use fuzz_target::{FuzzTarget, GenerateContext};
pub use propfuzz::{Failure, Propfuzz};
pub use propfuzz_impl::{Attr, FnArg, FnDecl, PatType, PropfuzzFn, PropfuzzFnBody, PropfuzzParam};
pub use runtime::{execute_as_proptest, format_failure_value, outcome_of_execution, RunOutcome};
pub use text::{join_with_newlines, trim};
pub use value_generator::ValueGenerator;
