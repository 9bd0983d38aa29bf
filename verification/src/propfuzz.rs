//! The target contract: what a compiled target specification exposes.

use vstd::prelude::*;

use crate::config::ProptestConfig;

verus! {

/// A failure reported by the property engine for one target run: either the
/// engine could not run the test at all, or it found and shrank a
/// counterexample.
#[derive(Debug)]
pub enum Failure<V> {
    Abort { reason: String },
    Fail { reason: String, value: V },
}

/// A structured fuzz target.
///
/// A type that implements `Propfuzz` can be used both as a standard
/// property-based test and as a target for structured, mutation-based
/// fuzzing. One implementation exists per compiled target, built from its
/// resolved specification; the runtime executor drives every target through
/// this one interface.
pub trait Propfuzz {
    /// The minimal counterexample type the engine shrinks to.
    type Value;

    /// The stable fully-qualified name of this target, used for test-name
    /// reporting and seed-file keys.
    fn name(&self) -> String;

    /// The human-readable description of this target.
    fn description(&self) -> String;

    /// The resolved configuration of this target; unset options are filled
    /// with the engine's defaults by the executor.
    fn proptest_config(&self) -> ProptestConfig {
        ProptestConfig::default()
    }

    /// Executes this target using the given engine runner: runs the resolved
    /// parameter strategies, binds generated values positionally to the
    /// parameter patterns, and evaluates the test body against them.
    fn execute(&self, test_runner: &mut proptest::test_runner::TestRunner) -> Result<
        (),
        Failure<Self::Value>,
    >;

    /// Renders a counterexample value for the failure report: each
    /// parameter's pattern and value, one per line, in declaration order.
    fn fmt_value(&self, value: &Self::Value) -> String;
}

} // verus!
