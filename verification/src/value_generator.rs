//! Deterministic value generation for unstructured fuzzing.

use vstd::prelude::*;

verus! {

/// A deterministic source of engine-generated values, used with the
/// engine's strategies to produce corpus examples.
pub struct ValueGenerator {
    pub runner: proptest::test_runner::TestRunner,
}

impl ValueGenerator {
    /// A fresh generator.
    ///
    /// Relies on `proptest::test_runner::TestRunner::deterministic`: a
    /// runner seeded with the engine's fixed deterministic seed.
    #[verifier::external_body]
    pub(crate) fn new() -> ValueGenerator {
        ValueGenerator { runner: proptest::test_runner::TestRunner::deterministic() }
    }

    /// The underlying engine runner, for running strategies against.
    pub fn runner(&mut self) -> (r: &mut proptest::test_runner::TestRunner)
        ensures
            *r == old(self).runner,
            *final(self) == (ValueGenerator { runner: *final(r) }),
    {
        &mut self.runner
    }
}

} // verus!
