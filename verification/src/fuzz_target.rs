//! Generic fuzz targets for unstructured data.

use vstd::prelude::*;

use crate::value_generator::ValueGenerator;

verus! {

/// Represents a generic fuzz target for unstructured data.
pub trait FuzzTarget {
    /// Returns the name of the fuzz target.
    fn name(&self) -> &'static str;

    /// Returns a description for this fuzz target.
    fn description(&self) -> &'static str;

    /// Generates a new example for this target to store in the corpus.
    ///
    /// Returns `Some(bytes)` if a value is generated, or `None` if no value
    /// can be generated.
    fn generate(&self, ctx: &mut GenerateContext) -> Option<Vec<u8>>;

    /// Fuzz the target using the given random data. The fuzzer tests for
    /// panics or OOMs with this method.
    fn fuzz(&self, data: &[u8]);
}

/// Context for generating values in `FuzzTarget` instances.
pub struct GenerateContext {
    index: usize,
    value_generator: ValueGenerator,
}

impl GenerateContext {
    /// The current index of the item being generated, starting from 0.
    pub closed spec fn spec_index(&self) -> usize {
        self.index
    }

    /// The generator this context holds.
    pub closed spec fn spec_generator(&self) -> ValueGenerator {
        self.value_generator
    }

    /// Returns the current index of the item being generated, starting
    /// from 0.
    pub fn index(&self) -> (r: usize)
        ensures
            r == self.spec_index(),
    {
        self.index
    }

    /// Returns a `ValueGenerator`, which can be used with an engine strategy
    /// to generate random values.
    ///
    /// This is best suited for *unstructured* fuzzing, where the fuzzer is
    /// expected to identify patterns by using a corpus.
    pub fn value_generator(&mut self) -> (r: &mut ValueGenerator)
        ensures
            *r == old(self).spec_generator(),
            final(self).spec_index() == old(self).spec_index(),
            final(self).spec_generator() == *final(r),
    {
        &mut self.value_generator
    }

    /// Creates a new instance.
    pub fn new() -> (r: GenerateContext)
        ensures
            r.spec_index() == 0,
    {
        GenerateContext { index: 0, value_generator: ValueGenerator::new() }
    }

    /// Increments the index; the generator is untouched.
    pub fn increment(&mut self)
        requires
            old(self).spec_index() < usize::MAX,
        ensures
            final(self).spec_index() == old(self).spec_index() + 1,
            final(self).spec_generator() == old(self).spec_generator(),
    {
        self.index = self.index + 1;
    }
}

} // verus!
