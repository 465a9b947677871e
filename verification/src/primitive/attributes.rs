use crate::error::DnnlError;
use vstd::prelude::*;

verus! {

/// How a primitive accumulates partial results.
#[derive(Debug, Clone, Copy, PartialEq, Eq, Structural)]
pub enum AccumulationMode {
    /// Full-precision accumulation, the default.
    Strict,
    /// Partial accumulators may be rounded to the memory data type.
    Relaxed,
    /// The fastest available accumulation.
    Any,
    /// 32-bit integer accumulators.
    S32,
    /// 32-bit floating-point accumulators.
    F32,
    /// 16-bit floating-point accumulators.
    F16,
}

/// Optional tunables attached to one operation instance.
#[derive(Debug)]
pub struct PrimitiveAttributes {
    pub accumulation_mode: AccumulationMode,
    pub deterministic: bool,
}

impl PrimitiveAttributes {
    /// Creates an attribute set with the defaults: strict accumulation,
    /// non-deterministic execution allowed.
    pub fn new() -> (r: Result<PrimitiveAttributes, DnnlError>)
        ensures
            r matches Ok(a) && a.accumulation_mode == AccumulationMode::Strict
                && !a.deterministic,
    {
        Ok(
            PrimitiveAttributes {
                accumulation_mode: AccumulationMode::Strict,
                deterministic: false,
            },
        )
    }

    /// The accumulation mode currently set.
    pub fn get_accumulation_mode(&self) -> (r: Result<AccumulationMode, DnnlError>)
        ensures
            r == Ok::<AccumulationMode, DnnlError>(self.accumulation_mode),
    {
        Ok(self.accumulation_mode)
    }

    /// Sets the accumulation mode.
    pub fn set_accumulation_mode(&mut self, mode: AccumulationMode) -> (r: Result<(), DnnlError>)
        ensures
            r == Ok::<(), DnnlError>(()),
            final(self).accumulation_mode == mode,
            final(self).deterministic == old(self).deterministic,
    {
        self.accumulation_mode = mode;
        Ok(())
    }

    /// The deterministic flag currently set.
    pub fn get_deterministic(&self) -> (r: Result<bool, DnnlError>)
        ensures
            r == Ok::<bool, DnnlError>(self.deterministic),
    {
        Ok(self.deterministic)
    }

    /// Sets the deterministic flag.
    pub fn set_deterministic(&mut self, deterministic: bool) -> (r: Result<(), DnnlError>)
        ensures
            r == Ok::<(), DnnlError>(()),
            final(self).deterministic == deterministic,
            final(self).accumulation_mode == old(self).accumulation_mode,
    {
        self.deterministic = deterministic;
        Ok(())
    }
}

} // verus!
