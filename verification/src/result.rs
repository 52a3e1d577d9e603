use vstd::prelude::*;

verus! {

/// Unifies the failures of a hive's operation.
///
/// The only failure expected at this layer is that shared state was left
/// behind by a worker that terminated abnormally (a poisoned lock in a
/// concurrent driver). The verified sequential engine never produces it,
/// which its contracts state; a concurrent driver built around the engine can
/// still surface it to its callers.
#[derive(Clone, Copy, Debug, PartialEq, Eq, Structural)]
pub struct Error;

impl Error {
    /// A short human-readable description of the failure.
    pub fn description(&self) -> (r: &'static str)
        ensures
            r@ == "One of the hive's workers panicked."@,
    {
        "One of the hive's workers panicked."
    }
}

/// Encodes the possibility of a worker terminating abnormally.
pub type AbcResult<T> = Result<T, Error>;

} // verus!
