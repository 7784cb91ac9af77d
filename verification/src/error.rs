use vstd::prelude::*;

verus! {

/// What a constructor reports when it cannot build a matrix.
#[derive(Debug, Clone, Copy, PartialEq, Eq, Structural)]
pub enum Error {
    /// Supplied matrix has invalid dimensions.
    InvalidDimensions,
}

impl Error {
    /// A short description of the error.
    pub fn description(&self) -> (r: &'static str)
        ensures
            r@ == "Supplied matrix has invalid dimensions"@,
    {
        match self {
            Error::InvalidDimensions => "Supplied matrix has invalid dimensions",
        }
    }
}

} // verus!
