use vstd::prelude::*;

verus! {

/// Why a setup or a simulation call was refused.
#[derive(Clone, Copy, Debug, PartialEq, Eq, Structural)]
pub enum GsimError {
    /// The generator set is empty, or holds only zero operators.
    DegenerateInput,
    /// A generator's dimension differs from that of the basis operators.
    BasisMismatch,
    /// Shapes of the state, observable, generators or coordinates disagree.
    DimensionMismatch,
    /// Circuit step `step` names generator `index`, which does not exist.
    IndexOutOfRange { step: usize, index: usize },
}

impl GsimError {
    /// A short description of the error.
    pub fn message(&self) -> (r: String) {
        match self {
            GsimError::DegenerateInput => "empty or all-zero generator set".to_string(),
            GsimError::BasisMismatch => "generator dimension does not match the basis".to_string(),
            GsimError::DimensionMismatch => "operator or coordinate dimensions disagree".to_string(),
            GsimError::IndexOutOfRange { .. } => "circuit names an unknown generator".to_string(),
        }
    }
}

} // verus!
