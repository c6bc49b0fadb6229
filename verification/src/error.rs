use vstd::prelude::*;

verus! {

/// Every way an operation of the engine can fail.
#[derive(Clone, Copy, Debug, PartialEq, Eq, Structural)]
pub enum EngineError {
    /// A state change is stale, or addressed to another pool.
    StateDesync,
    /// Integer arithmetic left the 256-bit range of the venue.
    ArithmeticOverflow,
    /// The trade cannot be filled from the liquidity on hand.
    InsufficientLiquidity,
    /// An edge was to be attached to a node that the graph does not hold.
    InvalidGraphReference,
    /// The trade does not return more than was put in.
    NoProfitableCycle,
    /// The search for the best trade size did not settle.
    ConvergenceFailure,
}

impl EngineError {
    /// The name of the error kind, for messages.
    pub fn name(&self) -> (s: &'static str)
        ensures
            s@.len() > 0,
    {
        match self {
            EngineError::StateDesync => {
                proof { reveal_strlit("StateDesyncError"); }
                "StateDesyncError"
            },
            EngineError::ArithmeticOverflow => {
                proof { reveal_strlit("ArithmeticOverflow"); }
                "ArithmeticOverflow"
            },
            EngineError::InsufficientLiquidity => {
                proof { reveal_strlit("InsufficientLiquidity"); }
                "InsufficientLiquidity"
            },
            EngineError::InvalidGraphReference => {
                proof { reveal_strlit("InvalidGraphReference"); }
                "InvalidGraphReference"
            },
            EngineError::NoProfitableCycle => {
                proof { reveal_strlit("NoProfitableCycle"); }
                "NoProfitableCycle"
            },
            EngineError::ConvergenceFailure => {
                proof { reveal_strlit("ConvergenceFailure"); }
                "ConvergenceFailure"
            },
        }
    }
}

} // verus!
