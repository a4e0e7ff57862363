use vstd::prelude::*;

verus! {

/// Why an update to a plot was refused.
#[derive(Debug, Clone, Copy)]
pub enum PlotError {
    InvalidData(&'static str),
    OutOfBounds(&'static str),
    Other(&'static str),
}

impl PlotError {
    /// An error of unknown cause.
    pub fn new() -> (e: PlotError)
        ensures
            e matches PlotError::Other(m) && m@ == "Unknown error"@,
    {
        PlotError::Other("Unknown error")
    }

    /// The message the error carries (what it displays as).
    pub fn message(&self) -> (m: &'static str)
        ensures
            m == match *self {
                PlotError::InvalidData(x) => x,
                PlotError::OutOfBounds(x) => x,
                PlotError::Other(x) => x,
            },
    {
        match self {
            PlotError::InvalidData(msg) => msg,
            PlotError::OutOfBounds(msg) => msg,
            PlotError::Other(msg) => msg,
        }
    }
}

} // verus!
