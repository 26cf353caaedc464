use vstd::prelude::*;

use crate::entity::Body;

verus! {

/// What can go wrong while a chart is prepared.
#[derive(Clone, Copy, PartialEq, Eq, Structural, Debug)]
pub enum ChartError {
    /// The ephemeris search path is longer than the ephemeris accepts, or
    /// holds a NUL byte.
    Configuration,
    /// A birth date, a time or a coordinate is out of range, or the
    /// ephemeris results do not form a chart.
    InputValidation,
    /// The ephemeris could not compute the position of this body at this
    /// julian day (in micro-days).
    GatewayFailure(Body, i64),
    /// An aspect definition has a negative orb or a target outside `[0, HALF_TURN]`.
    CatalogMismatch,
}

} // verus!
