use vstd::prelude::*;

use crate::angle::HALF_TURN;
use crate::error::ChartError;

verus! {

/// A named angular relationship: a target separation and the tolerance (orb)
/// around it, both in micro-degrees.
#[derive(Clone, Debug)]
pub struct AspectDefinition {
    pub name: String,
    pub target: i64,
    pub orb: i64,
}

impl AspectDefinition {
    /// The target lies in `[0, HALF_TURN]` and the orb is not negative.
    pub open spec fn is_valid(&self) -> bool {
        0 <= self.target <= HALF_TURN && 0 <= self.orb
    }

    /// A definition, checked when it is loaded.
    pub fn new(name: String, target: i64, orb: i64) -> (r: Result<AspectDefinition, ChartError>)
        ensures
            0 <= target <= HALF_TURN && 0 <= orb ==> (r matches Ok(d) && d.name@ == name@
                && d.target == target && d.orb == orb),
            !(0 <= target <= HALF_TURN && 0 <= orb) ==> r == Err::<AspectDefinition, ChartError>(
                ChartError::CatalogMismatch,
            ),
    {
        if 0 <= target && target <= HALF_TURN && 0 <= orb {
            Ok(AspectDefinition { name, target, orb })
        } else {
            Err(ChartError::CatalogMismatch)
        }
    }
}

/// Every definition of the catalog is valid.
pub open spec fn valid_catalog(cat: Seq<AspectDefinition>) -> bool {
    forall|k: int| 0 <= k < cat.len() ==> (#[trigger] cat[k]).is_valid()
}

/// A separation matches a definition when it lies within the orb of its target.
pub open spec fn within_orb(separation: int, d: AspectDefinition) -> bool {
    let diff = separation - d.target;
    (if diff < 0 {
        -diff
    } else {
        diff
    }) <= d.orb
}

/// Whether every definition of a catalog is valid.
pub fn check_catalog(catalog: &Vec<AspectDefinition>) -> (r: bool)
    ensures
        r == valid_catalog(catalog@),
{
    let mut i: usize = 0;
    while i < catalog.len()
        invariant
            0 <= i <= catalog.len(),
            forall|k: int| 0 <= k < i ==> (#[trigger] catalog@[k]).is_valid(),
        decreases catalog.len() - i,
    {
        let d = &catalog[i];
        if !(0 <= d.target && d.target <= HALF_TURN && 0 <= d.orb) {
            return false;
        }
        i = i + 1;
    }
    true
}

/// Whether a separation (in `[0, HALF_TURN]`) matches a valid definition.
pub fn matches_definition(separation: i64, d: &AspectDefinition) -> (r: bool)
    requires
        0 <= separation <= HALF_TURN,
        d.is_valid(),
    ensures
        r == within_orb(separation as int, *d),
{
    let diff = separation - d.target;
    let dist = if diff < 0 {
        -diff
    } else {
        diff
    };
    dist <= d.orb
}

} // verus!
