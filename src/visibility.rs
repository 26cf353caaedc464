use vstd::prelude::*;

use crate::entity::{spec_category, Angle, Body, Category};

verus! {

/// Which bodies and angles take part in drawing and in the aspect search.
/// Bodies of category `PlanetOrStar` always take part.
#[derive(Clone, Copy, PartialEq, Eq, Structural, Debug)]
pub struct VisibilityPolicy {
    pub show_fiction: bool,
    pub show_other: bool,
    pub show_ascendant: bool,
    pub show_imum_coeli: bool,
    pub show_descendant: bool,
    pub show_midheaven: bool,
}

pub open spec fn shows_body(p: VisibilityPolicy, b: Body) -> bool {
    match spec_category(b) {
        Category::PlanetOrStar => true,
        Category::Fiction => p.show_fiction,
        Category::Other => p.show_other,
    }
}

pub open spec fn shows_angle(p: VisibilityPolicy, a: Angle) -> bool {
    match a {
        Angle::Ascendant => p.show_ascendant,
        Angle::ImumCoeli => p.show_imum_coeli,
        Angle::Descendant => p.show_descendant,
        Angle::Midheaven => p.show_midheaven,
    }
}

impl VisibilityPolicy {
    /// All standard bodies, no fictitious points, and the Ascendant and the
    /// Midheaven as the only angles.
    pub fn standard() -> (r: VisibilityPolicy)
        ensures
            !r.show_fiction,
            !r.show_other,
            r.show_ascendant,
            r.show_midheaven,
            !r.show_imum_coeli,
            !r.show_descendant,
    {
        VisibilityPolicy {
            show_fiction: false,
            show_other: false,
            show_ascendant: true,
            show_imum_coeli: false,
            show_descendant: false,
            show_midheaven: true,
        }
    }

    /// Whether a body takes part.
    pub fn is_body_visible(&self, b: Body) -> (r: bool)
        ensures
            r == shows_body(*self, b),
    {
        match b.category() {
            Category::PlanetOrStar => true,
            Category::Fiction => self.show_fiction,
            Category::Other => self.show_other,
        }
    }

    /// Whether an angle takes part.
    pub fn is_angle_visible(&self, a: Angle) -> (r: bool)
        ensures
            r == shows_angle(*self, a),
    {
        match a {
            Angle::Ascendant => self.show_ascendant,
            Angle::ImumCoeli => self.show_imum_coeli,
            Angle::Descendant => self.show_descendant,
            Angle::Midheaven => self.show_midheaven,
        }
    }
}

} // verus!
