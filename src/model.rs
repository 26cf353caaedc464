use vstd::prelude::*;

use crate::angle::{is_longitude, normalize_longitude, wrap};
use crate::entity::{Angle, Body};
use crate::error::ChartError;

verus! {

/// A body as placed by the ephemeris. Longitude and latitude are in
/// micro-degrees, speed in micro-degrees per day.
#[derive(Clone, Copy, PartialEq, Eq, Structural, Debug)]
pub struct CelestialBody {
    pub body: Body,
    pub longitude: i64,
    pub latitude: i64,
    pub speed: i64,
}

/// The bodies, house cusps and angles of one chart. `houses[k]` is the cusp of
/// house `k + 1`.
#[derive(Clone, Debug)]
pub struct ChartModel {
    pub bodies: Vec<CelestialBody>,
    pub houses: Vec<i64>,
    pub ascendant: i64,
    pub imum_coeli: i64,
    pub descendant: i64,
    pub midheaven: i64,
}

/// No body is placed twice.
pub open spec fn distinct_bodies(s: Seq<CelestialBody>) -> bool {
    forall|i: int, j: int| 0 <= i < j < s.len() ==> s[i].body != s[j].body
}

/// A body with its longitude brought into `[0, FULL_TURN)`.
pub open spec fn normalized(c: CelestialBody) -> CelestialBody {
    CelestialBody {
        body: c.body,
        longitude: wrap(c.longitude as int) as i64,
        latitude: c.latitude,
        speed: c.speed,
    }
}

impl ChartModel {
    /// Twelve cusps, every longitude normalized, and each body placed once.
    pub open spec fn wf(&self) -> bool {
        &&& self.houses.len() == 12
        &&& forall|k: int| 0 <= k < self.houses.len() ==> is_longitude(#[trigger] self.houses[k] as int)
        &&& forall|k: int|
            0 <= k < self.bodies.len() ==> is_longitude(#[trigger] self.bodies[k].longitude as int)
        &&& distinct_bodies(self.bodies@)
        &&& is_longitude(self.ascendant as int)
        &&& is_longitude(self.imum_coeli as int)
        &&& is_longitude(self.descendant as int)
        &&& is_longitude(self.midheaven as int)
    }

    pub open spec fn angle_longitude(&self, a: Angle) -> i64 {
        match a {
            Angle::Ascendant => self.ascendant,
            Angle::ImumCoeli => self.imum_coeli,
            Angle::Descendant => self.descendant,
            Angle::Midheaven => self.midheaven,
        }
    }

    /// The longitude of an angle.
    pub fn longitude_of_angle(&self, a: Angle) -> (r: i64)
        ensures
            r == self.angle_longitude(a),
    {
        match a {
            Angle::Ascendant => self.ascendant,
            Angle::ImumCoeli => self.imum_coeli,
            Angle::Descendant => self.descendant,
            Angle::Midheaven => self.midheaven,
        }
    }

    /// Builds a chart from what the ephemeris returned, normalizing every
    /// longitude. Fails with `InputValidation` unless there are exactly twelve
    /// cusps and no body comes twice.
    pub fn new(
        bodies: Vec<CelestialBody>,
        houses: Vec<i64>,
        ascendant: i64,
        imum_coeli: i64,
        descendant: i64,
        midheaven: i64,
    ) -> (r: Result<ChartModel, ChartError>)
        ensures
            houses.len() == 12 && distinct_bodies(bodies@) ==> (r matches Ok(m) && m.wf()
                && m.bodies@ == bodies@.map_values(|c: CelestialBody| normalized(c))
                && m.houses@ == houses@.map_values(|h: i64| wrap(h as int) as i64)
                && m.ascendant == wrap(ascendant as int) && m.imum_coeli == wrap(
                imum_coeli as int,
            ) && m.descendant == wrap(descendant as int) && m.midheaven == wrap(
                midheaven as int,
            )),
            !(houses.len() == 12 && distinct_bodies(bodies@)) ==> r == Err::<ChartModel, ChartError>(
                ChartError::InputValidation,
            ),
    {
        if houses.len() != 12 {
            return Err(ChartError::InputValidation);
        }
        let mut nb: Vec<CelestialBody> = Vec::new();
        let mut i: usize = 0;
        while i < bodies.len()
            invariant
                0 <= i <= bodies.len(),
                nb@ == bodies@.take(i as int).map_values(|c: CelestialBody| normalized(c)),
                distinct_bodies(bodies@.take(i as int)),
            decreases bodies.len() - i,
        {
            let c = bodies[i];
            let mut j: usize = 0;
            while j < i
                invariant
                    0 <= j <= i < bodies.len(),
                    forall|k: int| 0 <= k < j ==> bodies@[k].body != c.body,
                    c == bodies@[i as int],
                decreases i - j,
            {
                if bodies[j].body == c.body {
                    proof {
                        assert(bodies@[j as int].body == bodies@[i as int].body);
                        assert(!distinct_bodies(bodies@));
                    }
                    return Err(ChartError::InputValidation);
                }
                j = j + 1;
            }
            let lon = normalize_longitude(c.longitude);
            nb.push(CelestialBody { body: c.body, longitude: lon, latitude: c.latitude, speed: c.speed });
            proof {
                assert(bodies@.take(i + 1).drop_last() =~= bodies@.take(i as int));
                assert(nb@ =~= bodies@.take(i + 1).map_values(|c: CelestialBody| normalized(c)));
            }
            i = i + 1;
        }
        assert(bodies@.take(bodies.len() as int) =~= bodies@);
        let mut nh: Vec<i64> = Vec::new();
        let mut k: usize = 0;
        while k < houses.len()
            invariant
                0 <= k <= houses.len(),
                nh@ == houses@.take(k as int).map_values(|h: i64| wrap(h as int) as i64),
            decreases houses.len() - k,
        {
            let h = normalize_longitude(houses[k]);
            nh.push(h);
            proof {
                assert(nh@ =~= houses@.take(k + 1).map_values(|h: i64| wrap(h as int) as i64));
            }
            k = k + 1;
        }
        assert(houses@.take(houses.len() as int) =~= houses@);
        let m = ChartModel {
            bodies: nb,
            houses: nh,
            ascendant: normalize_longitude(ascendant),
            imum_coeli: normalize_longitude(imum_coeli),
            descendant: normalize_longitude(descendant),
            midheaven: normalize_longitude(midheaven),
        };
        proof {
            assert forall|k: int| 0 <= k < m.houses.len() implies is_longitude(
                #[trigger] m.houses[k] as int,
            ) by {
                crate::angle::lemma_wrap_range(houses@[k] as int);
            }
            assert forall|k: int| 0 <= k < m.bodies.len() implies is_longitude(
                #[trigger] m.bodies[k].longitude as int,
            ) by {
                crate::angle::lemma_wrap_range(bodies@[k].longitude as int);
            }
        }
        Ok(m)
    }
}

} // verus!
