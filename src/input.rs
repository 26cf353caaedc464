use vstd::prelude::*;
use vstd::string::StringSliceAdditionalSpecFns;

use crate::entity::Body;
use crate::error::ChartError;
use crate::model::CelestialBody;

verus! {

/// The longest ephemeris search path, in bytes, that the ephemeris accepts.
pub const MAX_EPHE_PATH_LEN: usize = 255;

/// The first year that the ephemeris covers.
pub const MIN_YEAR: i32 = -13200;

/// The last year that the ephemeris covers.
pub const MAX_YEAR: i32 = 17190;

/// Micro-degrees in one degree.
pub const MICRO: i64 = 1_000_000;

/// A birth date and time, with the place as latitude and longitude in
/// micro-degrees. Seconds are given in microseconds.
#[derive(Clone, Copy, PartialEq, Eq, Structural, Debug)]
pub struct BirthData {
    pub year: i32,
    pub month: i32,
    pub day: i32,
    pub hour: i32,
    pub min: i32,
    pub sec_micros: i64,
    pub lat: i64,
    pub lng: i64,
}

pub open spec fn is_leap_year(y: int) -> bool {
    y % 4 == 0 && (y % 100 != 0 || y % 400 == 0)
}

/// Days in a month of the Gregorian calendar (`month` in 1..=12).
pub open spec fn month_length(y: int, month: int) -> int {
    if month == 2 {
        if is_leap_year(y) {
            29
        } else {
            28
        }
    } else if month == 4 || month == 6 || month == 9 || month == 11 {
        30
    } else {
        31
    }
}

pub open spec fn valid_birth(d: BirthData) -> bool {
    &&& MIN_YEAR <= d.year <= MAX_YEAR
    &&& 1 <= d.month <= 12
    &&& 1 <= d.day <= month_length(d.year as int, d.month as int)
    &&& 0 <= d.hour < 24
    &&& 0 <= d.min < 60
    &&& 0 <= d.sec_micros < 60 * MICRO
    &&& -90 * MICRO <= d.lat <= 90 * MICRO
    &&& -180 * MICRO <= d.lng <= 180 * MICRO
}

/// Days in a month of the Gregorian calendar.
pub fn days_in_month(year: i32, month: i32) -> (r: i32)
    requires
        1 <= month <= 12,
    ensures
        r == month_length(year as int, month as int),
{
    if month == 2 {
        if year % 4 == 0 && (year % 100 != 0 || year % 400 == 0) {
            29
        } else {
            28
        }
    } else if month == 4 || month == 6 || month == 9 || month == 11 {
        30
    } else {
        31
    }
}

impl BirthData {
    /// Checks the date, the time and the coordinates before the ephemeris is asked.
    pub fn validate(&self) -> (r: Result<(), ChartError>)
        ensures
            valid_birth(*self) ==> r == Ok::<(), ChartError>(()),
            !valid_birth(*self) ==> r == Err::<(), ChartError>(ChartError::InputValidation),
    {
        if self.year < MIN_YEAR || self.year > MAX_YEAR || self.month < 1 || self.month > 12 {
            return Err(ChartError::InputValidation);
        }
        if self.day < 1 || self.day > days_in_month(self.year, self.month) {
            return Err(ChartError::InputValidation);
        }
        if self.hour < 0 || self.hour >= 24 || self.min < 0 || self.min >= 60 {
            return Err(ChartError::InputValidation);
        }
        if self.sec_micros < 0 || self.sec_micros >= 60 * MICRO {
            return Err(ChartError::InputValidation);
        }
        if self.lat < -90 * MICRO || self.lat > 90 * MICRO || self.lng < -180 * MICRO || self.lng
            > 180 * MICRO {
            return Err(ChartError::InputValidation);
        }
        Ok(())
    }
}

/// A path the ephemeris takes as it is: at most `MAX_EPHE_PATH_LEN` bytes,
/// none of them NUL (a C string would end there).
pub open spec fn acceptable_path(bytes: Seq<u8>) -> bool {
    bytes.len() <= MAX_EPHE_PATH_LEN && forall|k: int| 0 <= k < bytes.len() ==> bytes[k] != 0
}

/// Refuses an ephemeris search path that the ephemeris would cut short: one
/// longer than `MAX_EPHE_PATH_LEN` bytes, or one holding a NUL byte.
pub fn check_ephe_path(path: &str) -> (r: Result<(), ChartError>)
    ensures
        acceptable_path(path.spec_bytes()) ==> r == Ok::<(), ChartError>(()),
        !acceptable_path(path.spec_bytes()) ==> r == Err::<(), ChartError>(
            ChartError::Configuration,
        ),
{
    let bytes = path.as_bytes();
    if bytes.len() > MAX_EPHE_PATH_LEN {
        return Err(ChartError::Configuration);
    }
    let mut i: usize = 0;
    while i < bytes.len()
        invariant
            bytes@ == path.spec_bytes(),
            0 <= i <= bytes.len(),
            forall|k: int| 0 <= k < i ==> bytes@[k] != 0,
        decreases bytes.len() - i,
    {
        if bytes[i] == 0 {
            return Err(ChartError::Configuration);
        }
        i = i + 1;
    }
    Ok(())
}

/// A position as the ephemeris gives it, in micro-degrees (speed per day).
#[derive(Clone, Copy, PartialEq, Eq, Structural, Debug)]
pub struct Position {
    pub longitude: i64,
    pub latitude: i64,
    pub speed: i64,
}

/// What the ephemeris answered for one body: a position, or `None` where it
/// reported an error.
#[derive(Clone, Copy, PartialEq, Eq, Structural, Debug)]
pub struct BodyOutcome {
    pub body: Body,
    pub position: Option<Position>,
}

/// What to do when the ephemeris fails for some bodies.
#[derive(Clone, Copy, PartialEq, Eq, Structural, Debug)]
pub enum FailurePolicy {
    /// Fail the whole chart with the first failing body.
    Abort,
    /// Keep the bodies that were placed and list the others.
    Partial,
}

/// The bodies that were placed, and those the ephemeris failed on.
#[derive(Clone, Debug)]
pub struct GatheredBodies {
    pub placed: Vec<CelestialBody>,
    pub failed: Vec<Body>,
}

pub open spec fn placed_of(s: Seq<BodyOutcome>) -> Seq<CelestialBody>
    decreases s.len(),
{
    if s.len() == 0 {
        seq![]
    } else {
        let o = s.last();
        placed_of(s.drop_last()) + match o.position {
            Some(p) => seq![
                CelestialBody {
                    body: o.body,
                    longitude: p.longitude,
                    latitude: p.latitude,
                    speed: p.speed,
                },
            ],
            None => seq![],
        }
    }
}

pub open spec fn failed_of(s: Seq<BodyOutcome>) -> Seq<Body>
    decreases s.len(),
{
    if s.len() == 0 {
        seq![]
    } else {
        failed_of(s.drop_last()) + if s.last().position is None {
            seq![s.last().body]
        } else {
            seq![]
        }
    }
}

/// Sorts the ephemeris answers into placed and failed bodies, in their order.
/// `julian_day` is the moment asked for, in micro-days. Under `Abort` any
/// failure fails the whole chart, naming the first body that failed and the
/// julian day; under `Partial` the chart goes on with the bodies that were placed.
pub fn gather_bodies(
    outcomes: &Vec<BodyOutcome>,
    julian_day: i64,
    policy: FailurePolicy,
) -> (r: Result<
    GatheredBodies,
    ChartError,
>)
    ensures
        policy == FailurePolicy::Partial || failed_of(outcomes@).len() == 0 ==> (r matches Ok(g)
            && g.placed@ == placed_of(outcomes@) && g.failed@ == failed_of(outcomes@)),
        policy == FailurePolicy::Abort && failed_of(outcomes@).len() > 0 ==> r == Err::<
            GatheredBodies,
            ChartError,
        >(ChartError::GatewayFailure(failed_of(outcomes@)[0], julian_day)),
{
    let mut placed: Vec<CelestialBody> = Vec::new();
    let mut failed: Vec<Body> = Vec::new();
    let mut i: usize = 0;
    while i < outcomes.len()
        invariant
            0 <= i <= outcomes.len(),
            placed@ == placed_of(outcomes@.take(i as int)),
            failed@ == failed_of(outcomes@.take(i as int)),
        decreases outcomes.len() - i,
    {
        let o = outcomes[i];
        proof {
            assert(outcomes@.take(i + 1).drop_last() =~= outcomes@.take(i as int));
        }
        match o.position {
            Some(p) => {
                placed.push(
                    CelestialBody {
                        body: o.body,
                        longitude: p.longitude,
                        latitude: p.latitude,
                        speed: p.speed,
                    },
                );
            },
            None => {
                failed.push(o.body);
            },
        }
        i = i + 1;
        proof {
            assert(placed@ =~= placed_of(outcomes@.take(i as int)));
            assert(failed@ =~= failed_of(outcomes@.take(i as int)));
        }
    }
    assert(outcomes@.take(outcomes.len() as int) =~= outcomes@);
    match policy {
        FailurePolicy::Abort => {
            if failed.len() > 0 {
                return Err(ChartError::GatewayFailure(failed[0], julian_day));
            }
        },
        FailurePolicy::Partial => {},
    }
    Ok(GatheredBodies { placed, failed })
}

} // verus!
