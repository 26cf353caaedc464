use vstd::prelude::*;

verus! {

/// The bodies that a chart can place.
#[derive(Clone, Copy, PartialEq, Eq, Structural, Debug, Hash)]
pub enum Body {
    Sun,
    Moon,
    Mercury,
    Venus,
    Mars,
    Jupiter,
    Saturn,
    Uranus,
    Neptune,
    Pluto,
    Chiron,
    MeanNode,
    TrueNode,
    Lilith,
    FortunaPart,
    Ceres,
    Pallas,
    Juno,
    Vesta,
}

/// The category of a body.
#[derive(Clone, Copy, PartialEq, Eq, Structural, Debug, Hash)]
pub enum Category {
    PlanetOrStar,
    Fiction,
    Other,
}

/// How the ephemeris has to compute a body's position.
#[derive(Clone, Copy, PartialEq, Eq, Structural, Debug, Hash)]
pub enum Formula {
    /// The ordinary position call for the body.
    Generic,
    /// A point whose position depends on the natal house system.
    HouseDependent,
}

/// The cardinal points of a chart.
#[derive(Clone, Copy, PartialEq, Eq, Structural, Debug, Hash)]
pub enum Angle {
    Ascendant,
    ImumCoeli,
    Descendant,
    Midheaven,
}

/// The twelve zodiac signs, in their fixed order.
#[derive(Clone, Copy, PartialEq, Eq, Structural, Debug, Hash)]
pub enum Sign {
    Aries,
    Taurus,
    Gemini,
    Cancer,
    Leo,
    Virgo,
    Libra,
    Scorpio,
    Sagittarius,
    Capricorn,
    Aquarius,
    Pisces,
}

pub open spec fn spec_category(b: Body) -> Category {
    match b {
        Body::Sun | Body::Moon | Body::Mercury | Body::Venus | Body::Mars | Body::Jupiter
        | Body::Saturn | Body::Uranus | Body::Neptune | Body::Pluto | Body::Chiron => {
            Category::PlanetOrStar
        },
        Body::MeanNode | Body::TrueNode | Body::Lilith | Body::FortunaPart => Category::Fiction,
        Body::Ceres | Body::Pallas | Body::Juno | Body::Vesta => Category::Other,
    }
}

/// Every body, in enumeration order.
pub open spec fn every_body() -> Seq<Body> {
    seq![
        Body::Sun,
        Body::Moon,
        Body::Mercury,
        Body::Venus,
        Body::Mars,
        Body::Jupiter,
        Body::Saturn,
        Body::Uranus,
        Body::Neptune,
        Body::Pluto,
        Body::Chiron,
        Body::MeanNode,
        Body::TrueNode,
        Body::Lilith,
        Body::FortunaPart,
        Body::Ceres,
        Body::Pallas,
        Body::Juno,
        Body::Vesta,
    ]
}

/// Whether the ephemeris is asked for a body's position.
pub open spec fn is_queried(b: Body) -> bool {
    spec_category(b) == Category::PlanetOrStar || spec_category(b) == Category::Fiction
}

/// Every zodiac sign, in order.
pub open spec fn every_sign() -> Seq<Sign> {
    seq![
        Sign::Aries,
        Sign::Taurus,
        Sign::Gemini,
        Sign::Cancer,
        Sign::Leo,
        Sign::Virgo,
        Sign::Libra,
        Sign::Scorpio,
        Sign::Sagittarius,
        Sign::Capricorn,
        Sign::Aquarius,
        Sign::Pisces,
    ]
}

/// Every chart angle, in drawing order.
pub open spec fn every_angle() -> Seq<Angle> {
    seq![Angle::Ascendant, Angle::ImumCoeli, Angle::Descendant, Angle::Midheaven]
}

impl Body {
    /// The category of this body.
    pub fn category(&self) -> (r: Category)
        ensures
            r == spec_category(*self),
    {
        match self {
            Body::Sun | Body::Moon | Body::Mercury | Body::Venus | Body::Mars | Body::Jupiter
            | Body::Saturn | Body::Uranus | Body::Neptune | Body::Pluto | Body::Chiron => {
                Category::PlanetOrStar
            },
            Body::MeanNode | Body::TrueNode | Body::Lilith | Body::FortunaPart => {
                Category::Fiction
            },
            Body::Ceres | Body::Pallas | Body::Juno | Body::Vesta => Category::Other,
        }
    }

    /// Which ephemeris computation gives this body's position.
    pub fn formula(&self) -> (r: Formula)
        ensures
            r == (if *self == Body::FortunaPart {
                Formula::HouseDependent
            } else {
                Formula::Generic
            }),
    {
        match self {
            Body::FortunaPart => Formula::HouseDependent,
            _ => Formula::Generic,
        }
    }
}

/// Every body, in enumeration order.
pub fn all_bodies() -> (r: Vec<Body>)
    ensures
        r@ == every_body(),
{
    let r = vec![
        Body::Sun,
        Body::Moon,
        Body::Mercury,
        Body::Venus,
        Body::Mars,
        Body::Jupiter,
        Body::Saturn,
        Body::Uranus,
        Body::Neptune,
        Body::Pluto,
        Body::Chiron,
        Body::MeanNode,
        Body::TrueNode,
        Body::Lilith,
        Body::FortunaPart,
        Body::Ceres,
        Body::Pallas,
        Body::Juno,
        Body::Vesta,
    ];
    assert(r@ =~= every_body());
    r
}

/// The bodies whose positions are asked of the ephemeris: those of category
/// `PlanetOrStar` or `Fiction`, in enumeration order.
pub fn bodies_to_query() -> (r: Vec<Body>)
    ensures
        r@ == every_body().filter(|b: Body| is_queried(b)),
{
    let all = all_bodies();
    let mut r: Vec<Body> = Vec::new();
    let mut i: usize = 0;
    while i < all.len()
        invariant
            all@ == every_body(),
            0 <= i <= all.len(),
            r@ == every_body().take(i as int).filter(|b: Body| is_queried(b)),
        decreases all.len() - i,
    {
        let b = all[i];
        let c = b.category();
        proof {
            reveal(Seq::filter);
            assert(every_body().take(i + 1).drop_last() =~= every_body().take(i as int));
        }
        if c == Category::PlanetOrStar || c == Category::Fiction {
            r.push(b);
        }
        i = i + 1;
    }
    assert(every_body().take(all.len() as int) =~= every_body());
    r
}

/// Every zodiac sign, in order.
pub fn all_signs() -> (r: Vec<Sign>)
    ensures
        r@ == every_sign(),
{
    let r = vec![
        Sign::Aries,
        Sign::Taurus,
        Sign::Gemini,
        Sign::Cancer,
        Sign::Leo,
        Sign::Virgo,
        Sign::Libra,
        Sign::Scorpio,
        Sign::Sagittarius,
        Sign::Capricorn,
        Sign::Aquarius,
        Sign::Pisces,
    ];
    assert(r@ =~= every_sign());
    r
}

/// Every chart angle, in drawing order.
pub fn all_angles() -> (r: Vec<Angle>)
    ensures
        r@ == every_angle(),
{
    let r = vec![Angle::Ascendant, Angle::ImumCoeli, Angle::Descendant, Angle::Midheaven];
    assert(r@ =~= every_angle());
    r
}

} // verus!
