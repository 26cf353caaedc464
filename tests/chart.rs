use astro_chart::angle::{closest_distance, normalize_longitude, separation, FULL_TURN, HALF_TURN};
use astro_chart::catalog::{check_catalog, matches_definition, AspectDefinition};
use astro_chart::entity::{all_angles, all_bodies, all_signs, bodies_to_query, Angle, Body, Category, Formula, Sign};
use astro_chart::error::ChartError;
use astro_chart::input::{check_ephe_path, days_in_month, gather_bodies, BirthData, BodyOutcome, FailurePolicy, Position};
use astro_chart::layout::{plan_chart, DataObjectType, DrawStep, Subject};
use astro_chart::matcher::{find_aspects, Participant};
use astro_chart::model::{CelestialBody, ChartModel};
use astro_chart::visibility::VisibilityPolicy;

const DEG: i64 = 1_000_000;

fn body(b: Body, deg: i64) -> CelestialBody {
    CelestialBody { body: b, longitude: deg * DEG, latitude: 0, speed: 0 }
}

fn houses() -> Vec<i64> {
    (0..12).map(|k| k * 30 * DEG).collect()
}

fn model(bodies: Vec<CelestialBody>, asc: i64, mc: i64) -> ChartModel {
    ChartModel::new(bodies, houses(), asc * DEG, (mc + 180) * DEG, (asc + 180) * DEG, mc * DEG).unwrap()
}

fn no_angles() -> VisibilityPolicy {
    VisibilityPolicy {
        show_fiction: false,
        show_other: false,
        show_ascendant: false,
        show_imum_coeli: false,
        show_descendant: false,
        show_midheaven: false,
    }
}

fn def(name: &str, target: i64, orb: i64) -> AspectDefinition {
    AspectDefinition::new(name.to_string(), target * DEG, orb * DEG).unwrap()
}

#[test]
fn separation_wraps_around() {
    assert_eq!(separation(350 * DEG, 10 * DEG), 20 * DEG);
    assert_eq!(separation(10 * DEG, 350 * DEG), 20 * DEG);
    assert_eq!(closest_distance(350 * DEG, 10 * DEG), -20 * DEG);
    assert_eq!(closest_distance(10 * DEG, 350 * DEG), 20 * DEG);
}

#[test]
fn separation_is_symmetric_and_bounded() {
    let points = [0, 1, 45, 90, 179, 180, 181, 270, 359, -30, 725];
    for &a in points.iter() {
        for &b in points.iter() {
            let s = separation(a * DEG, b * DEG);
            assert_eq!(s, separation(b * DEG, a * DEG));
            assert!(0 <= s && s <= HALF_TURN);
        }
    }
}

#[test]
fn separation_of_a_point_with_itself_is_zero() {
    assert_eq!(separation(123 * DEG, 123 * DEG), 0);
    assert_eq!(separation(0, FULL_TURN), 0);
}

#[test]
fn opposite_points_are_half_a_turn_apart() {
    assert_eq!(separation(10 * DEG, 190 * DEG), 180 * DEG);
    assert_eq!(closest_distance(10 * DEG, 190 * DEG), 180 * DEG);
    assert_eq!(closest_distance(190 * DEG, 10 * DEG), 180 * DEG);
}

#[test]
fn normalize_brings_angles_into_a_turn() {
    assert_eq!(normalize_longitude(-10 * DEG), 350 * DEG);
    assert_eq!(normalize_longitude(720 * DEG + 5), 5);
    assert_eq!(normalize_longitude(FULL_TURN), 0);
    assert_eq!(normalize_longitude(42), 42);
}

#[test]
fn aspect_definition_is_checked_at_load() {
    assert!(matches!(
        AspectDefinition::new("bad".to_string(), 90 * DEG, -1),
        Err(ChartError::CatalogMismatch)
    ));
    assert!(matches!(
        AspectDefinition::new("bad".to_string(), 181 * DEG, 0),
        Err(ChartError::CatalogMismatch)
    ));
    assert!(matches!(
        AspectDefinition::new("bad".to_string(), -1, 0),
        Err(ChartError::CatalogMismatch)
    ));
    let d = def("trine", 120, 8);
    assert_eq!(d.target, 120 * DEG);
    assert_eq!(d.orb, 8 * DEG);
    assert_eq!(d.name, "trine");
    let bad = AspectDefinition { name: "x".to_string(), target: 0, orb: -5 };
    assert!(check_catalog(&vec![d.clone()]));
    assert!(!check_catalog(&vec![d, bad]));
}

#[test]
fn orb_bounds_are_inclusive() {
    let d = def("square", 90, 6);
    assert!(matches_definition(96 * DEG, &d));
    assert!(matches_definition(84 * DEG, &d));
    assert!(!matches_definition(96 * DEG + 1, &d));
    assert!(!matches_definition(84 * DEG - 1, &d));
}

#[test]
fn opposition_scenario_yields_one_match() {
    let m = model(vec![body(Body::Sun, 10), body(Body::Moon, 190)], 95, 5);
    let cat = vec![def("opposition", 180, 5)];
    let r = find_aspects(&m, &no_angles(), &cat);
    assert_eq!(r.len(), 1);
    assert_eq!(r[0].first, Participant::Body(Body::Sun));
    assert_eq!(r[0].second, Participant::Body(Body::Moon));
    assert_eq!(cat[r[0].aspect].name, "opposition");
    assert_eq!(r[0].separation, 180 * DEG);
}

#[test]
fn empty_catalog_yields_no_match() {
    let m = model(
        vec![body(Body::Sun, 0), body(Body::Moon, 0), body(Body::Mars, 90)],
        0,
        90,
    );
    let r = find_aspects(&m, &VisibilityPolicy::standard(), &Vec::new());
    assert_eq!(r.len(), 0);
}

#[test]
fn each_unordered_pair_is_evaluated_once() {
    let bodies = vec![
        body(Body::Sun, 3),
        body(Body::Moon, 47),
        body(Body::Mercury, 100),
        body(Body::Venus, 200),
        body(Body::Mars, 310),
    ];
    let m = model(bodies, 0, 90);
    let cat = vec![def("any", 90, 90)];
    let r = find_aspects(&m, &no_angles(), &cat);
    assert_eq!(r.len(), 5 * 4 / 2);
    for (i, x) in r.iter().enumerate() {
        assert_ne!(x.first, x.second);
        for y in r.iter().skip(i + 1) {
            assert!(!(x.first == y.first && x.second == y.second));
            assert!(!(x.first == y.second && x.second == y.first));
        }
    }
}

#[test]
fn hidden_bodies_take_no_part() {
    let m = model(vec![body(Body::Sun, 0), body(Body::Lilith, 0), body(Body::Ceres, 0)], 45, 135);
    let cat = vec![def("conjunction", 0, 8)];
    assert_eq!(find_aspects(&m, &no_angles(), &cat).len(), 0);
    let mut p = no_angles();
    p.show_fiction = true;
    let r = find_aspects(&m, &p, &cat);
    assert_eq!(r.len(), 1);
    assert_eq!(r[0].second, Participant::Body(Body::Lilith));
}

#[test]
fn overlapping_orbs_give_one_match_each() {
    let m = model(vec![body(Body::Sun, 0), body(Body::Moon, 62)], 200, 300);
    let cat = vec![def("sextile", 60, 6), def("wide", 65, 5), def("square", 90, 6)];
    let r = find_aspects(&m, &no_angles(), &cat);
    assert_eq!(r.len(), 2);
    assert_eq!(r[0].aspect, 0);
    assert_eq!(r[1].aspect, 1);
    for x in r.iter() {
        let d = &cat[x.aspect];
        assert!((x.separation - d.target).abs() <= d.orb);
    }
}

#[test]
fn angle_aspects_use_only_ascendant_and_midheaven() {
    let m = model(vec![body(Body::Sun, 10)], 10, 100);
    let mut p = VisibilityPolicy::standard();
    p.show_descendant = true;
    p.show_imum_coeli = true;
    let cat = vec![def("conjunction", 0, 8), def("square", 90, 6), def("opposition", 180, 8)];
    let r = find_aspects(&m, &p, &cat);
    assert_eq!(r.len(), 2);
    assert_eq!(r[0].second, Participant::Angle(Angle::Ascendant));
    assert_eq!(r[0].aspect, 0);
    assert_eq!(r[1].second, Participant::Angle(Angle::Midheaven));
    assert_eq!(r[1].aspect, 1);
}

#[test]
fn plan_lists_houses_one_to_twelve() {
    let m = model(vec![body(Body::Sun, 10), body(Body::Moon, 190)], 0, 270);
    let cat = vec![def("opposition", 180, 5)];
    let p = VisibilityPolicy::standard();
    let plan = plan_chart(&m, &p, &cat);
    assert_eq!(plan[0], DrawStep { object_type: DataObjectType::Chart, subject: Subject::Whole });
    assert_eq!(plan[1].subject, Subject::Sign(Sign::Aries));
    assert_eq!(plan[12].subject, Subject::Sign(Sign::Pisces));
    for k in 0..12u8 {
        assert_eq!(
            plan[13 + k as usize],
            DrawStep { object_type: DataObjectType::House, subject: Subject::House(k + 1) }
        );
    }
    // 1 chart + 12 signs + 12 houses + 2 angles * 4 + 2 bodies * 4 + aspects
    let aspects = find_aspects(&m, &p, &cat);
    assert_eq!(plan.len(), 1 + 12 + 12 + 8 + 8 + aspects.len());
    assert_eq!(plan[25], DrawStep { object_type: DataObjectType::Angle, subject: Subject::Angle(Angle::Ascendant) });
    assert_eq!(plan[28].object_type, DataObjectType::AngleTrait);
    assert_eq!(plan[29].subject, Subject::Angle(Angle::Midheaven));
    assert_eq!(plan[33], DrawStep { object_type: DataObjectType::Planet, subject: Subject::Body(Body::Sun) });
    assert_eq!(plan[41], DrawStep { object_type: DataObjectType::Aspect, subject: Subject::Aspect(aspects[0]) });
}

#[test]
fn plan_is_deterministic() {
    let m = model(vec![body(Body::Sun, 10), body(Body::Moon, 130), body(Body::Mars, 250)], 40, 310);
    let cat = vec![def("trine", 120, 8), def("conjunction", 0, 8)];
    let p = VisibilityPolicy::standard();
    assert_eq!(plan_chart(&m, &p, &cat), plan_chart(&m.clone(), &p, &cat.clone()));
}

#[test]
fn model_needs_twelve_houses_and_distinct_bodies() {
    let short: Vec<i64> = (0..11).map(|k| k * 30 * DEG).collect();
    assert!(matches!(
        ChartModel::new(vec![], short, 0, 0, 0, 0),
        Err(ChartError::InputValidation)
    ));
    assert!(matches!(
        ChartModel::new(vec![body(Body::Sun, 1), body(Body::Sun, 2)], houses(), 0, 0, 0, 0),
        Err(ChartError::InputValidation)
    ));
    let m = ChartModel::new(vec![body(Body::Sun, -30)], houses(), 370 * DEG, 0, 0, -DEG).unwrap();
    assert_eq!(m.bodies[0].longitude, 330 * DEG);
    assert_eq!(m.ascendant, 10 * DEG);
    assert_eq!(m.midheaven, 359 * DEG);
}

#[test]
fn ephemeris_path_length_is_checked() {
    assert!(check_ephe_path(&"a".repeat(255)).is_ok());
    assert!(matches!(check_ephe_path(&"a".repeat(256)), Err(ChartError::Configuration)));
    assert!(check_ephe_path("").is_ok());
    assert!(check_ephe_path("/usr/share/ephe").is_ok());
    assert!(matches!(check_ephe_path("ab\0cd"), Err(ChartError::Configuration)));
    assert!(matches!(check_ephe_path("\0"), Err(ChartError::Configuration)));
}

#[test]
fn birth_data_is_validated() {
    let ok = BirthData { year: 2024, month: 2, day: 29, hour: 23, min: 59, sec_micros: 59_999_999, lat: 46 * DEG, lng: 6 * DEG };
    assert!(ok.validate().is_ok());
    let mut d = ok;
    d.year = 2023;
    assert!(matches!(d.validate(), Err(ChartError::InputValidation)));
    let mut d = ok;
    d.lat = 91 * DEG;
    assert!(matches!(d.validate(), Err(ChartError::InputValidation)));
    let mut d = ok;
    d.month = 13;
    assert!(matches!(d.validate(), Err(ChartError::InputValidation)));
    let mut d = ok;
    d.hour = 24;
    assert!(matches!(d.validate(), Err(ChartError::InputValidation)));
    assert_eq!(days_in_month(1900, 2), 28);
    assert_eq!(days_in_month(2000, 2), 29);
    assert_eq!(days_in_month(2021, 4), 30);
    assert_eq!(days_in_month(2021, 12), 31);
}

#[test]
fn gateway_failures_follow_the_policy() {
    let pos = Position { longitude: DEG, latitude: 0, speed: 2 };
    let outcomes = vec![
        BodyOutcome { body: Body::Sun, position: Some(pos) },
        BodyOutcome { body: Body::Moon, position: None },
        BodyOutcome { body: Body::Mars, position: Some(pos) },
        BodyOutcome { body: Body::Venus, position: None },
    ];
    assert!(matches!(
        gather_bodies(&outcomes, 2_451_545_500_000, FailurePolicy::Abort),
        Err(ChartError::GatewayFailure(Body::Moon, 2_451_545_500_000))
    ));
    let g = gather_bodies(&outcomes, 0, FailurePolicy::Partial).unwrap();
    assert_eq!(g.placed.len(), 2);
    assert_eq!(g.placed[1].body, Body::Mars);
    assert_eq!(g.placed[1].speed, 2);
    assert_eq!(g.failed, vec![Body::Moon, Body::Venus]);
    let all_ok = vec![BodyOutcome { body: Body::Sun, position: Some(pos) }];
    assert_eq!(gather_bodies(&all_ok, 0, FailurePolicy::Abort).unwrap().placed.len(), 1);
}

#[test]
fn enumerations_are_complete_and_ordered() {
    assert_eq!(all_signs().len(), 12);
    assert_eq!(all_angles(), vec![Angle::Ascendant, Angle::ImumCoeli, Angle::Descendant, Angle::Midheaven]);
    assert_eq!(all_bodies().len(), 19);
    let q = bodies_to_query();
    assert!(q.iter().all(|b| b.category() != Category::Other));
    assert!(q.contains(&Body::FortunaPart));
    assert!(!q.contains(&Body::Ceres));
    assert_eq!(Body::FortunaPart.formula(), Formula::HouseDependent);
    assert_eq!(Body::Sun.formula(), Formula::Generic);
}

#[test]
fn aspect_steps_refer_only_to_drawn_objects() {
    let m = model(
        vec![body(Body::Sun, 0), body(Body::Lilith, 0), body(Body::Moon, 120), body(Body::Mars, 90)],
        0,
        90,
    );
    let cat = vec![def("conjunction", 0, 8), def("trine", 120, 8), def("square", 90, 6)];
    let p = VisibilityPolicy::standard();
    let plan = plan_chart(&m, &p, &cat);
    let marker = |x: Participant| match x {
        Participant::Body(b) => DrawStep { object_type: DataObjectType::Planet, subject: Subject::Body(b) },
        Participant::Angle(a) => DrawStep { object_type: DataObjectType::Angle, subject: Subject::Angle(a) },
    };
    let mut seen = 0;
    for s in plan.iter() {
        if let Subject::Aspect(a) = s.subject {
            seen += 1;
            assert!(plan.contains(&marker(a.first)));
            assert!(plan.contains(&marker(a.second)));
            assert_ne!(a.first, Participant::Body(Body::Lilith));
            assert_ne!(a.second, Participant::Body(Body::Lilith));
        }
    }
    // Sun-Moon trine, Sun-Mars square, Moon-Mars none at 30, Sun-Asc conjunction,
    // Sun-MC square, Moon-Asc trine, Mars-MC conjunction, Mars-Asc square.
    assert_eq!(seen, 7);
}

#[test]
fn matches_carry_the_model_longitudes() {
    let m = model(vec![body(Body::Sun, 15), body(Body::Moon, 105)], 195, 285);
    let cat = vec![def("square", 90, 6), def("opposition", 180, 8)];
    let r = find_aspects(&m, &VisibilityPolicy::standard(), &cat);
    // Sun-Moon square, Sun-Asc opposition, Sun-MC square, Moon-Asc square,
    // Moon-MC opposition
    assert_eq!(r.len(), 5);
    assert_eq!((r[0].first_longitude, r[0].second_longitude), (15 * DEG, 105 * DEG));
    assert_eq!(r[1].second, Participant::Angle(Angle::Ascendant));
    assert_eq!((r[1].first_longitude, r[1].second_longitude), (15 * DEG, 195 * DEG));
    assert_eq!(r[1].aspect, 1);
    assert_eq!(r[2].second, Participant::Angle(Angle::Midheaven));
    assert_eq!((r[2].first_longitude, r[2].second_longitude), (15 * DEG, 285 * DEG));
    assert_eq!(r[2].aspect, 0);
    assert_eq!((r[3].first_longitude, r[3].second_longitude), (105 * DEG, 195 * DEG));
    assert_eq!(r[4].second, Participant::Angle(Angle::Midheaven));
    assert_eq!((r[4].first_longitude, r[4].second_longitude), (105 * DEG, 285 * DEG));
    assert_eq!(r[4].aspect, 1);
}

#[test]
fn exact_zero_orb_never_pairs_a_body_with_itself() {
    let m = model(vec![body(Body::Sun, 10), body(Body::Moon, 20), body(Body::Mars, 30)], 100, 200);
    let cat = vec![def("conj", 0, 0)];
    assert_eq!(find_aspects(&m, &VisibilityPolicy::standard(), &cat).len(), 0);
}

#[test]
fn catalog_matching_everything_counts_pairs_and_angles() {
    let m = model(
        vec![body(Body::Sun, 3), body(Body::Moon, 47), body(Body::Mercury, 100), body(Body::Venus, 200)],
        0,
        90,
    );
    let cat = vec![def("any", 90, 90)];
    let r = find_aspects(&m, &VisibilityPolicy::standard(), &cat);
    assert_eq!(r.len(), 4 * 3 / 2 + 2 * 4);
}
