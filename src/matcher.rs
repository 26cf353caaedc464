use vstd::prelude::*;

use crate::angle::{separation, sep, HALF_TURN};
use crate::catalog::{matches_definition, valid_catalog, within_orb, AspectDefinition};
use crate::entity::Angle;
use crate::model::{distinct_bodies, CelestialBody, ChartModel};
use crate::visibility::{shows_angle, shows_body, VisibilityPolicy};

verus! {

/// One end of an aspect: a body or a chart angle.
#[derive(Clone, Copy, PartialEq, Eq, Structural, Debug)]
pub enum Participant {
    Body(crate::entity::Body),
    Angle(Angle),
}

/// A pair of participants whose separation lies within the orb of the
/// catalog entry at index `aspect`.
#[derive(Clone, Copy, PartialEq, Eq, Structural, Debug)]
pub struct AspectMatch {
    pub first: Participant,
    pub first_longitude: i64,
    pub second: Participant,
    pub second_longitude: i64,
    pub aspect: usize,
    pub separation: i64,
}

/// The matches of one pair against the first `k` catalog entries, in catalog order.
pub open spec fn pair_hits(
    a: Participant,
    la: i64,
    b: Participant,
    lb: i64,
    cat: Seq<AspectDefinition>,
    k: int,
) -> Seq<AspectMatch>
    decreases k,
{
    if k <= 0 {
        seq![]
    } else {
        let s = sep(la as int, lb as int);
        pair_hits(a, la, b, lb, cat, k - 1) + if within_orb(s, cat[k - 1]) {
            seq![
                AspectMatch {
                    first: a,
                    first_longitude: la,
                    second: b,
                    second_longitude: lb,
                    aspect: (k - 1) as usize,
                    separation: s as i64,
                },
            ]
        } else {
            seq![]
        }
    }
}

pub open spec fn visible_at(bodies: Seq<CelestialBody>, p: VisibilityPolicy, j: int) -> bool {
    shows_body(p, bodies[j].body)
}

/// The body pairs `(i, j)` that the pass evaluates for body `i`: every visible
/// `j` with `i < j < end`, in order.
pub open spec fn row_pairs(bodies: Seq<CelestialBody>, p: VisibilityPolicy, i: int, end: int) -> Seq<
    (int, int),
>
    decreases end - i,
{
    if end <= i + 1 {
        seq![]
    } else {
        row_pairs(bodies, p, i, end - 1) + if visible_at(bodies, p, end - 1) {
            seq![(i, end - 1)]
        } else {
            seq![]
        }
    }
}

/// Every body pair that the body-body pass evaluates with a visible first body
/// below `u`, in evaluation order.
pub open spec fn pairs_upto(bodies: Seq<CelestialBody>, p: VisibilityPolicy, u: int) -> Seq<
    (int, int),
>
    decreases u,
{
    if u <= 0 {
        seq![]
    } else {
        pairs_upto(bodies, p, u - 1) + if visible_at(bodies, p, u - 1) {
            row_pairs(bodies, p, u - 1, bodies.len() as int)
        } else {
            seq![]
        }
    }
}

/// All pairs that the body-body pass evaluates.
pub open spec fn body_pairs(bodies: Seq<CelestialBody>, p: VisibilityPolicy) -> Seq<(int, int)> {
    pairs_upto(bodies, p, bodies.len() as int)
}

/// The matches of a sequence of body pairs, pair after pair.
pub open spec fn pairs_matches(
    bodies: Seq<CelestialBody>,
    cat: Seq<AspectDefinition>,
    pairs: Seq<(int, int)>,
) -> Seq<AspectMatch>
    decreases pairs.len(),
{
    if pairs.len() == 0 {
        seq![]
    } else {
        let q = pairs.last();
        pairs_matches(bodies, cat, pairs.drop_last()) + pair_hits(
            Participant::Body(bodies[q.0].body),
            bodies[q.0].longitude,
            Participant::Body(bodies[q.1].body),
            bodies[q.1].longitude,
            cat,
            cat.len() as int,
        )
    }
}

/// The matches of body `i` with the Ascendant and then the Midheaven, each
/// where it is visible.
pub open spec fn angle_matches(
    m: ChartModel,
    p: VisibilityPolicy,
    cat: Seq<AspectDefinition>,
    i: int,
) -> Seq<AspectMatch> {
    let b = Participant::Body(m.bodies[i].body);
    let l = m.bodies[i].longitude;
    (if shows_angle(p, Angle::Ascendant) {
        pair_hits(b, l, Participant::Angle(Angle::Ascendant), m.ascendant, cat, cat.len() as int)
    } else {
        seq![]
    }) + (if shows_angle(p, Angle::Midheaven) {
        pair_hits(b, l, Participant::Angle(Angle::Midheaven), m.midheaven, cat, cat.len() as int)
    } else {
        seq![]
    })
}

/// What body `i` contributes: its pairs with later visible bodies, then its
/// aspects to the angles, if it is visible itself.
pub open spec fn body_block(
    m: ChartModel,
    p: VisibilityPolicy,
    cat: Seq<AspectDefinition>,
    i: int,
) -> Seq<AspectMatch> {
    if visible_at(m.bodies@, p, i) {
        pairs_matches(m.bodies@, cat, row_pairs(m.bodies@, p, i, m.bodies.len() as int))
            + angle_matches(m, p, cat, i)
    } else {
        seq![]
    }
}

pub open spec fn matches_upto(
    m: ChartModel,
    p: VisibilityPolicy,
    cat: Seq<AspectDefinition>,
    u: int,
) -> Seq<AspectMatch>
    decreases u,
{
    if u <= 0 {
        seq![]
    } else {
        matches_upto(m, p, cat, u - 1) + body_block(m, p, cat, u - 1)
    }
}

/// Every aspect of a chart, in the canonical order.
pub open spec fn all_matches(m: ChartModel, p: VisibilityPolicy, cat: Seq<AspectDefinition>) -> Seq<
    AspectMatch,
> {
    matches_upto(m, p, cat, m.bodies.len() as int)
}

/// A participant that the chart draws: a visible body of the model, or a
/// visible angle.
pub open spec fn participant_shown(m: ChartModel, p: VisibilityPolicy, x: Participant) -> bool {
    match x {
        Participant::Body(b) => shows_body(p, b) && exists|k: int|
            0 <= k < m.bodies.len() && #[trigger] m.bodies@[k].body == b,
        Participant::Angle(a) => shows_angle(p, a),
    }
}

/// `l` is the model's longitude of the participant.
pub open spec fn placed_at(m: ChartModel, x: Participant, l: i64) -> bool {
    match x {
        Participant::Body(b) => exists|k: int|
            0 <= k < m.bodies.len() && (#[trigger] m.bodies@[k]).body == b && m.bodies@[k].longitude
                == l,
        Participant::Angle(a) => l == m.angle_longitude(a),
    }
}

/// A match is sound: its separation is that of its longitudes, lies within the
/// orb of its catalog entry, and it pairs two different participants.
pub open spec fn sound_match(r: AspectMatch, cat: Seq<AspectDefinition>) -> bool {
    &&& 0 <= r.aspect < cat.len()
    &&& r.separation == sep(r.first_longitude as int, r.second_longitude as int)
    &&& within_orb(r.separation as int, cat[r.aspect as int])
    &&& r.first != r.second
    &&& r.second matches Participant::Angle(a) ==> (a == Angle::Ascendant || a == Angle::Midheaven)
}

proof fn lemma_pair_hits_sound(
    a: Participant,
    la: i64,
    b: Participant,
    lb: i64,
    cat: Seq<AspectDefinition>,
    k: int,
)
    requires
        a != b,
        b matches Participant::Angle(x) ==> (x == Angle::Ascendant || x == Angle::Midheaven),
        k <= cat.len() <= usize::MAX,
    ensures
        forall|t: int|
            0 <= t < pair_hits(a, la, b, lb, cat, k).len() ==> sound_match(
                #[trigger] pair_hits(a, la, b, lb, cat, k)[t],
                cat,
            ) && pair_hits(a, la, b, lb, cat, k)[t].first == a && pair_hits(a, la, b, lb, cat, k)[t].second
                == b && pair_hits(a, la, b, lb, cat, k)[t].first_longitude == la && pair_hits(
                a,
                la,
                b,
                lb,
                cat,
                k,
            )[t].second_longitude == lb,
    decreases k,
{
    if k > 0 {
        lemma_pair_hits_sound(a, la, b, lb, cat, k - 1);
        crate::angle::lemma_separation_bounded(la as int, lb as int);
        let prev = pair_hits(a, la, b, lb, cat, k - 1);
        let all = pair_hits(a, la, b, lb, cat, k);
        assert forall|t: int| 0 <= t < all.len() implies sound_match(#[trigger] all[t], cat)
            && all[t].first == a && all[t].second == b && all[t].first_longitude == la
            && all[t].second_longitude == lb by {
            if t < prev.len() {
                assert(all[t] == prev[t]);
            } else {
                assert(((k - 1) as usize) as int == k - 1);
            }
        }
    }
}

/// Appends the matches of one pair to `out`.
fn match_pair(
    a: Participant,
    la: i64,
    b: Participant,
    lb: i64,
    catalog: &Vec<AspectDefinition>,
    out: &mut Vec<AspectMatch>,
)
    requires
        valid_catalog(catalog@),
        a != b,
        b matches Participant::Angle(x) ==> (x == Angle::Ascendant || x == Angle::Midheaven),
    ensures
        final(out)@ == old(out)@ + pair_hits(a, la, b, lb, catalog@, catalog.len() as int),
        forall|t: int|
            0 <= t < pair_hits(a, la, b, lb, catalog@, catalog.len() as int).len() ==> sound_match(
                #[trigger] pair_hits(a, la, b, lb, catalog@, catalog.len() as int)[t],
                catalog@,
            ) && pair_hits(a, la, b, lb, catalog@, catalog.len() as int)[t].first == a && pair_hits(
                a,
                la,
                b,
                lb,
                catalog@,
                catalog.len() as int,
            )[t].second == b && pair_hits(a, la, b, lb, catalog@, catalog.len() as int)[t].first_longitude
                == la && pair_hits(a, la, b, lb, catalog@, catalog.len() as int)[t].second_longitude == lb,
{
    let s = separation(la, lb);
    let ghost start = out@;
    let mut k: usize = 0;
    while k < catalog.len()
        invariant
            0 <= k <= catalog.len(),
            valid_catalog(catalog@),
            s == sep(la as int, lb as int),
            0 <= s <= HALF_TURN,
            out@ == start + pair_hits(a, la, b, lb, catalog@, k as int),
        decreases catalog.len() - k,
    {
        if matches_definition(s, &catalog[k]) {
            out.push(
                AspectMatch {
                    first: a,
                    first_longitude: la,
                    second: b,
                    second_longitude: lb,
                    aspect: k,
                    separation: s,
                },
            );
        }
        k = k + 1;
        proof {
            assert(out@ =~= start + pair_hits(a, la, b, lb, catalog@, k as int));
        }
    }
    proof {
        lemma_pair_hits_sound(a, la, b, lb, catalog@, catalog.len() as int);
    }
}

proof fn lemma_pairs_matches_push(
    bodies: Seq<CelestialBody>,
    cat: Seq<AspectDefinition>,
    pairs: Seq<(int, int)>,
    q: (int, int),
)
    ensures
        pairs_matches(bodies, cat, pairs.push(q)) == pairs_matches(bodies, cat, pairs) + pair_hits(
            Participant::Body(bodies[q.0].body),
            bodies[q.0].longitude,
            Participant::Body(bodies[q.1].body),
            bodies[q.1].longitude,
            cat,
            cat.len() as int,
        ),
{
    assert(pairs.push(q).drop_last() =~= pairs);
}

/// Finds every aspect of a chart: for each visible body in order, its pairs
/// with the later visible bodies, then its aspects to the Ascendant and the
/// Midheaven where those are visible. A pair yields one match per catalog
/// entry whose orb it falls in.
pub fn find_aspects(
    model: &ChartModel,
    policy: &VisibilityPolicy,
    catalog: &Vec<AspectDefinition>,
) -> (r: Vec<AspectMatch>)
    requires
        model.wf(),
        valid_catalog(catalog@),
    ensures
        r@ == all_matches(*model, *policy, catalog@),
        forall|t: int| 0 <= t < r.len() ==> sound_match(#[trigger] r@[t], catalog@),
        forall|t: int|
            0 <= t < r.len() ==> participant_shown(*model, *policy, (#[trigger] r@[t]).first)
                && participant_shown(*model, *policy, r@[t].second),
        forall|t: int|
            0 <= t < r.len() ==> placed_at(*model, (#[trigger] r@[t]).first, r@[t].first_longitude)
                && placed_at(*model, r@[t].second, r@[t].second_longitude),
        catalog.len() == 0 ==> r.len() == 0,
{
    let n = model.bodies.len();
    let mut out: Vec<AspectMatch> = Vec::new();
    let mut i: usize = 0;
    while i < n
        invariant
            n == model.bodies.len(),
            model.wf(),
            valid_catalog(catalog@),
            0 <= i <= n,
            out@ == matches_upto(*model, *policy, catalog@, i as int),
            forall|t: int| 0 <= t < out.len() ==> sound_match(#[trigger] out@[t], catalog@),
            forall|t: int|
                0 <= t < out.len() ==> participant_shown(*model, *policy, (#[trigger] out@[t]).first)
                    && participant_shown(*model, *policy, out@[t].second),
            forall|t: int|
                0 <= t < out.len() ==> placed_at(*model, (#[trigger] out@[t]).first, out@[t].first_longitude)
                    && placed_at(*model, out@[t].second, out@[t].second_longitude),
            catalog.len() == 0 ==> out.len() == 0,
        decreases n - i,
    {
        let ghost before = out@;
        let bi = model.bodies[i];
        if policy.is_body_visible(bi.body) {
            let mut j: usize = i + 1;
            while j < n
                invariant
                    n == model.bodies.len(),
                    model.wf(),
                    valid_catalog(catalog@),
                    i < n,
                    i + 1 <= j <= n,
                    bi == model.bodies@[i as int],
                    out@ == before + pairs_matches(
                        model.bodies@,
                        catalog@,
                        row_pairs(model.bodies@, *policy, i as int, j as int),
                    ),
                    forall|t: int| 0 <= t < out.len() ==> sound_match(#[trigger] out@[t], catalog@),
                    forall|t: int|
                        0 <= t < out.len() ==> participant_shown(*model, *policy, (#[trigger] out@[t]).first)
                            && participant_shown(*model, *policy, out@[t].second),
                    forall|t: int|
                        0 <= t < out.len() ==> placed_at(
                            *model,
                            (#[trigger] out@[t]).first,
                            out@[t].first_longitude,
                        ) && placed_at(*model, out@[t].second, out@[t].second_longitude),
                    shows_body(*policy, bi.body),
                    catalog.len() == 0 ==> out.len() == 0,
                decreases n - j,
            {
                let bj = model.bodies[j];
                let ghost row = row_pairs(model.bodies@, *policy, i as int, j as int);
                proof {
                    assert(row_pairs(model.bodies@, *policy, i as int, j + 1) == row + if visible_at(
                        model.bodies@,
                        *policy,
                        j as int,
                    ) {
                        seq![(i as int, j as int)]
                    } else {
                        seq![]
                    });
                }
                if policy.is_body_visible(bj.body) {
                    proof {
                        assert(model.bodies@[i as int].body != model.bodies@[j as int].body);
                        assert(participant_shown(*model, *policy, Participant::Body(bi.body)));
                        assert(participant_shown(*model, *policy, Participant::Body(bj.body)));
                        assert(placed_at(*model, Participant::Body(bi.body), bi.longitude));
                        assert(placed_at(*model, Participant::Body(bj.body), bj.longitude));
                    }
                    match_pair(
                        Participant::Body(bi.body),
                        bi.longitude,
                        Participant::Body(bj.body),
                        bj.longitude,
                        catalog,
                        &mut out,
                    );
                    proof {
                        lemma_pairs_matches_push(
                            model.bodies@,
                            catalog@,
                            row_pairs(model.bodies@, *policy, i as int, j as int),
                            (i as int, j as int),
                        );
                        assert(row.push((i as int, j as int)) =~= row_pairs(
                            model.bodies@,
                            *policy,
                            i as int,
                            j + 1,
                        ));
                    }
                } else {
                    assert(row =~= row_pairs(model.bodies@, *policy, i as int, j + 1));
                }
                j = j + 1;
                proof {
                    assert(out@ =~= before + pairs_matches(
                        model.bodies@,
                        catalog@,
                        row_pairs(model.bodies@, *policy, i as int, j as int),
                    ));
                }
            }
            proof {
                assert(participant_shown(*model, *policy, Participant::Body(bi.body)));
                assert(placed_at(*model, Participant::Body(bi.body), bi.longitude));
            }
            if policy.is_angle_visible(Angle::Ascendant) {
                match_pair(
                    Participant::Body(bi.body),
                    bi.longitude,
                    Participant::Angle(Angle::Ascendant),
                    model.ascendant,
                    catalog,
                    &mut out,
                );
            }
            if policy.is_angle_visible(Angle::Midheaven) {
                match_pair(
                    Participant::Body(bi.body),
                    bi.longitude,
                    Participant::Angle(Angle::Midheaven),
                    model.midheaven,
                    catalog,
                    &mut out,
                );
            }
        }
        i = i + 1;
        proof {
            assert(out@ =~= matches_upto(*model, *policy, catalog@, i as int));
        }
    }
    out
}

/// How many of the first `u` bodies are visible.
pub open spec fn visible_count(bodies: Seq<CelestialBody>, p: VisibilityPolicy, u: int) -> int
    decreases u,
{
    if u <= 0 {
        0
    } else {
        visible_count(bodies, p, u - 1) + if visible_at(bodies, p, u - 1) {
            1int
        } else {
            0int
        }
    }
}

proof fn lemma_visible_count_monotone(bodies: Seq<CelestialBody>, p: VisibilityPolicy, a: int, b: int)
    requires
        0 <= a <= b,
    ensures
        visible_count(bodies, p, a) <= visible_count(bodies, p, b),
        visible_count(bodies, p, b) - visible_count(bodies, p, a) <= b - a,
    decreases b - a,
{
    if a < b {
        lemma_visible_count_monotone(bodies, p, a, b - 1);
    }
}

/// Pairs in lexicographic order.
pub open spec fn pair_lt(x: (int, int), y: (int, int)) -> bool {
    x.0 < y.0 || (x.0 == y.0 && x.1 < y.1)
}

proof fn lemma_row_pairs(bodies: Seq<CelestialBody>, p: VisibilityPolicy, i: int, end: int)
    requires
        0 <= i,
        i + 1 <= end,
    ensures
        row_pairs(bodies, p, i, end).len() == visible_count(bodies, p, end) - visible_count(
            bodies,
            p,
            i + 1,
        ),
        forall|t: int|
            0 <= t < row_pairs(bodies, p, i, end).len() ==> {
                let q = #[trigger] row_pairs(bodies, p, i, end)[t];
                q.0 == i && i < q.1 < end && visible_at(bodies, p, q.1)
            },
        forall|s: int, t: int|
            0 <= s < t < row_pairs(bodies, p, i, end).len() ==> row_pairs(bodies, p, i, end)[s].1
                < row_pairs(bodies, p, i, end)[t].1,
        forall|j: int|
            i < j < end && visible_at(bodies, p, j) ==> exists|t: int|
                0 <= t < row_pairs(bodies, p, i, end).len() && #[trigger] row_pairs(
                    bodies,
                    p,
                    i,
                    end,
                )[t] == (i, j),
    decreases end - i,
{
    if end > i + 1 {
        lemma_row_pairs(bodies, p, i, end - 1);
        let prev = row_pairs(bodies, p, i, end - 1);
        let all = row_pairs(bodies, p, i, end);
        assert forall|j: int| i < j < end && visible_at(bodies, p, j) implies exists|t: int|
            0 <= t < all.len() && #[trigger] all[t] == (i, j) by {
            if j < end - 1 {
                let t = choose|t: int| 0 <= t < prev.len() && #[trigger] prev[t] == (i, j);
                assert(all[t] == prev[t]);
            } else {
                assert(all[prev.len() as int] == (i, j));
            }
        }
        assert forall|t: int| 0 <= t < all.len() implies {
            let q = #[trigger] all[t];
            q.0 == i && i < q.1 < end && visible_at(bodies, p, q.1)
        } by {
            if t < prev.len() {
                assert(all[t] == prev[t]);
            }
        }
        assert forall|s: int, t: int| 0 <= s < t < all.len() implies all[s].1 < all[t].1 by {
            assert(all[s] == prev[s]);
            if t < prev.len() {
                assert(all[t] == prev[t]);
            }
        }
    }
}

proof fn lemma_pairs_upto(bodies: Seq<CelestialBody>, p: VisibilityPolicy, u: int)
    requires
        0 <= u <= bodies.len(),
    ensures
        ({
            let v = visible_count(bodies, p, u);
            let w = visible_count(bodies, p, bodies.len() as int);
            2 * pairs_upto(bodies, p, u).len() == 2 * v * (w - 1) - v * (v - 1)
        }),
        forall|t: int|
            0 <= t < pairs_upto(bodies, p, u).len() ==> {
                let q = #[trigger] pairs_upto(bodies, p, u)[t];
                0 <= q.0 < u && q.0 < q.1 < bodies.len() && visible_at(bodies, p, q.0)
                    && visible_at(bodies, p, q.1)
            },
        forall|s: int, t: int|
            0 <= s < t < pairs_upto(bodies, p, u).len() ==> pair_lt(
                pairs_upto(bodies, p, u)[s],
                pairs_upto(bodies, p, u)[t],
            ),
        forall|a: int, b: int|
            0 <= a < u && a < b < bodies.len() && visible_at(bodies, p, a) && visible_at(bodies, p, b)
                ==> exists|t: int|
                0 <= t < pairs_upto(bodies, p, u).len() && #[trigger] pairs_upto(bodies, p, u)[t] == (
                    a,
                    b,
                ),
    decreases u,
{
    if u > 0 {
        let n = bodies.len() as int;
        lemma_pairs_upto(bodies, p, u - 1);
        lemma_visible_count_monotone(bodies, p, u, n);
        let prev = pairs_upto(bodies, p, u - 1);
        let all = pairs_upto(bodies, p, u);
        let v0 = visible_count(bodies, p, u - 1);
        let w = visible_count(bodies, p, n);
        if visible_at(bodies, p, u - 1) {
            lemma_row_pairs(bodies, p, u - 1, n);
            let row = row_pairs(bodies, p, u - 1, n);
            let v = v0 + 1;
            assert(visible_count(bodies, p, u) == v);
            assert(row.len() == w - v);
            assert(all.len() == prev.len() + row.len());
            assert(2 * (prev.len() + row.len()) == 2 * v * (w - 1) - v * (v - 1)) by (nonlinear_arith)
                requires
                    2 * prev.len() == 2 * v0 * (w - 1) - v0 * (v0 - 1),
                    row.len() == w - v,
                    v == v0 + 1,
            ;
            assert forall|t: int| 0 <= t < all.len() implies {
                let q = #[trigger] all[t];
                0 <= q.0 < u && q.0 < q.1 < n && visible_at(bodies, p, q.0) && visible_at(bodies, p, q.1)
            } by {
                if t < prev.len() {
                    assert(all[t] == prev[t]);
                } else {
                    assert(all[t] == row[t - prev.len()]);
                }
            }
            assert forall|s: int, t: int| 0 <= s < t < all.len() implies pair_lt(all[s], all[t]) by {
                if t < prev.len() {
                    assert(all[t] == prev[t]);
                    assert(all[s] == prev[s]);
                } else if s < prev.len() {
                    assert(all[s] == prev[s]);
                    assert(all[t] == row[t - prev.len()]);
                } else {
                    assert(all[s] == row[s - prev.len()]);
                    assert(all[t] == row[t - prev.len()]);
                }
            }
            assert forall|a: int, b: int|
                0 <= a < u && a < b < n && visible_at(bodies, p, a) && visible_at(bodies, p, b)
                implies exists|t: int| 0 <= t < all.len() && #[trigger] all[t] == (a, b) by {
                if a < u - 1 {
                    let t = choose|t: int| 0 <= t < prev.len() && #[trigger] prev[t] == (a, b);
                    assert(all[t] == prev[t]);
                } else {
                    let t = choose|t: int| 0 <= t < row.len() && #[trigger] row[t] == (a, b);
                    assert(all[prev.len() + t] == row[t]);
                }
            }
        } else {
            assert(visible_count(bodies, p, u) == v0);
            assert(all =~= prev);
        }
    } else {
        let w = visible_count(bodies, p, bodies.len() as int);
        assert(visible_count(bodies, p, u) == 0);
        assert(2 * 0 * (w - 1) - 0 * (0 - 1) == 0) by (nonlinear_arith);
    }
}

/// The body-body pass evaluates each unordered pair of distinct visible bodies
/// exactly once: with `v` visible bodies it evaluates `v * (v - 1) / 2` pairs,
/// each pair `(a, b)` has `a < b` and both visible, no pair comes twice, and
/// none is left out.
pub proof fn lemma_body_pairs_exact(bodies: Seq<CelestialBody>, p: VisibilityPolicy)
    ensures
        ({
            let v = visible_count(bodies, p, bodies.len() as int);
            body_pairs(bodies, p).len() == v * (v - 1) / 2
        }),
        forall|t: int|
            0 <= t < body_pairs(bodies, p).len() ==> {
                let q = #[trigger] body_pairs(bodies, p)[t];
                0 <= q.0 < q.1 < bodies.len() && visible_at(bodies, p, q.0) && visible_at(bodies, p, q.1)
            },
        forall|s: int, t: int|
            0 <= s < t < body_pairs(bodies, p).len() ==> body_pairs(bodies, p)[s] != body_pairs(
                bodies,
                p,
            )[t],
        forall|a: int, b: int|
            0 <= a < b < bodies.len() && visible_at(bodies, p, a) && visible_at(bodies, p, b)
                ==> exists|t: int|
                0 <= t < body_pairs(bodies, p).len() && #[trigger] body_pairs(bodies, p)[t] == (a, b),
{
    let n = bodies.len() as int;
    lemma_pairs_upto(bodies, p, n);
    let v = visible_count(bodies, p, n);
    let len = body_pairs(bodies, p).len() as int;
    assert(2 * len == v * (v - 1)) by (nonlinear_arith)
        requires
            2 * len == 2 * v * (v - 1) - v * (v - 1),
    ;
    assert(len == v * (v - 1) / 2);
    let pairs = body_pairs(bodies, p);
    assert forall|s: int, t: int| 0 <= s < t < pairs.len() implies pairs[s] != pairs[t] by {
        assert(pair_lt(pairs[s], pairs[t]));
    }
}

proof fn lemma_pairs_matches_append(
    bodies: Seq<CelestialBody>,
    cat: Seq<AspectDefinition>,
    a: Seq<(int, int)>,
    b: Seq<(int, int)>,
)
    ensures
        pairs_matches(bodies, cat, a + b) == pairs_matches(bodies, cat, a) + pairs_matches(
            bodies,
            cat,
            b,
        ),
    decreases b.len(),
{
    if b.len() == 0 {
        assert(a + b =~= a);
        assert(pairs_matches(bodies, cat, a) + pairs_matches(bodies, cat, b) =~= pairs_matches(
            bodies,
            cat,
            a,
        ));
    } else {
        lemma_pairs_matches_append(bodies, cat, a, b.drop_last());
        assert((a + b).drop_last() =~= a + b.drop_last());
        assert((a + b).last() == b.last());
    }
}

/// With neither the Ascendant nor the Midheaven visible, the aspects found are
/// exactly the matches of the body pairs that the body-body pass evaluates,
/// pair after pair.
pub proof fn lemma_matches_are_body_pairs(m: ChartModel, p: VisibilityPolicy, cat: Seq<AspectDefinition>)
    requires
        !shows_angle(p, Angle::Ascendant),
        !shows_angle(p, Angle::Midheaven),
    ensures
        all_matches(m, p, cat) == pairs_matches(m.bodies@, cat, body_pairs(m.bodies@, p)),
{
    lemma_matches_upto_pairs(m, p, cat, m.bodies.len() as int);
}

proof fn lemma_matches_upto_pairs(m: ChartModel, p: VisibilityPolicy, cat: Seq<AspectDefinition>, u: int)
    requires
        !shows_angle(p, Angle::Ascendant),
        !shows_angle(p, Angle::Midheaven),
    ensures
        matches_upto(m, p, cat, u) == pairs_matches(m.bodies@, cat, pairs_upto(m.bodies@, p, u)),
    decreases u,
{
    if u > 0 {
        lemma_matches_upto_pairs(m, p, cat, u - 1);
        let prev = pairs_upto(m.bodies@, p, u - 1);
        let row = if visible_at(m.bodies@, p, u - 1) {
            row_pairs(m.bodies@, p, u - 1, m.bodies.len() as int)
        } else {
            seq![]
        };
        lemma_pairs_matches_append(m.bodies@, cat, prev, row);
        assert(angle_matches(m, p, cat, u - 1) =~= seq![]);
        assert(pairs_matches(m.bodies@, cat, seq![]) =~= seq![]);
        assert(matches_upto(m, p, cat, u) =~= pairs_matches(m.bodies@, cat, prev) + pairs_matches(
            m.bodies@,
            cat,
            row,
        ));
    } else {
        assert(pairs_matches(m.bodies@, cat, seq![]) =~= seq![]);
    }
}

/// The match that a pair yields for catalog entry `k`.
pub open spec fn hit(a: Participant, la: i64, b: Participant, lb: i64, k: int) -> AspectMatch {
    AspectMatch {
        first: a,
        first_longitude: la,
        second: b,
        second_longitude: lb,
        aspect: k as usize,
        separation: sep(la as int, lb as int) as i64,
    }
}

pub open spec fn occurs(s: Seq<AspectMatch>, x: AspectMatch) -> bool {
    exists|t: int| 0 <= t < s.len() && #[trigger] s[t] == x
}

proof fn lemma_occurs_concat(a: Seq<AspectMatch>, b: Seq<AspectMatch>, x: AspectMatch)
    requires
        occurs(a, x) || occurs(b, x),
    ensures
        occurs(a + b, x),
{
    if occurs(a, x) {
        let t = choose|t: int| 0 <= t < a.len() && #[trigger] a[t] == x;
        assert((a + b)[t] == a[t]);
    } else {
        let t = choose|t: int| 0 <= t < b.len() && #[trigger] b[t] == x;
        assert((a + b)[a.len() + t] == b[t]);
    }
}

proof fn lemma_pair_hits_complete(
    a: Participant,
    la: i64,
    b: Participant,
    lb: i64,
    cat: Seq<AspectDefinition>,
    kk: int,
    k: int,
)
    requires
        0 <= k < kk <= cat.len() <= usize::MAX,
        within_orb(sep(la as int, lb as int), cat[k]),
    ensures
        occurs(pair_hits(a, la, b, lb, cat, kk), hit(a, la, b, lb, k)),
    decreases kk,
{
    let prev = pair_hits(a, la, b, lb, cat, kk - 1);
    let last = if within_orb(sep(la as int, lb as int), cat[kk - 1]) {
        seq![hit(a, la, b, lb, kk - 1)]
    } else {
        seq![]
    };
    assert(pair_hits(a, la, b, lb, cat, kk) == prev + last);
    if k < kk - 1 {
        lemma_pair_hits_complete(a, la, b, lb, cat, kk - 1, k);
    } else {
        assert(last[0] == hit(a, la, b, lb, k));
    }
    lemma_occurs_concat(prev, last, hit(a, la, b, lb, k));
}

proof fn lemma_pairs_matches_complete(
    bodies: Seq<CelestialBody>,
    cat: Seq<AspectDefinition>,
    pairs: Seq<(int, int)>,
    s: int,
    x: AspectMatch,
)
    requires
        0 <= s < pairs.len(),
        occurs(
            pair_hits(
                Participant::Body(bodies[pairs[s].0].body),
                bodies[pairs[s].0].longitude,
                Participant::Body(bodies[pairs[s].1].body),
                bodies[pairs[s].1].longitude,
                cat,
                cat.len() as int,
            ),
            x,
        ),
    ensures
        occurs(pairs_matches(bodies, cat, pairs), x),
    decreases pairs.len(),
{
    let q = pairs.last();
    let last = pair_hits(
        Participant::Body(bodies[q.0].body),
        bodies[q.0].longitude,
        Participant::Body(bodies[q.1].body),
        bodies[q.1].longitude,
        cat,
        cat.len() as int,
    );
    let prev = pairs_matches(bodies, cat, pairs.drop_last());
    if s < pairs.len() - 1 {
        assert(pairs.drop_last()[s] == pairs[s]);
        lemma_pairs_matches_complete(bodies, cat, pairs.drop_last(), s, x);
    }
    lemma_occurs_concat(prev, last, x);
}

proof fn lemma_matches_upto_complete(
    m: ChartModel,
    p: VisibilityPolicy,
    cat: Seq<AspectDefinition>,
    u: int,
    i: int,
    x: AspectMatch,
)
    requires
        0 <= i < u,
        occurs(body_block(m, p, cat, i), x),
    ensures
        occurs(matches_upto(m, p, cat, u), x),
    decreases u,
{
    if i < u - 1 {
        lemma_matches_upto_complete(m, p, cat, u - 1, i, x);
    }
    lemma_occurs_concat(matches_upto(m, p, cat, u - 1), body_block(m, p, cat, u - 1), x);
}

/// Every qualifying relationship is found: each pair of visible bodies `i < j`
/// whose separation lies within the orb of catalog entry `k` yields that match,
/// and so does each visible body with the Ascendant or the Midheaven where that
/// angle is visible.
pub proof fn lemma_matches_complete(m: ChartModel, p: VisibilityPolicy, cat: Seq<AspectDefinition>)
    requires
        cat.len() <= usize::MAX,
    ensures
        forall|i: int, j: int, k: int|
            0 <= i < j < m.bodies.len() && visible_at(m.bodies@, p, i) && visible_at(m.bodies@, p, j)
                && 0 <= k < cat.len() && within_orb(
                sep(m.bodies@[i].longitude as int, m.bodies@[j].longitude as int),
                cat[k],
            ) ==> occurs(
                all_matches(m, p, cat),
                #[trigger] hit(
                    Participant::Body(m.bodies@[i].body),
                    m.bodies@[i].longitude,
                    Participant::Body(m.bodies@[j].body),
                    m.bodies@[j].longitude,
                    k,
                ),
            ),
        forall|i: int, a: Angle, k: int|
            0 <= i < m.bodies.len() && visible_at(m.bodies@, p, i) && (a == Angle::Ascendant || a
                == Angle::Midheaven) && shows_angle(p, a) && 0 <= k < cat.len() && within_orb(
                sep(m.bodies@[i].longitude as int, m.angle_longitude(a) as int),
                cat[k],
            ) ==> occurs(
                all_matches(m, p, cat),
                #[trigger] hit(
                    Participant::Body(m.bodies@[i].body),
                    m.bodies@[i].longitude,
                    Participant::Angle(a),
                    m.angle_longitude(a),
                    k,
                ),
            ),
{
    let n = m.bodies.len() as int;
    let bs = m.bodies@;
    assert forall|i: int, j: int, k: int|
        0 <= i < j < n && visible_at(bs, p, i) && visible_at(bs, p, j) && 0 <= k < cat.len()
            && within_orb(sep(bs[i].longitude as int, bs[j].longitude as int), cat[k]) implies occurs(
        all_matches(m, p, cat),
        #[trigger] hit(
            Participant::Body(bs[i].body),
            bs[i].longitude,
            Participant::Body(bs[j].body),
            bs[j].longitude,
            k,
        ),
    ) by {
        let x = hit(
            Participant::Body(bs[i].body),
            bs[i].longitude,
            Participant::Body(bs[j].body),
            bs[j].longitude,
            k,
        );
        lemma_row_pairs(bs, p, i, n);
        let row = row_pairs(bs, p, i, n);
        let s = choose|s: int| 0 <= s < row.len() && #[trigger] row[s] == (i, j);
        lemma_pair_hits_complete(
            Participant::Body(bs[i].body),
            bs[i].longitude,
            Participant::Body(bs[j].body),
            bs[j].longitude,
            cat,
            cat.len() as int,
            k,
        );
        lemma_pairs_matches_complete(bs, cat, row, s, x);
        lemma_occurs_concat(pairs_matches(bs, cat, row), angle_matches(m, p, cat, i), x);
        lemma_matches_upto_complete(m, p, cat, n, i, x);
    }
    assert forall|i: int, a: Angle, k: int|
        0 <= i < n && visible_at(bs, p, i) && (a == Angle::Ascendant || a == Angle::Midheaven)
            && shows_angle(p, a) && 0 <= k < cat.len() && within_orb(
            sep(bs[i].longitude as int, m.angle_longitude(a) as int),
            cat[k],
        ) implies occurs(
        all_matches(m, p, cat),
        #[trigger] hit(
            Participant::Body(bs[i].body),
            bs[i].longitude,
            Participant::Angle(a),
            m.angle_longitude(a),
            k,
        ),
    ) by {
        let b = Participant::Body(bs[i].body);
        let x = hit(b, bs[i].longitude, Participant::Angle(a), m.angle_longitude(a), k);
        lemma_pair_hits_complete(
            b,
            bs[i].longitude,
            Participant::Angle(a),
            m.angle_longitude(a),
            cat,
            cat.len() as int,
            k,
        );
        let asc = if shows_angle(p, Angle::Ascendant) {
            pair_hits(b, bs[i].longitude, Participant::Angle(Angle::Ascendant), m.ascendant, cat, cat.len() as int)
        } else {
            seq![]
        };
        let mc = if shows_angle(p, Angle::Midheaven) {
            pair_hits(b, bs[i].longitude, Participant::Angle(Angle::Midheaven), m.midheaven, cat, cat.len() as int)
        } else {
            seq![]
        };
        assert(angle_matches(m, p, cat, i) == asc + mc);
        lemma_occurs_concat(asc, mc, x);
        lemma_occurs_concat(
            pairs_matches(bs, cat, row_pairs(bs, p, i, n)),
            angle_matches(m, p, cat, i),
            x,
        );
        lemma_matches_upto_complete(m, p, cat, n, i, x);
    }
}

pub open spec fn no_repeats(s: Seq<AspectMatch>) -> bool {
    forall|t1: int, t2: int| 0 <= t1 < t2 < s.len() ==> s[t1] != s[t2]
}

proof fn lemma_concat_no_repeats(a: Seq<AspectMatch>, b: Seq<AspectMatch>)
    requires
        no_repeats(a),
        no_repeats(b),
        forall|x: int, y: int| 0 <= x < a.len() && 0 <= y < b.len() ==> a[x] != b[y],
    ensures
        no_repeats(a + b),
{
    let c = a + b;
    assert forall|t1: int, t2: int| 0 <= t1 < t2 < c.len() implies c[t1] != c[t2] by {
        if t2 < a.len() {
            assert(c[t1] == a[t1] && c[t2] == a[t2]);
        } else if t1 < a.len() {
            assert(c[t1] == a[t1] && c[t2] == b[t2 - a.len()]);
        } else {
            assert(c[t1] == b[t1 - a.len()] && c[t2] == b[t2 - a.len()]);
        }
    }
}

proof fn lemma_pair_hits_no_repeats(
    a: Participant,
    la: i64,
    b: Participant,
    lb: i64,
    cat: Seq<AspectDefinition>,
    k: int,
)
    requires
        k <= cat.len() <= usize::MAX,
    ensures
        no_repeats(pair_hits(a, la, b, lb, cat, k)),
        forall|t: int|
            0 <= t < pair_hits(a, la, b, lb, cat, k).len() ==> (#[trigger] pair_hits(
                a,
                la,
                b,
                lb,
                cat,
                k,
            )[t]).aspect < k && pair_hits(a, la, b, lb, cat, k)[t].first == a && pair_hits(
                a,
                la,
                b,
                lb,
                cat,
                k,
            )[t].second == b,
    decreases k,
{
    if k > 0 {
        lemma_pair_hits_no_repeats(a, la, b, lb, cat, k - 1);
        let prev = pair_hits(a, la, b, lb, cat, k - 1);
        let last = if within_orb(sep(la as int, lb as int), cat[k - 1]) {
            seq![hit(a, la, b, lb, k - 1)]
        } else {
            seq![]
        };
        assert(pair_hits(a, la, b, lb, cat, k) == prev + last);
        lemma_concat_no_repeats(prev, last);
        let all = prev + last;
        assert forall|t: int| 0 <= t < all.len() implies (#[trigger] all[t]).aspect < k
            && all[t].first == a && all[t].second == b by {
            if t < prev.len() {
                assert(all[t] == prev[t]);
            } else {
                assert(all[t] == last[t - prev.len()]);
            }
        }
    }
}

proof fn lemma_row_no_repeats(
    bodies: Seq<CelestialBody>,
    p: VisibilityPolicy,
    cat: Seq<AspectDefinition>,
    i: int,
    end: int,
)
    requires
        0 <= i,
        i + 1 <= end <= bodies.len(),
        distinct_bodies(bodies),
        cat.len() <= usize::MAX,
    ensures
        no_repeats(pairs_matches(bodies, cat, row_pairs(bodies, p, i, end))),
        forall|t: int|
            0 <= t < pairs_matches(bodies, cat, row_pairs(bodies, p, i, end)).len() ==> {
                let x = #[trigger] pairs_matches(bodies, cat, row_pairs(bodies, p, i, end))[t];
                x.first == Participant::Body(bodies[i].body) && exists|j: int|
                    i < j < end && x.second == Participant::Body(#[trigger] bodies[j].body)
            },
    decreases end - i,
{
    let row = row_pairs(bodies, p, i, end);
    if end == i + 1 {
        assert(pairs_matches(bodies, cat, row) =~= seq![]);
    } else {
        lemma_row_no_repeats(bodies, p, cat, i, end - 1);
        let prow = row_pairs(bodies, p, i, end - 1);
        let prev = pairs_matches(bodies, cat, prow);
        let j = end - 1;
        let last = if visible_at(bodies, p, j) {
            pair_hits(
                Participant::Body(bodies[i].body),
                bodies[i].longitude,
                Participant::Body(bodies[j].body),
                bodies[j].longitude,
                cat,
                cat.len() as int,
            )
        } else {
            seq![]
        };
        if visible_at(bodies, p, j) {
            assert(row == prow.push((i, j)));
            lemma_pairs_matches_push(bodies, cat, prow, (i, j));
            lemma_pair_hits_no_repeats(
                Participant::Body(bodies[i].body),
                bodies[i].longitude,
                Participant::Body(bodies[j].body),
                bodies[j].longitude,
                cat,
                cat.len() as int,
            );
        } else {
            assert(row =~= prow);
            assert(prev + last =~= prev);
        }
        assert(pairs_matches(bodies, cat, row) == prev + last);
        assert forall|x: int, y: int| 0 <= x < prev.len() && 0 <= y < last.len() implies prev[x]
            != last[y] by {
            let jj = choose|jj: int| i < jj < end - 1 && prev[x].second == Participant::Body(
                #[trigger] bodies[jj].body,
            );
            assert(bodies[jj].body != bodies[j].body);
        }
        lemma_concat_no_repeats(prev, last);
        let all = prev + last;
        assert forall|t: int| 0 <= t < all.len() implies {
            let x = #[trigger] all[t];
            x.first == Participant::Body(bodies[i].body) && exists|jj: int|
                i < jj < end && x.second == Participant::Body(#[trigger] bodies[jj].body)
        } by {
            if t < prev.len() {
                assert(all[t] == prev[t]);
            } else {
                assert(all[t] == last[t - prev.len()]);
                assert(all[t].second == Participant::Body(bodies[j].body));
            }
        }
    }
}

proof fn lemma_block_no_repeats(m: ChartModel, p: VisibilityPolicy, cat: Seq<AspectDefinition>, i: int)
    requires
        0 <= i < m.bodies.len(),
        distinct_bodies(m.bodies@),
        cat.len() <= usize::MAX,
    ensures
        no_repeats(body_block(m, p, cat, i)),
        forall|t: int|
            0 <= t < body_block(m, p, cat, i).len() ==> (#[trigger] body_block(m, p, cat, i)[t]).first
                == Participant::Body(m.bodies@[i].body),
{
    if visible_at(m.bodies@, p, i) {
        let bs = m.bodies@;
        let n = m.bodies.len() as int;
        let b = Participant::Body(bs[i].body);
        let l = bs[i].longitude;
        lemma_row_no_repeats(bs, p, cat, i, n);
        let rowm = pairs_matches(bs, cat, row_pairs(bs, p, i, n));
        lemma_pair_hits_no_repeats(b, l, Participant::Angle(Angle::Ascendant), m.ascendant, cat, cat.len() as int);
        lemma_pair_hits_no_repeats(b, l, Participant::Angle(Angle::Midheaven), m.midheaven, cat, cat.len() as int);
        let asc = if shows_angle(p, Angle::Ascendant) {
            pair_hits(b, l, Participant::Angle(Angle::Ascendant), m.ascendant, cat, cat.len() as int)
        } else {
            seq![]
        };
        let mc = if shows_angle(p, Angle::Midheaven) {
            pair_hits(b, l, Participant::Angle(Angle::Midheaven), m.midheaven, cat, cat.len() as int)
        } else {
            seq![]
        };
        assert(angle_matches(m, p, cat, i) == asc + mc);
        lemma_concat_no_repeats(asc, mc);
        let am = asc + mc;
        assert forall|t: int| 0 <= t < am.len() implies (#[trigger] am[t]).first == b
            && am[t].second is Angle by {
            if t < asc.len() {
                assert(am[t] == asc[t]);
            } else {
                assert(am[t] == mc[t - asc.len()]);
            }
        }
        assert forall|x: int, y: int| 0 <= x < rowm.len() && 0 <= y < am.len() implies rowm[x]
            != am[y] by {
            assert(rowm[x].second is Body);
            assert(am[y].second is Angle);
        }
        lemma_concat_no_repeats(rowm, am);
        let all = rowm + am;
        assert forall|t: int| 0 <= t < all.len() implies (#[trigger] all[t]).first == b by {
            if t < rowm.len() {
                assert(all[t] == rowm[t]);
            } else {
                assert(all[t] == am[t - rowm.len()]);
            }
        }
    }
}

proof fn lemma_matches_upto_no_repeats(
    m: ChartModel,
    p: VisibilityPolicy,
    cat: Seq<AspectDefinition>,
    u: int,
)
    requires
        0 <= u <= m.bodies.len(),
        distinct_bodies(m.bodies@),
        cat.len() <= usize::MAX,
    ensures
        no_repeats(matches_upto(m, p, cat, u)),
        forall|t: int|
            0 <= t < matches_upto(m, p, cat, u).len() ==> exists|i: int|
                0 <= i < u && (#[trigger] matches_upto(m, p, cat, u)[t]).first == Participant::Body(
                    #[trigger] m.bodies@[i].body,
                ),
    decreases u,
{
    if u > 0 {
        lemma_matches_upto_no_repeats(m, p, cat, u - 1);
        lemma_block_no_repeats(m, p, cat, u - 1);
        let prev = matches_upto(m, p, cat, u - 1);
        let blk = body_block(m, p, cat, u - 1);
        assert forall|x: int, y: int| 0 <= x < prev.len() && 0 <= y < blk.len() implies prev[x]
            != blk[y] by {
            let i = choose|i: int| 0 <= i < u - 1 && prev[x].first == Participant::Body(
                #[trigger] m.bodies@[i].body,
            );
            assert(m.bodies@[i].body != m.bodies@[u - 1].body);
        }
        lemma_concat_no_repeats(prev, blk);
        let all = prev + blk;
        assert forall|t: int| 0 <= t < all.len() implies exists|i: int|
            0 <= i < u && (#[trigger] all[t]).first == Participant::Body(#[trigger] m.bodies@[i].body) by {
            if t < prev.len() {
                assert(all[t] == prev[t]);
                let i = choose|i: int| 0 <= i < u - 1 && prev[t].first == Participant::Body(
                    #[trigger] m.bodies@[i].body,
                );
                assert(0 <= i < u && all[t].first == Participant::Body(m.bodies@[i].body));
            } else {
                assert(all[t] == blk[t - prev.len()]);
                assert(all[t].first == Participant::Body(m.bodies@[u - 1].body));
            }
        }
    }
}

/// No match is found twice: together with `lemma_matches_complete`, each
/// qualifying (pair, catalog entry) gives exactly one match.
pub proof fn lemma_matches_unique(m: ChartModel, p: VisibilityPolicy, cat: Seq<AspectDefinition>)
    requires
        m.wf(),
        cat.len() <= usize::MAX,
    ensures
        forall|t1: int, t2: int|
            0 <= t1 < t2 < all_matches(m, p, cat).len() ==> all_matches(m, p, cat)[t1] != all_matches(
                m,
                p,
                cat,
            )[t2],
{
    lemma_matches_upto_no_repeats(m, p, cat, m.bodies.len() as int);
}

/// A one-entry catalog whose entry matches every separation.
pub open spec fn matches_everything(cat: Seq<AspectDefinition>) -> bool {
    cat.len() == 1 && forall|s: int| 0 <= s <= HALF_TURN ==> #[trigger] within_orb(s, cat[0])
}

proof fn lemma_pair_hits_one(a: Participant, la: i64, b: Participant, lb: i64, cat: Seq<AspectDefinition>)
    requires
        matches_everything(cat),
    ensures
        pair_hits(a, la, b, lb, cat, cat.len() as int).len() == 1,
{
    let s = sep(la as int, lb as int);
    crate::angle::lemma_separation_bounded(la as int, lb as int);
    assert(within_orb(s, cat[0]));
    assert(pair_hits(a, la, b, lb, cat, 0).len() == 0);
}

proof fn lemma_pairs_matches_len(bodies: Seq<CelestialBody>, cat: Seq<AspectDefinition>, pairs: Seq<(int, int)>)
    requires
        matches_everything(cat),
    ensures
        pairs_matches(bodies, cat, pairs).len() == pairs.len(),
    decreases pairs.len(),
{
    if pairs.len() > 0 {
        lemma_pairs_matches_len(bodies, cat, pairs.drop_last());
        let q = pairs.last();
        lemma_pair_hits_one(
            Participant::Body(bodies[q.0].body),
            bodies[q.0].longitude,
            Participant::Body(bodies[q.1].body),
            bodies[q.1].longitude,
            cat,
        );
    }
}

/// How many of the Ascendant and the Midheaven are visible.
pub open spec fn aspect_angle_count(p: VisibilityPolicy) -> int {
    (if shows_angle(p, Angle::Ascendant) {
        1int
    } else {
        0int
    }) + (if shows_angle(p, Angle::Midheaven) {
        1int
    } else {
        0int
    })
}

proof fn lemma_matches_upto_len(m: ChartModel, p: VisibilityPolicy, cat: Seq<AspectDefinition>, u: int)
    requires
        matches_everything(cat),
        0 <= u <= m.bodies.len(),
    ensures
        matches_upto(m, p, cat, u).len() == pairs_upto(m.bodies@, p, u).len() + aspect_angle_count(p)
            * visible_count(m.bodies@, p, u),
    decreases u,
{
    if u > 0 {
        let bs = m.bodies@;
        let i = u - 1;
        lemma_matches_upto_len(m, p, cat, u - 1);
        if visible_at(bs, p, i) {
            lemma_pairs_matches_len(bs, cat, row_pairs(bs, p, i, m.bodies.len() as int));
            let b = Participant::Body(bs[i].body);
            lemma_pair_hits_one(b, bs[i].longitude, Participant::Angle(Angle::Ascendant), m.ascendant, cat);
            lemma_pair_hits_one(b, bs[i].longitude, Participant::Angle(Angle::Midheaven), m.midheaven, cat);
            assert(angle_matches(m, p, cat, i).len() == aspect_angle_count(p));
        }
        let c = aspect_angle_count(p);
        let v0 = visible_count(bs, p, u - 1);
        assert(c * (v0 + 1) == c * v0 + c) by (nonlinear_arith);
    }
}

/// With a catalog whose single entry matches every separation, `v` visible
/// bodies, and `c` of the Ascendant and the Midheaven visible, the aspects
/// found number `v * (v - 1) / 2 + c * v`: one per unordered pair of visible
/// bodies and one per visible body and visible angle.
pub proof fn lemma_match_count(m: ChartModel, p: VisibilityPolicy, cat: Seq<AspectDefinition>)
    requires
        matches_everything(cat),
    ensures
        ({
            let v = visible_count(m.bodies@, p, m.bodies.len() as int);
            all_matches(m, p, cat).len() == v * (v - 1) / 2 + aspect_angle_count(p) * v
        }),
{
    lemma_matches_upto_len(m, p, cat, m.bodies.len() as int);
    lemma_body_pairs_exact(m.bodies@, p);
}

} // verus!
