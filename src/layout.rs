use vstd::prelude::*;

use crate::catalog::{valid_catalog, AspectDefinition};
use crate::entity::{all_angles, all_signs, every_angle, every_sign, Angle, Body, Sign};
use crate::matcher::{all_matches, find_aspects, participant_shown, AspectMatch, Participant};
use crate::model::ChartModel;
use crate::visibility::{shows_angle, shows_body, VisibilityPolicy};

verus! {

/// The kind of a drawn object.
#[derive(Clone, Copy, PartialEq, Eq, Structural, Debug)]
pub enum DataObjectType {
    Angle,
    AngleDeg,
    AngleMin,
    AngleTrait,
    Aspect,
    Chart,
    House,
    Zodiac,
    Planet,
    PlanetDeg,
    PlanetMin,
    PlanetTrait,
}

/// A drawn aspect: its markup, a caption, and the aspects it shows.
#[derive(Clone, Debug)]
pub struct DataObjectAspectSvg {
    pub svg: String,
    pub text: String,
    pub aspects: Vec<AspectDefinition>,
}

/// What one drawn object shows.
#[derive(Clone, Copy, PartialEq, Eq, Structural, Debug)]
pub enum Subject {
    Whole,
    Sign(Sign),
    /// A house, numbered from 1 to 12.
    House(u8),
    Angle(Angle),
    Body(Body),
    Aspect(AspectMatch),
}

/// One object for the drawing layer to draw, in output order.
#[derive(Clone, Copy, PartialEq, Eq, Structural, Debug)]
pub struct DrawStep {
    pub object_type: DataObjectType,
    pub subject: Subject,
}

pub open spec fn step(t: DataObjectType, s: Subject) -> DrawStep {
    DrawStep { object_type: t, subject: s }
}

pub open spec fn sign_steps() -> Seq<DrawStep> {
    every_sign().map_values(|s: Sign| step(DataObjectType::Zodiac, Subject::Sign(s)))
}

pub open spec fn house_steps() -> Seq<DrawStep> {
    Seq::new(12, |k: int| step(DataObjectType::House, Subject::House((k + 1) as u8)))
}

/// The four parts of a visible angle: marker, degrees, minutes, caption.
pub open spec fn angle_parts(a: Angle) -> Seq<DrawStep> {
    seq![
        step(DataObjectType::Angle, Subject::Angle(a)),
        step(DataObjectType::AngleDeg, Subject::Angle(a)),
        step(DataObjectType::AngleMin, Subject::Angle(a)),
        step(DataObjectType::AngleTrait, Subject::Angle(a)),
    ]
}

/// The four parts of a visible body: glyph, degrees, minutes, caption.
pub open spec fn body_parts(b: Body) -> Seq<DrawStep> {
    seq![
        step(DataObjectType::Planet, Subject::Body(b)),
        step(DataObjectType::PlanetDeg, Subject::Body(b)),
        step(DataObjectType::PlanetMin, Subject::Body(b)),
        step(DataObjectType::PlanetTrait, Subject::Body(b)),
    ]
}

pub open spec fn angle_steps(p: VisibilityPolicy, u: int) -> Seq<DrawStep>
    decreases u,
{
    if u <= 0 {
        seq![]
    } else {
        angle_steps(p, u - 1) + if shows_angle(p, every_angle()[u - 1]) {
            angle_parts(every_angle()[u - 1])
        } else {
            seq![]
        }
    }
}

pub open spec fn body_steps(m: ChartModel, p: VisibilityPolicy, u: int) -> Seq<DrawStep>
    decreases u,
{
    if u <= 0 {
        seq![]
    } else {
        body_steps(m, p, u - 1) + if shows_body(p, m.bodies[u - 1].body) {
            body_parts(m.bodies[u - 1].body)
        } else {
            seq![]
        }
    }
}

pub open spec fn aspect_steps(ms: Seq<AspectMatch>) -> Seq<DrawStep> {
    ms.map_values(|a: AspectMatch| step(DataObjectType::Aspect, Subject::Aspect(a)))
}

/// The step that draws a participant's own marker.
pub open spec fn marker(x: Participant) -> DrawStep {
    match x {
        Participant::Body(b) => step(DataObjectType::Planet, Subject::Body(b)),
        Participant::Angle(a) => step(DataObjectType::Angle, Subject::Angle(a)),
    }
}

/// A participant's marker is among the steps.
pub open spec fn drawn_in(steps: Seq<DrawStep>, x: Participant) -> bool {
    exists|w: int| 0 <= w < steps.len() && #[trigger] steps[w] == marker(x)
}

proof fn lemma_body_steps_draw(m: ChartModel, p: VisibilityPolicy, u: int, k: int)
    requires
        0 <= k < u <= m.bodies.len(),
        shows_body(p, m.bodies@[k].body),
    ensures
        drawn_in(body_steps(m, p, u), Participant::Body(m.bodies@[k].body)),
    decreases u,
{
    let prev = body_steps(m, p, u - 1);
    let all = body_steps(m, p, u);
    if k < u - 1 {
        lemma_body_steps_draw(m, p, u - 1, k);
        let w = choose|w: int| 0 <= w < prev.len() && #[trigger] prev[w] == marker(
            Participant::Body(m.bodies@[k].body),
        );
        assert(all[w] == prev[w]);
    } else {
        assert(all[prev.len() as int] == marker(Participant::Body(m.bodies@[k].body)));
    }
}

proof fn lemma_angle_steps_draw(p: VisibilityPolicy, u: int, j: int)
    requires
        0 <= j < u <= 4,
        shows_angle(p, every_angle()[j]),
    ensures
        drawn_in(angle_steps(p, u), Participant::Angle(every_angle()[j])),
    decreases u,
{
    let prev = angle_steps(p, u - 1);
    let all = angle_steps(p, u);
    if j < u - 1 {
        lemma_angle_steps_draw(p, u - 1, j);
        let w = choose|w: int| 0 <= w < prev.len() && #[trigger] prev[w] == marker(
            Participant::Angle(every_angle()[j]),
        );
        assert(all[w] == prev[w]);
    } else {
        assert(all[prev.len() as int] == marker(Participant::Angle(every_angle()[j])));
    }
}

proof fn lemma_no_aspect_before(m: ChartModel, p: VisibilityPolicy, ua: int, ub: int)
    requires
        0 <= ua,
        0 <= ub,
    ensures
        forall|w: int|
            0 <= w < angle_steps(p, ua).len() ==> !((#[trigger] angle_steps(p, ua)[w]).subject is Aspect),
        forall|w: int|
            0 <= w < body_steps(m, p, ub).len() ==> !((#[trigger] body_steps(m, p, ub)[w]).subject is Aspect),
    decreases ua + ub,
{
    if ua > 0 {
        lemma_no_aspect_before(m, p, ua - 1, ub);
        let prev = angle_steps(p, ua - 1);
        let all = angle_steps(p, ua);
        assert forall|w: int| 0 <= w < all.len() implies !((#[trigger] all[w]).subject is Aspect) by {
            if w < prev.len() {
                assert(all[w] == prev[w]);
            }
        }
    }
    if ub > 0 {
        lemma_no_aspect_before(m, p, ua, ub - 1);
        let prev = body_steps(m, p, ub - 1);
        let all = body_steps(m, p, ub);
        assert forall|w: int| 0 <= w < all.len() implies !((#[trigger] all[w]).subject is Aspect) by {
            if w < prev.len() {
                assert(all[w] == prev[w]);
            }
        }
    }
}

/// A shown participant has its marker in the plan's angle or body part.
proof fn lemma_shown_is_drawn(
    m: ChartModel,
    p: VisibilityPolicy,
    head: Seq<DrawStep>,
    tail: Seq<DrawStep>,
    x: Participant,
)
    requires
        participant_shown(m, p, x),
    ensures
        drawn_in(head + angle_steps(p, 4) + body_steps(m, p, m.bodies.len() as int) + tail, x),
{
    let a = angle_steps(p, 4);
    let b = body_steps(m, p, m.bodies.len() as int);
    let all = head + a + b + tail;
    match x {
        Participant::Body(body) => {
            let k = choose|k: int| 0 <= k < m.bodies.len() && #[trigger] m.bodies@[k].body == body;
            lemma_body_steps_draw(m, p, m.bodies.len() as int, k);
            let w = choose|w: int| 0 <= w < b.len() && #[trigger] b[w] == marker(x);
            assert(all[head.len() + a.len() + w] == b[w]);
        },
        Participant::Angle(angle) => {
            let j: int = match angle {
                Angle::Ascendant => 0,
                Angle::ImumCoeli => 1,
                Angle::Descendant => 2,
                Angle::Midheaven => 3,
            };
            assert(every_angle()[j] == angle);
            lemma_angle_steps_draw(p, 4, j);
            let w = choose|w: int| 0 <= w < a.len() && #[trigger] a[w] == marker(x);
            assert(all[head.len() + w] == a[w]);
        },
    }
}

/// The whole output order: the chart, the twelve signs, the twelve houses,
/// the visible angles, the visible bodies, and then every aspect found.
pub open spec fn chart_plan(m: ChartModel, p: VisibilityPolicy, cat: Seq<AspectDefinition>) -> Seq<
    DrawStep,
> {
    seq![step(DataObjectType::Chart, Subject::Whole)] + sign_steps() + house_steps() + angle_steps(
        p,
        4,
    ) + body_steps(m, p, m.bodies.len() as int) + aspect_steps(all_matches(m, p, cat))
}

/// Lists, in output order, every object that a chart is drawn from.
pub fn plan_chart(model: &ChartModel, policy: &VisibilityPolicy, catalog: &Vec<AspectDefinition>) -> (r:
    Vec<DrawStep>)
    requires
        model.wf(),
        valid_catalog(catalog@),
    ensures
        r@ == chart_plan(*model, *policy, catalog@),
        r@[0] == step(DataObjectType::Chart, Subject::Whole),
        forall|k: int|
            0 <= k < 12 ==> #[trigger] r@[13 + k] == step(
                DataObjectType::House,
                Subject::House((k + 1) as u8),
            ),
        forall|t: int|
            0 <= t < r.len() ==> ((#[trigger] r@[t]).subject matches Subject::Aspect(a) ==> drawn_in(
                r@,
                a.first,
            ) && drawn_in(r@, a.second)),
{
    let mut out: Vec<DrawStep> = Vec::new();
    out.push(DrawStep { object_type: DataObjectType::Chart, subject: Subject::Whole });
    let signs = all_signs();
    let mut i: usize = 0;
    while i < signs.len()
        invariant
            signs@ == every_sign(),
            0 <= i <= signs.len(),
            out@ == seq![step(DataObjectType::Chart, Subject::Whole)] + sign_steps().take(i as int),
        decreases signs.len() - i,
    {
        out.push(DrawStep { object_type: DataObjectType::Zodiac, subject: Subject::Sign(signs[i]) });
        i = i + 1;
        proof {
            assert(out@ =~= seq![step(DataObjectType::Chart, Subject::Whole)] + sign_steps().take(
                i as int,
            ));
        }
    }
    let ghost head = seq![step(DataObjectType::Chart, Subject::Whole)] + sign_steps();
    assert(out@ =~= head);
    let mut h: u8 = 0;
    while h < 12
        invariant
            0 <= h <= 12,
            out@ == head + house_steps().take(h as int),
        decreases 12 - h,
    {
        out.push(DrawStep { object_type: DataObjectType::House, subject: Subject::House(h + 1) });
        h = h + 1;
        proof {
            assert(out@ =~= head + house_steps().take(h as int));
        }
    }
    let ghost head2 = head + house_steps();
    assert(out@ =~= head2);
    let angles = all_angles();
    let mut a: usize = 0;
    while a < angles.len()
        invariant
            angles@ == every_angle(),
            0 <= a <= angles.len(),
            out@ == head2 + angle_steps(*policy, a as int),
        decreases angles.len() - a,
    {
        let x = angles[a];
        if policy.is_angle_visible(x) {
            out.push(DrawStep { object_type: DataObjectType::Angle, subject: Subject::Angle(x) });
            out.push(DrawStep { object_type: DataObjectType::AngleDeg, subject: Subject::Angle(x) });
            out.push(DrawStep { object_type: DataObjectType::AngleMin, subject: Subject::Angle(x) });
            out.push(DrawStep { object_type: DataObjectType::AngleTrait, subject: Subject::Angle(x) });
        }
        a = a + 1;
        proof {
            assert(out@ =~= head2 + angle_steps(*policy, a as int));
        }
    }
    let ghost head3 = head2 + angle_steps(*policy, 4);
    let mut b: usize = 0;
    while b < model.bodies.len()
        invariant
            0 <= b <= model.bodies.len(),
            out@ == head3 + body_steps(*model, *policy, b as int),
        decreases model.bodies.len() - b,
    {
        let x = model.bodies[b].body;
        if policy.is_body_visible(x) {
            out.push(DrawStep { object_type: DataObjectType::Planet, subject: Subject::Body(x) });
            out.push(DrawStep { object_type: DataObjectType::PlanetDeg, subject: Subject::Body(x) });
            out.push(DrawStep { object_type: DataObjectType::PlanetMin, subject: Subject::Body(x) });
            out.push(DrawStep { object_type: DataObjectType::PlanetTrait, subject: Subject::Body(x) });
        }
        b = b + 1;
        proof {
            assert(out@ =~= head3 + body_steps(*model, *policy, b as int));
        }
    }
    let ghost head4 = out@;
    let found = find_aspects(model, policy, catalog);
    let mut k: usize = 0;
    while k < found.len()
        invariant
            0 <= k <= found.len(),
            out@ == head4 + aspect_steps(found@.take(k as int)),
        decreases found.len() - k,
    {
        out.push(DrawStep { object_type: DataObjectType::Aspect, subject: Subject::Aspect(found[k]) });
        k = k + 1;
        proof {
            assert(out@ =~= head4 + aspect_steps(found@.take(k as int)));
        }
    }
    assert(found@.take(found.len() as int) =~= found@);
    assert(out@ =~= chart_plan(*model, *policy, catalog@));
    assert forall|k: int| 0 <= k < 12 implies #[trigger] out@[13 + k] == step(
        DataObjectType::House,
        Subject::House((k + 1) as u8),
    ) by {
        assert(out@[13 + k] == head2[13 + k]);
    }
    let ghost tail = aspect_steps(found@);
    assert(out@ == head2 + angle_steps(*policy, 4) + body_steps(*model, *policy, model.bodies.len() as int)
        + tail);
    assert forall|t: int| 0 <= t < out.len() implies ((#[trigger] out@[t]).subject matches Subject::Aspect(
        a,
    ) ==> drawn_in(out@, a.first) && drawn_in(out@, a.second)) by {
        let start = out.len() - tail.len();
        if out@[t].subject is Aspect {
            if t >= start {
                assert(out@[t] == tail[t - start]);
                let a = found@[t - start];
                lemma_shown_is_drawn(*model, *policy, head2, tail, a.first);
                lemma_shown_is_drawn(*model, *policy, head2, tail, a.second);
            } else {
                lemma_no_aspect_before(*model, *policy, 4, model.bodies.len() as int);
                let a = angle_steps(*policy, 4);
                let b = body_steps(*model, *policy, model.bodies.len() as int);
                if t < head2.len() {
                    assert(out@[t] == head2[t]);
                    if t >= 13 {
                        assert(head2[t] == house_steps()[t - 13]);
                    } else if t >= 1 {
                        assert(head2[t] == sign_steps()[t - 1]);
                    }
                } else if t < head2.len() + a.len() {
                    assert(out@[t] == a[t - head2.len()]);
                } else {
                    assert(out@[t] == b[t - head2.len() - a.len()]);
                }
            }
        }
    }
    out
}

/// The same model, visibility policy and catalog always give the same output
/// sequence, order included.
pub proof fn lemma_plan_deterministic(
    m1: ChartModel,
    m2: ChartModel,
    p: VisibilityPolicy,
    cat: Seq<AspectDefinition>,
)
    requires
        m1.bodies@ == m2.bodies@,
        m1.ascendant == m2.ascendant,
        m1.midheaven == m2.midheaven,
    ensures
        chart_plan(m1, p, cat) == chart_plan(m2, p, cat),
{
    lemma_body_steps_same(m1, m2, p, m1.bodies.len() as int);
    lemma_matches_same(m1, m2, p, cat, m1.bodies.len() as int);
}

proof fn lemma_body_steps_same(m1: ChartModel, m2: ChartModel, p: VisibilityPolicy, u: int)
    requires
        m1.bodies@ == m2.bodies@,
    ensures
        body_steps(m1, p, u) == body_steps(m2, p, u),
    decreases u,
{
    if u > 0 {
        lemma_body_steps_same(m1, m2, p, u - 1);
    }
}

proof fn lemma_matches_same(
    m1: ChartModel,
    m2: ChartModel,
    p: VisibilityPolicy,
    cat: Seq<AspectDefinition>,
    u: int,
)
    requires
        m1.bodies@ == m2.bodies@,
        m1.ascendant == m2.ascendant,
        m1.midheaven == m2.midheaven,
    ensures
        crate::matcher::matches_upto(m1, p, cat, u) == crate::matcher::matches_upto(m2, p, cat, u),
    decreases u,
{
    if u > 0 {
        lemma_matches_same(m1, m2, p, cat, u - 1);
    }
}

} // verus!
