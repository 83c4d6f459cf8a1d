//! The selection engine: hard mandatory filtering with structured failure,
//! best-effort advanced filtering, narrowing to the candidates nearest the
//! mandatory ideal hints, and pluggable tie-breaking among the rest.

use vstd::prelude::*;
use vstd::slice::slice_index_get;

use crate::assoc::plookup;
use crate::constraint::describe_constraint;
use crate::constraint::MediaTrackConstraint;
use crate::constraint::MediaTrackConstraintSet;
use crate::errors::build_overconstrained_message;
use crate::errors::overconstrained_message;
use crate::errors::OverconstrainedError;
use crate::errors::SelectSettingsError;
use crate::fitness::constraints_distance;
use crate::fitness::constraints_distance_exec;
use crate::fitness::eval_constraint;
use crate::fitness::evaluate;
use crate::fitness::settings_distance;
use crate::fitness::settings_distance_exec;
use crate::fitness::structural_reason;
use crate::fitness::structural_reason_exec;
use crate::fitness::Verdict;
use crate::property::MediaTrackSupportedConstraints;
use crate::property::Property;
use crate::sets::set_views;
use crate::sets::AdvancedMediaTrackConstraints;
use crate::sets::SanitizedMediaTrackConstraints;
use crate::settings::MediaTrackSettings;
use crate::text::lemma_str_views_push;
use crate::text::render_value;
use crate::text::render_value_string;
use crate::text::str_views;

verus! {

/// The indices `0` to `n - 1`, in order: every candidate survives an empty
/// constraint set.
pub open spec fn all_indices(n: nat) -> Seq<usize> {
    Seq::new(n, |i: int| i as usize)
}

/// The surviving indices whose candidate satisfies the constraint, order
/// kept.
pub open spec fn filter_satisfying(
    cands: Seq<MediaTrackSettings>,
    surv: Seq<usize>,
    p: Property,
    c: MediaTrackConstraint,
) -> Seq<usize>
    decreases surv.len(),
{
    if surv.len() == 0 {
        Seq::empty()
    } else {
        let r = filter_satisfying(cands, surv.drop_last(), p, c);
        if eval_constraint(cands[surv.last() as int]@, p, c) == Verdict::Satisfied {
            r.push(surv.last())
        } else {
            r
        }
    }
}

/// The mandatory stage from constraint `k` on: each constraint in order
/// narrows the survivors to those satisfying it; the first constraint whose
/// narrowing would be empty stops the stage, blamed together with the
/// survivors as they stood before it.
pub open spec fn mand_rec(
    cands: Seq<MediaTrackSettings>,
    entries: Seq<(Property, MediaTrackConstraint)>,
    k: int,
    surv: Seq<usize>,
) -> Result<Seq<usize>, (int, Seq<usize>)>
    decreases entries.len() - k,
{
    if k < 0 || k >= entries.len() {
        Result::Ok(surv)
    } else {
        let ns = filter_satisfying(cands, surv, entries[k].0, entries[k].1);
        if ns.len() == 0 {
            Result::Err((k, surv))
        } else {
            mand_rec(cands, entries, k + 1, ns)
        }
    }
}

/// The rendered values of property `p` among the surviving candidates on
/// which it is present, in survivor order.
pub open spec fn present_rendered(
    cands: Seq<MediaTrackSettings>,
    surv: Seq<usize>,
    p: Property,
) -> Seq<Seq<char>>
    decreases surv.len(),
{
    if surv.len() == 0 {
        Seq::empty()
    } else {
        let r = present_rendered(cands, surv.drop_last(), p);
        match plookup(cands[surv.last() as int]@, p) {
            Some(v) => r.push(render_value(v)),
            None => r,
        }
    }
}

/// Whether the settings satisfy every constraint of the entry.
pub open spec fn set_satisfied(
    sv: Seq<(Property, crate::value::Value)>,
    es: Seq<(Property, MediaTrackConstraint)>,
) -> bool {
    forall|i: int|
        0 <= i < es.len() ==> eval_constraint(sv, es[i].0, es[i].1) == Verdict::Satisfied
}

/// The surviving indices whose candidate satisfies the whole entry, order
/// kept.
pub open spec fn filter_set_sat(
    cands: Seq<MediaTrackSettings>,
    surv: Seq<usize>,
    es: Seq<(Property, MediaTrackConstraint)>,
) -> Seq<usize>
    decreases surv.len(),
{
    if surv.len() == 0 {
        Seq::empty()
    } else {
        let r = filter_set_sat(cands, surv.drop_last(), es);
        if set_satisfied(cands[surv.last() as int]@, es) {
            r.push(surv.last())
        } else {
            r
        }
    }
}

/// The advanced stage from entry `k` on: an entry narrows the survivors to
/// the subset satisfying it when that subset is non-empty, and is skipped
/// otherwise; an earlier narrowing is never undone.
pub open spec fn adv_rec(
    cands: Seq<MediaTrackSettings>,
    svs: Seq<Seq<(Property, MediaTrackConstraint)>>,
    k: int,
    surv: Seq<usize>,
) -> Seq<usize>
    decreases svs.len() - k,
{
    if k < 0 || k >= svs.len() {
        surv
    } else {
        let ns = filter_set_sat(cands, surv, svs[k]);
        adv_rec(
            cands,
            svs,
            k + 1,
            if ns.len() == 0 {
                surv
            } else {
                ns
            },
        )
    }
}

/// The least total ideal distance (to the mandatory constraints' ideal
/// hints) among the surviving candidates.
pub open spec fn min_distance_over(
    cands: Seq<MediaTrackSettings>,
    entries: Seq<(Property, MediaTrackConstraint)>,
    surv: Seq<usize>,
) -> int
    recommends
        surv.len() > 0,
    decreases surv.len(),
{
    if surv.len() <= 1 {
        constraints_distance(cands[surv[0] as int]@, entries)
    } else {
        let m = min_distance_over(cands, entries, surv.drop_last());
        let d = constraints_distance(cands[surv.last() as int]@, entries);
        if d < m {
            d
        } else {
            m
        }
    }
}

/// The surviving indices whose candidate's total ideal distance is `m`,
/// order kept.
pub open spec fn filter_min(
    cands: Seq<MediaTrackSettings>,
    entries: Seq<(Property, MediaTrackConstraint)>,
    surv: Seq<usize>,
    m: int,
) -> Seq<usize>
    decreases surv.len(),
{
    if surv.len() == 0 {
        Seq::empty()
    } else {
        let r = filter_min(cands, entries, surv.drop_last(), m);
        if constraints_distance(cands[surv.last() as int]@, entries) == m {
            r.push(surv.last())
        } else {
            r
        }
    }
}

/// The survivors narrowed to those nearest the mandatory ideal hints.
pub open spec fn narrowed(
    cands: Seq<MediaTrackSettings>,
    entries: Seq<(Property, MediaTrackConstraint)>,
    surv: Seq<usize>,
) -> Seq<usize> {
    filter_min(cands, entries, surv, min_distance_over(cands, entries, surv))
}

/// Narrowing a non-empty survivor set keeps at least one candidate: the
/// least distance is attained.
pub proof fn lemma_narrowed_nonempty(
    cands: Seq<MediaTrackSettings>,
    entries: Seq<(Property, MediaTrackConstraint)>,
    surv: Seq<usize>,
)
    requires
        surv.len() > 0,
    ensures
        narrowed(cands, entries, surv).len() > 0,
    decreases surv.len(),
{
    if surv.len() > 1 {
        let m = min_distance_over(cands, entries, surv);
        let d = constraints_distance(cands[surv.last() as int]@, entries);
        if d < min_distance_over(cands, entries, surv.drop_last()) {
        } else {
            lemma_narrowed_nonempty(cands, entries, surv.drop_last());
        }
    }
}

/// A tie-breaking policy: picks one of a non-empty set of surviving
/// candidate indices, as a pure function of the candidates and the
/// survivors.
pub trait TieBreakingPolicy: Sized {
    /// The index the policy picks.
    spec fn spec_choice(&self, cands: Seq<MediaTrackSettings>, surv: Seq<usize>) -> usize;

    /// The pick is always one of the survivors.
    proof fn spec_choice_in_survivors(&self, cands: Seq<MediaTrackSettings>, surv: Seq<usize>)
        requires
            surv.len() > 0,
        ensures
            surv.contains(self.spec_choice(cands, surv)),
    ;

    /// Picks one of the surviving indices, exactly as `spec_choice` says.
    fn break_tie(&self, cands: &[MediaTrackSettings], surv: &Vec<usize>) -> (r: usize)
        requires
            surv@.len() > 0,
            forall|t: int| 0 <= t < surv@.len() ==> surv@[t] < cands@.len(),
        ensures
            r == self.spec_choice(cands@, surv@),
            surv@.contains(r),
    ;
}

/// First-wins: the earliest candidate, in original order, that survived
/// both filter stages.
pub struct SelectFirstSettingsPolicy;

impl TieBreakingPolicy for SelectFirstSettingsPolicy {
    open spec fn spec_choice(&self, cands: Seq<MediaTrackSettings>, surv: Seq<usize>) -> usize {
        surv[0]
    }

    proof fn spec_choice_in_survivors(&self, cands: Seq<MediaTrackSettings>, surv: Seq<usize>) {
        assert(surv.contains(surv[0]));
    }

    fn break_tie(&self, cands: &[MediaTrackSettings], surv: &Vec<usize>) -> (r: usize)
    {
        let r = surv[0];
        proof {
            assert(surv@.contains(surv@[0]));
        }
        r
    }
}

/// The first survivor whose ideal distance to `surv.drop_last()` is
/// smallest: the recursion keeps the earlier index on ties.
pub open spec fn spec_ideal_choice(
    cands: Seq<MediaTrackSettings>,
    target: Seq<(Property, crate::value::Value)>,
    sup: Seq<Property>,
    surv: Seq<usize>,
) -> usize
    recommends
        surv.len() > 0,
    decreases surv.len(),
{
    if surv.len() <= 1 {
        surv[0]
    } else {
        let p = spec_ideal_choice(cands, target, sup, surv.drop_last());
        if settings_distance(cands[surv.last() as int]@, target, sup) < settings_distance(
            cands[p as int]@,
            target,
            sup,
        ) {
            surv.last()
        } else {
            p
        }
    }
}

/// The ideal choice is always one of the survivors.
proof fn lemma_ideal_choice_in_survivors(
    cands: Seq<MediaTrackSettings>,
    target: Seq<(Property, crate::value::Value)>,
    sup: Seq<Property>,
    surv: Seq<usize>,
)
    requires
        surv.len() > 0,
    ensures
        surv.contains(spec_ideal_choice(cands, target, sup, surv)),
    decreases surv.len(),
{
    if surv.len() <= 1 {
        assert(surv.contains(surv[0]));
    } else {
        lemma_ideal_choice_in_survivors(cands, target, sup, surv.drop_last());
        let p = spec_ideal_choice(cands, target, sup, surv.drop_last());
        let t = choose|t: int| 0 <= t < surv.drop_last().len() && surv.drop_last()[t] == p;
        assert(surv[t] == p);
        assert(surv[surv.len() - 1] == surv.last());
    }
}

/// Minimum-ideal-distance tie-breaking: the survivor nearest a target
/// settings object, distances restricted to the supported properties; ties
/// go to the earliest survivor.
pub struct SelectIdealSettingsPolicy {
    pub ideal: MediaTrackSettings,
    pub supported: MediaTrackSupportedConstraints,
}

impl SelectIdealSettingsPolicy {
    /// A policy preferring candidates near `ideal`, judged over
    /// `supported` properties only.
    pub fn new(ideal: MediaTrackSettings, supported: &MediaTrackSupportedConstraints) -> (r: Self)
        ensures
            r.ideal == ideal,
            r.supported@ == supported@,
    {
        SelectIdealSettingsPolicy { ideal, supported: supported.duplicate() }
    }
}

impl TieBreakingPolicy for SelectIdealSettingsPolicy {
    open spec fn spec_choice(&self, cands: Seq<MediaTrackSettings>, surv: Seq<usize>) -> usize {
        spec_ideal_choice(cands, self.ideal@, self.supported@, surv)
    }

    proof fn spec_choice_in_survivors(&self, cands: Seq<MediaTrackSettings>, surv: Seq<usize>) {
        lemma_ideal_choice_in_survivors(cands, self.ideal@, self.supported@, surv);
    }

    fn break_tie(&self, cands: &[MediaTrackSettings], surv: &Vec<usize>) -> (r: usize)
    {
        let mut best: usize = surv[0];
        let mut best_d: u128 = settings_distance_exec(
            slice_index_get(cands, best),
            &self.ideal,
            &self.supported,
        );
        let mut t: usize = 1;
        proof {
            assert(surv@.take(1)[0] == surv@[0]);
            assert(spec_ideal_choice(cands@, self.ideal@, self.supported@, surv@.take(1))
                == surv@[0]);
        }
        while t < surv.len()
            invariant
                1 <= t <= surv@.len(),
                forall|u: int| 0 <= u < surv@.len() ==> surv@[u] < cands@.len(),
                best < cands@.len(),
                exists|u: int| 0 <= u < t && surv@[u] == best,
                best == spec_ideal_choice(cands@, self.ideal@, self.supported@, surv@.take(t as int)),
                best_d as int == settings_distance(cands@[best as int]@, self.ideal@, self.supported@),
            decreases surv@.len() - t,
        {
            let j = surv[t];
            let d: u128 = settings_distance_exec(
                slice_index_get(cands, j),
                &self.ideal,
                &self.supported,
            );
            proof {
                assert(surv@.take(t as int + 1).drop_last() =~= surv@.take(t as int));
                assert(surv@.take(t as int + 1).last() == surv@[t as int]);
            }
            if d < best_d {
                best = j;
                best_d = d;
            }
            t = t + 1;
        }
        proof {
            assert(surv@.take(surv@.len() as int) =~= surv@);
        }
        best
    }
}

/// The whole selection, as a function of its inputs: the mandatory stage's
/// failure, or the index the policy picks among the narrowed survivors of
/// the advanced stage.
pub open spec fn spec_selection<T: TieBreakingPolicy>(
    cands: Seq<MediaTrackSettings>,
    mand: Seq<(Property, MediaTrackConstraint)>,
    advs: Seq<Seq<(Property, MediaTrackConstraint)>>,
    policy: T,
) -> Result<usize, (int, Seq<usize>)> {
    match mand_rec(cands, mand, 0, all_indices(cands.len())) {
        Result::Err(ek) => Result::Err(ek),
        Result::Ok(surv) => {
            let s2 = adv_rec(cands, advs, 0, surv);
            let s3 = narrowed(cands, mand, s2);
            Result::Ok(policy.spec_choice(cands, s3))
        },
    }
}

/// Runs the mandatory stage, producing the surviving indices or the
/// Overconstrained error of the first constraint that would empty them.
fn apply_mandatory(cands: &[MediaTrackSettings], mandatory: &MediaTrackConstraintSet) -> (r:
    Result<Vec<usize>, OverconstrainedError>)
    ensures
        match r {
            Ok(v) => mand_rec(cands@, mandatory@, 0, all_indices(cands@.len()))
                == Result::<Seq<usize>, (int, Seq<usize>)>::Ok(v@) && (forall|t: int|
                0 <= t < v@.len() ==> v@[t] < cands@.len()) && (cands@.len() > 0 ==> v@.len() > 0),
            Err(e) => mand_rec(cands@, mandatory@, 0, all_indices(cands@.len())) matches Result::Err(
                ek,
            ) && 0 <= ek.0 < mandatory@.len() && e.constraint == mandatory@[ek.0].0 && (
            e.message matches Some(m) && m@ == overconstrained_message(
                structural_reason(mandatory@[ek.0].1),
                present_rendered(cands@, ek.1, mandatory@[ek.0].0),
                describe_constraint(mandatory@[ek.0].1),
            )),
        },
{
    let n = cands.len();
    let mut surv: Vec<usize> = Vec::new();
    let mut i: usize = 0;
    while i < n
        invariant
            0 <= i <= n,
            n == cands@.len(),
            surv@ == all_indices(i as nat),
        decreases n - i,
    {
        surv.push(i);
        proof {
            assert(surv@ =~= all_indices((i + 1) as nat));
        }
        i = i + 1;
    }
    let mut k: usize = 0;
    while k < mandatory.len()
        invariant
            0 <= k <= mandatory@.len(),
            mand_rec(cands@, mandatory@, 0, all_indices(cands@.len())) == mand_rec(
                cands@,
                mandatory@,
                k as int,
                surv@,
            ),
            forall|t: int| 0 <= t < surv@.len() ==> surv@[t] < cands@.len(),
            cands@.len() > 0 ==> surv@.len() > 0,
        decreases mandatory@.len() - k,
    {
        let e = mandatory.entry(k);
        let ghost p = e.0;
        let ghost c = e.1;
        let mut ns: Vec<usize> = Vec::new();
        let mut t: usize = 0;
        proof {
            assert(ns@ =~= filter_satisfying(cands@, surv@.take(0), p, c));
        }
        while t < surv.len()
            invariant
                0 <= t <= surv@.len(),
                p == e.0,
                c == e.1,
                forall|u: int| 0 <= u < surv@.len() ==> surv@[u] < cands@.len(),
                ns@ == filter_satisfying(cands@, surv@.take(t as int), p, c),
                forall|u: int| 0 <= u < ns@.len() ==> ns@[u] < cands@.len(),
            decreases surv@.len() - t,
        {
            let j = surv[t];
            let verdict = evaluate(slice_index_get(cands, j), e.0, &e.1);
            proof {
                assert(surv@.take(t as int + 1).drop_last() =~= surv@.take(t as int));
                assert(surv@.take(t as int + 1).last() == surv@[t as int]);
            }
            if verdict == Verdict::Satisfied {
                ns.push(j);
            }
            t = t + 1;
        }
        proof {
            assert(surv@.take(surv@.len() as int) =~= surv@);
        }
        if ns.len() == 0 {
            let reason = structural_reason_exec(&e.1);
            let mut rvs: Vec<String> = Vec::new();
            let mut t: usize = 0;
            proof {
                assert(str_views(rvs@) =~~= present_rendered(cands@, surv@.take(0), p));
            }
            while t < surv.len()
                invariant
                    0 <= t <= surv@.len(),
                    p == e.0,
                    forall|u: int| 0 <= u < surv@.len() ==> surv@[u] < cands@.len(),
                    str_views(rvs@) == present_rendered(cands@, surv@.take(t as int), p),
                decreases surv@.len() - t,
            {
                let j = surv[t];
                let s = slice_index_get(cands, j);
                proof {
                    assert(surv@.take(t as int + 1).drop_last() =~= surv@.take(t as int));
                    assert(surv@.take(t as int + 1).last() == surv@[t as int]);
                }
                match s.get(e.0) {
                    Some(v) => {
                        let rendered = render_value_string(v);
                        proof {
                            lemma_str_views_push(rvs@, rendered);
                        }
                        rvs.push(rendered);
                    },
                    None => {},
                }
                t = t + 1;
            }
            proof {
                assert(surv@.take(surv@.len() as int) =~= surv@);
            }
            let msg = build_overconstrained_message(reason, rvs, &e.1);
            return Err(OverconstrainedError { constraint: e.0, message: Some(msg) });
        }
        surv = ns;
        k = k + 1;
    }
    Ok(surv)
}

/// Runs the advanced stage: each entry in order narrows the survivors when
/// its subset is non-empty, and is skipped otherwise. Never fails.
fn apply_advanced(
    cands: &[MediaTrackSettings],
    advanced: &AdvancedMediaTrackConstraints,
    surv: Vec<usize>,
) -> (r: Vec<usize>)
    requires
        forall|t: int| 0 <= t < surv@.len() ==> surv@[t] < cands@.len(),
    ensures
        r@ == adv_rec(cands@, set_views(advanced@), 0, surv@),
        forall|t: int| 0 <= t < r@.len() ==> r@[t] < cands@.len(),
        surv@.len() > 0 ==> r@.len() > 0,
{
    let ghost advs = set_views(advanced@);
    let ghost surv0 = surv@;
    let mut surv = surv;
    let mut k: usize = 0;
    while k < advanced.len()
        invariant
            0 <= k <= advanced@.len(),
            advs == set_views(advanced@),
            adv_rec(cands@, advs, 0, surv0) == adv_rec(cands@, advs, k as int, surv@),
            forall|t: int| 0 <= t < surv@.len() ==> surv@[t] < cands@.len(),
            surv0.len() > 0 ==> surv@.len() > 0,
        decreases advanced@.len() - k,
    {
        let cs = advanced.entry(k);
        let ghost esv = cs@;
        proof {
            assert(advs[k as int] == advanced@[k as int]@);
        }
        let mut ns: Vec<usize> = Vec::new();
        let mut t: usize = 0;
        proof {
            assert(ns@ =~= filter_set_sat(cands@, surv@.take(0), esv));
        }
        while t < surv.len()
            invariant
                0 <= t <= surv@.len(),
                esv == cs@,
                forall|u: int| 0 <= u < surv@.len() ==> surv@[u] < cands@.len(),
                ns@ == filter_set_sat(cands@, surv@.take(t as int), esv),
                forall|u: int| 0 <= u < ns@.len() ==> ns@[u] < cands@.len(),
            decreases surv@.len() - t,
        {
            let j = surv[t];
            let ok = satisfies_all(slice_index_get(cands, j), cs);
            proof {
                assert(surv@.take(t as int + 1).drop_last() =~= surv@.take(t as int));
                assert(surv@.take(t as int + 1).last() == surv@[t as int]);
            }
            if ok {
                ns.push(j);
            }
            t = t + 1;
        }
        proof {
            assert(surv@.take(surv@.len() as int) =~= surv@);
        }
        if ns.len() > 0 {
            surv = ns;
        }
        k = k + 1;
    }
    surv
}

/// Whether the candidate satisfies every constraint of the entry.
fn satisfies_all(settings: &MediaTrackSettings, cs: &MediaTrackConstraintSet) -> (r: bool)
    ensures
        r == set_satisfied(settings@, cs@),
{
    let mut i: usize = 0;
    while i < cs.len()
        invariant
            0 <= i <= cs@.len(),
            forall|j: int|
                0 <= j < i ==> eval_constraint(settings@, cs@[j].0, cs@[j].1)
                    == Verdict::Satisfied,
        decreases cs@.len() - i,
    {
        let e = cs.entry(i);
        let verdict = evaluate(settings, e.0, &e.1);
        if !(verdict == Verdict::Satisfied) {
            proof {
                assert(eval_constraint(settings@, cs@[i as int].0, cs@[i as int].1)
                    != Verdict::Satisfied);
            }
            return false;
        }
        i = i + 1;
    }
    true
}

/// Narrows the survivors to those with the least total ideal distance to
/// the mandatory constraints' ideal hints.
fn narrow_to_ideal(
    cands: &[MediaTrackSettings],
    mandatory: &MediaTrackConstraintSet,
    surv: Vec<usize>,
) -> (r: Vec<usize>)
    requires
        surv@.len() > 0,
        forall|t: int| 0 <= t < surv@.len() ==> surv@[t] < cands@.len(),
    ensures
        r@ == narrowed(cands@, mandatory@, surv@),
        r@.len() > 0,
        forall|t: int| 0 <= t < r@.len() ==> r@[t] < cands@.len(),
{
    let mut m: u128 = constraints_distance_exec(slice_index_get(cands, surv[0]), mandatory);
    let mut t: usize = 1;
    proof {
        assert(surv@.take(1)[0] == surv@[0]);
        assert(min_distance_over(cands@, mandatory@, surv@.take(1)) == m as int);
    }
    while t < surv.len()
        invariant
            1 <= t <= surv@.len(),
            forall|u: int| 0 <= u < surv@.len() ==> surv@[u] < cands@.len(),
            m as int == min_distance_over(cands@, mandatory@, surv@.take(t as int)),
        decreases surv@.len() - t,
    {
        let d = constraints_distance_exec(slice_index_get(cands, surv[t]), mandatory);
        proof {
            assert(surv@.take(t as int + 1).drop_last() =~= surv@.take(t as int));
            assert(surv@.take(t as int + 1).last() == surv@[t as int]);
        }
        if d < m {
            m = d;
        }
        t = t + 1;
    }
    proof {
        assert(surv@.take(surv@.len() as int) =~= surv@);
    }
    let mut ns: Vec<usize> = Vec::new();
    let mut t: usize = 0;
    proof {
        assert(ns@ =~= filter_min(cands@, mandatory@, surv@.take(0), m as int));
    }
    while t < surv.len()
        invariant
            0 <= t <= surv@.len(),
            forall|u: int| 0 <= u < surv@.len() ==> surv@[u] < cands@.len(),
            m as int == min_distance_over(cands@, mandatory@, surv@),
            ns@ == filter_min(cands@, mandatory@, surv@.take(t as int), m as int),
            forall|u: int| 0 <= u < ns@.len() ==> ns@[u] < cands@.len(),
        decreases surv@.len() - t,
    {
        let d = constraints_distance_exec(slice_index_get(cands, surv[t]), mandatory);
        proof {
            assert(surv@.take(t as int + 1).drop_last() =~= surv@.take(t as int));
            assert(surv@.take(t as int + 1).last() == surv@[t as int]);
        }
        if d == m {
            ns.push(surv[t]);
        }
        t = t + 1;
    }
    proof {
        assert(surv@.take(surv@.len() as int) =~= surv@);
        lemma_narrowed_nonempty(cands@, mandatory@, surv@);
    }
    ns
}

/// Selects, from the candidates, the one that best satisfies the sanitized
/// constraints: the mandatory stage filters hard and fails with
/// Overconstrained when it would empty the pool; the advanced stage narrows
/// best-effort; the survivors nearest the mandatory ideal hints go to the
/// tie-breaking policy, whose pick is returned. The returned reference is
/// an element of `candidates`.
pub fn select_settings<'a, T: TieBreakingPolicy>(
    candidates: &'a [MediaTrackSettings],
    constraints: &SanitizedMediaTrackConstraints,
    policy: &T,
) -> (r: Result<&'a MediaTrackSettings, SelectSettingsError>)
    requires
        candidates@.len() > 0 || constraints.mandatory@.len() > 0,
    ensures
        match r {
            Ok(s) => spec_selection(
                candidates@,
                constraints.mandatory@,
                set_views(constraints.advanced@),
                *policy,
            ) matches Result::Ok(j) && *s == candidates@[j as int],
            Err(SelectSettingsError::Overconstrained(e)) => spec_selection(
                candidates@,
                constraints.mandatory@,
                set_views(constraints.advanced@),
                *policy,
            ) matches Result::Err(ek) && 0 <= ek.0 < constraints.mandatory@.len() && e.constraint
                == constraints.mandatory@[ek.0].0 && (e.message matches Some(m) && m@
                == overconstrained_message(
                structural_reason(constraints.mandatory@[ek.0].1),
                present_rendered(candidates@, ek.1, constraints.mandatory@[ek.0].0),
                describe_constraint(constraints.mandatory@[ek.0].1),
            )),
        },
{
    let surv = match apply_mandatory(candidates, &constraints.mandatory) {
        Err(e) => {
            return Err(SelectSettingsError::Overconstrained(e));
        },
        Ok(v) => v,
    };
    proof {
        if candidates@.len() == 0 {
            assert(constraints.mandatory@.len() > 0);
            assert(all_indices(0).len() == 0);
            assert(filter_satisfying(
                candidates@,
                all_indices(0),
                constraints.mandatory@[0].0,
                constraints.mandatory@[0].1,
            ).len() == 0);
            assert(false);
        }
    }
    let surv = apply_advanced(candidates, &constraints.advanced, surv);
    let surv = narrow_to_ideal(candidates, &constraints.mandatory, surv);
    let chosen = policy.break_tie(candidates, &surv);
    proof {
        let w = choose|u: int| 0 <= u < surv@.len() && surv@[u] == chosen;
        assert(chosen < candidates@.len());
    }
    Ok(slice_index_get(candidates, chosen))
}

} // verus!
