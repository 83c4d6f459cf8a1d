//! General properties of the selection engine, stated and proved once for
//! all inputs.

use vstd::prelude::*;

use crate::constraint::MediaTrackConstraint;
use crate::fitness::constraints_distance;
use crate::fitness::eval_constraint;
use crate::fitness::Verdict;
use crate::property::Property;
use crate::select::adv_rec;
use crate::select::all_indices;
use crate::select::filter_min;
use crate::select::filter_satisfying;
use crate::select::filter_set_sat;
use crate::select::lemma_narrowed_nonempty;
use crate::select::mand_rec;
use crate::select::min_distance_over;
use crate::select::set_satisfied;
use crate::select::spec_selection;
use crate::select::SelectFirstSettingsPolicy;
use crate::select::TieBreakingPolicy;
use crate::settings::MediaTrackSettings;

verus! {

proof fn lemma_min_distance_no_constraints(cands: Seq<MediaTrackSettings>, surv: Seq<usize>)
    requires
        surv.len() > 0,
    ensures
        min_distance_over(cands, Seq::empty(), surv) == 0,
    decreases surv.len(),
{
    if surv.len() > 1 {
        lemma_min_distance_no_constraints(cands, surv.drop_last());
    }
}

proof fn lemma_filter_min_all_zero(cands: Seq<MediaTrackSettings>, surv: Seq<usize>)
    ensures
        filter_min(cands, Seq::empty(), surv, 0) == surv,
    decreases surv.len(),
{
    if surv.len() > 0 {
        lemma_filter_min_all_zero(cands, surv.drop_last());
        assert(surv.drop_last().push(surv.last()) =~= surv);
    }
}

/// Unconstrained selection with the first-wins policy returns the first
/// candidate: with no mandatory and no advanced constraints, every
/// candidate survives at distance zero, and the policy picks index 0.
pub proof fn lemma_unconstrained_first_policy(
    cands: Seq<MediaTrackSettings>,
    policy: SelectFirstSettingsPolicy,
)
    requires
        cands.len() > 0,
    ensures
        spec_selection(
            cands,
            Seq::<(Property, MediaTrackConstraint)>::empty(),
            Seq::<Seq<(Property, MediaTrackConstraint)>>::empty(),
            policy,
        ) == Result::<usize, (int, Seq<usize>)>::Ok(0usize),
{
    let mand = Seq::<(Property, MediaTrackConstraint)>::empty();
    let advs = Seq::<Seq<(Property, MediaTrackConstraint)>>::empty();
    let all = all_indices(cands.len());
    assert(mand_rec(cands, mand, 0, all) == Result::<Seq<usize>, (int, Seq<usize>)>::Ok(all));
    assert(adv_rec(cands, advs, 0, all) == all);
    lemma_min_distance_no_constraints(cands, all);
    lemma_filter_min_all_zero(cands, all);
    assert(policy.spec_choice(cands, all) == all[0]);
    assert(all[0] == 0usize);
}

/// Selection is deterministic: the outcome is a function of the
/// candidates, the constraints and the policy, so two selections over
/// identical inputs agree.
pub proof fn lemma_selection_deterministic<T: TieBreakingPolicy>(
    cands: Seq<MediaTrackSettings>,
    mand: Seq<(Property, MediaTrackConstraint)>,
    advs: Seq<Seq<(Property, MediaTrackConstraint)>>,
    policy: T,
    r1: Result<usize, (int, Seq<usize>)>,
    r2: Result<usize, (int, Seq<usize>)>,
)
    requires
        r1 == spec_selection(cands, mand, advs, policy),
        r2 == spec_selection(cands, mand, advs, policy),
    ensures
        r1 == r2,
{
}

/// An advanced entry that no current survivor satisfies is skipped: the
/// survivor set passes to the next entry unchanged.
pub proof fn lemma_advanced_entry_skipped(
    cands: Seq<MediaTrackSettings>,
    svs: Seq<Seq<(Property, MediaTrackConstraint)>>,
    k: int,
    surv: Seq<usize>,
)
    requires
        0 <= k < svs.len(),
        filter_set_sat(cands, surv, svs[k]).len() == 0,
    ensures
        adv_rec(cands, svs, k, surv) == adv_rec(cands, svs, k + 1, surv),
{
}

/// An advanced entry that some current survivors satisfy narrows the
/// survivor set to exactly that subset for all later entries; the
/// narrowing is never undone.
pub proof fn lemma_advanced_entry_applied(
    cands: Seq<MediaTrackSettings>,
    svs: Seq<Seq<(Property, MediaTrackConstraint)>>,
    k: int,
    surv: Seq<usize>,
)
    requires
        0 <= k < svs.len(),
        filter_set_sat(cands, surv, svs[k]).len() > 0,
    ensures
        adv_rec(cands, svs, k, surv) == adv_rec(cands, svs, k + 1, filter_set_sat(cands, surv, svs[k])),
{
}

/// The advanced stage only narrows when the narrowing is non-empty, so it
/// never empties a non-empty survivor set.
pub proof fn lemma_advanced_preserves_nonempty(
    cands: Seq<MediaTrackSettings>,
    svs: Seq<Seq<(Property, MediaTrackConstraint)>>,
    k: int,
    surv: Seq<usize>,
)
    requires
        surv.len() > 0,
    ensures
        adv_rec(cands, svs, k, surv).len() > 0,
    decreases svs.len() - k,
{
    if 0 <= k < svs.len() {
        let ns = filter_set_sat(cands, surv, svs[k]);
        if ns.len() == 0 {
            lemma_advanced_preserves_nonempty(cands, svs, k + 1, surv);
        } else {
            lemma_advanced_preserves_nonempty(cands, svs, k + 1, ns);
        }
    }
}

proof fn lemma_mand_rec_ok_nonempty(
    cands: Seq<MediaTrackSettings>,
    entries: Seq<(Property, MediaTrackConstraint)>,
    k: int,
    surv: Seq<usize>,
    s: Seq<usize>,
)
    requires
        0 <= k,
        surv.len() > 0 || k < entries.len(),
        mand_rec(cands, entries, k, surv) == Result::<Seq<usize>, (int, Seq<usize>)>::Ok(s),
    ensures
        s.len() > 0,
    decreases entries.len() - k,
{
    if k < 0 || k >= entries.len() {
    } else {
        let ns = filter_satisfying(cands, surv, entries[k].0, entries[k].1);
        lemma_mand_rec_ok_nonempty(cands, entries, k + 1, ns, s);
    }
}

/// A mandatory stage that succeeds leaves at least one survivor, provided
/// there was a candidate or a constraint: with candidates, some survive
/// every passed filter; with none but a constraint, the stage fails
/// instead.
pub proof fn lemma_mandatory_ok_nonempty(
    cands: Seq<MediaTrackSettings>,
    entries: Seq<(Property, MediaTrackConstraint)>,
    s: Seq<usize>,
)
    requires
        cands.len() > 0 || entries.len() > 0,
        mand_rec(cands, entries, 0, all_indices(cands.len())) == Result::<
            Seq<usize>,
            (int, Seq<usize>),
        >::Ok(s),
    ensures
        s.len() > 0,
{
    lemma_mand_rec_ok_nonempty(cands, entries, 0, all_indices(cands.len()), s);
}

/// The mandatory filter keeps exactly the surviving candidates the
/// constraint is satisfied on: an index passes the filter if and only if
/// it was a survivor and its candidate satisfies the constraint.
pub proof fn lemma_filter_satisfying_members(
    cands: Seq<MediaTrackSettings>,
    surv: Seq<usize>,
    p: Property,
    c: MediaTrackConstraint,
)
    ensures
        forall|x: usize|
            #[trigger] filter_satisfying(cands, surv, p, c).contains(x) <==> (surv.contains(x)
                && eval_constraint(cands[x as int]@, p, c) == Verdict::Satisfied),
    decreases surv.len(),
{
    if surv.len() == 0 {
    } else {
        lemma_filter_satisfying_members(cands, surv.drop_last(), p, c);
        let fs = filter_satisfying(cands, surv, p, c);
        let fsd = filter_satisfying(cands, surv.drop_last(), p, c);
        assert forall|x: usize| #[trigger] fs.contains(x) implies (surv.contains(x)
            && eval_constraint(cands[x as int]@, p, c) == Verdict::Satisfied) by {
            let j = choose|j: int| 0 <= j < fs.len() && fs[j] == x;
            if eval_constraint(cands[surv.last() as int]@, p, c) == Verdict::Satisfied {
                if j < fs.len() - 1 {
                    assert(fsd[j] == x);
                    assert(fsd.contains(x));
                    let t = choose|t: int| 0 <= t < surv.drop_last().len() && surv.drop_last()[t]
                        == x;
                    assert(surv[t] == x);
                } else {
                    assert(x == surv.last());
                    assert(surv[surv.len() - 1] == x);
                }
            } else {
                assert(fsd[j] == x);
                assert(fsd.contains(x));
                let t = choose|t: int| 0 <= t < surv.drop_last().len() && surv.drop_last()[t] == x;
                assert(surv[t] == x);
            }
        }
        assert forall|x: usize| (surv.contains(x) && eval_constraint(cands[x as int]@, p, c)
            == Verdict::Satisfied) implies #[trigger] fs.contains(x) by {
            let t = choose|t: int| 0 <= t < surv.len() && surv[t] == x;
            if t < surv.len() - 1 {
                assert(surv.drop_last()[t] == x);
                assert(surv.drop_last().contains(x));
                assert(fsd.contains(x));
                let j = choose|j: int| 0 <= j < fsd.len() && fsd[j] == x;
                if eval_constraint(cands[surv.last() as int]@, p, c) == Verdict::Satisfied {
                    assert(fs[j] == x);
                } else {
                    assert(fs[j] == x);
                }
            } else {
                assert(x == surv.last());
                assert(fs.last() == x);
            }
        }
    }
}

proof fn lemma_filter_set_sat_subset(
    cands: Seq<MediaTrackSettings>,
    surv: Seq<usize>,
    es: Seq<(Property, MediaTrackConstraint)>,
    x: usize,
)
    requires
        filter_set_sat(cands, surv, es).contains(x),
    ensures
        surv.contains(x),
    decreases surv.len(),
{
    if surv.len() > 0 {
        let fs = filter_set_sat(cands, surv, es);
        let fsd = filter_set_sat(cands, surv.drop_last(), es);
        let j = choose|j: int| 0 <= j < fs.len() && fs[j] == x;
        if set_satisfied(cands[surv.last() as int]@, es) && j == fs.len() - 1 {
            assert(surv[surv.len() - 1] == x);
        } else {
            assert(fsd[j] == x);
            assert(fsd.contains(x));
            lemma_filter_set_sat_subset(cands, surv.drop_last(), es, x);
            let t = choose|t: int| 0 <= t < surv.drop_last().len() && surv.drop_last()[t] == x;
            assert(surv[t] == x);
        }
    }
}

proof fn lemma_adv_rec_subset(
    cands: Seq<MediaTrackSettings>,
    svs: Seq<Seq<(Property, MediaTrackConstraint)>>,
    k: int,
    surv: Seq<usize>,
    x: usize,
)
    requires
        adv_rec(cands, svs, k, surv).contains(x),
    ensures
        surv.contains(x),
    decreases svs.len() - k,
{
    if k < 0 || k >= svs.len() {
    } else {
        let ns = filter_set_sat(cands, surv, svs[k]);
        if ns.len() == 0 {
            lemma_adv_rec_subset(cands, svs, k + 1, surv, x);
        } else {
            lemma_adv_rec_subset(cands, svs, k + 1, ns, x);
            lemma_filter_set_sat_subset(cands, surv, svs[k], x);
        }
    }
}

proof fn lemma_mand_rec_ok_members(
    cands: Seq<MediaTrackSettings>,
    entries: Seq<(Property, MediaTrackConstraint)>,
    k: int,
    surv: Seq<usize>,
    s: Seq<usize>,
    x: usize,
)
    requires
        0 <= k,
        mand_rec(cands, entries, k, surv) == Result::<Seq<usize>, (int, Seq<usize>)>::Ok(s),
        s.contains(x),
    ensures
        surv.contains(x),
        forall|k2: int|
            k <= k2 < entries.len() ==> eval_constraint(cands[x as int]@, entries[k2].0, entries[k2].1)
                == Verdict::Satisfied,
    decreases entries.len() - k,
{
    if k >= entries.len() {
    } else {
        let ns = filter_satisfying(cands, surv, entries[k].0, entries[k].1);
        lemma_mand_rec_ok_members(cands, entries, k + 1, ns, s, x);
        lemma_filter_satisfying_members(cands, surv, entries[k].0, entries[k].1);
    }
}

/// Whatever the policy, a successful selection returns a candidate of the
/// input sequence that satisfies every mandatory constraint.
pub proof fn lemma_winner_satisfies_mandatory<T: TieBreakingPolicy>(
    cands: Seq<MediaTrackSettings>,
    mand: Seq<(Property, MediaTrackConstraint)>,
    advs: Seq<Seq<(Property, MediaTrackConstraint)>>,
    policy: T,
    j: usize,
)
    requires
        cands.len() > 0 || mand.len() > 0,
        spec_selection(cands, mand, advs, policy) == Result::<usize, (int, Seq<usize>)>::Ok(j),
    ensures
        j < cands.len(),
        forall|k: int|
            0 <= k < mand.len() ==> eval_constraint(cands[j as int]@, mand[k].0, mand[k].1)
                == Verdict::Satisfied,
{
    let s1 = mand_rec(cands, mand, 0, all_indices(cands.len()));
    let sv = s1->Ok_0;
    lemma_mandatory_ok_nonempty(cands, mand, sv);
    let s2 = adv_rec(cands, advs, 0, sv);
    lemma_advanced_preserves_nonempty(cands, advs, 0, sv);
    let m = min_distance_over(cands, mand, s2);
    let s3 = filter_min(cands, mand, s2, m);
    lemma_narrowed_nonempty(cands, mand, s2);
    policy.spec_choice_in_survivors(cands, s3);
    lemma_narrowed_members(cands, mand, s2, m);
    assert(s2.contains(j));
    lemma_adv_rec_subset(cands, advs, 0, sv, j);
    lemma_mand_rec_ok_members(cands, mand, 0, all_indices(cands.len()), sv, j);
    let t = choose|t: int| 0 <= t < all_indices(cands.len()).len() && all_indices(cands.len())[t]
        == j;
    assert(all_indices(cands.len())[t] == t as usize);
}

/// Narrowing keeps exactly the survivors whose total ideal distance is the
/// least one.
pub proof fn lemma_narrowed_members(
    cands: Seq<MediaTrackSettings>,
    entries: Seq<(Property, MediaTrackConstraint)>,
    surv: Seq<usize>,
    m: int,
)
    ensures
        forall|x: usize|
            #[trigger] filter_min(cands, entries, surv, m).contains(x) <==> (surv.contains(x)
                && constraints_distance(cands[x as int]@, entries) == m),
    decreases surv.len(),
{
    if surv.len() == 0 {
    } else {
        lemma_narrowed_members(cands, entries, surv.drop_last(), m);
        let fs = filter_min(cands, entries, surv, m);
        let fsd = filter_min(cands, entries, surv.drop_last(), m);
        assert forall|x: usize| #[trigger] fs.contains(x) implies (surv.contains(x)
            && constraints_distance(cands[x as int]@, entries) == m) by {
            let j = choose|j: int| 0 <= j < fs.len() && fs[j] == x;
            if constraints_distance(cands[surv.last() as int]@, entries) == m && j == fs.len()
                - 1 {
                assert(x == surv.last());
                assert(surv[surv.len() - 1] == x);
            } else {
                assert(fsd[j] == x);
                assert(fsd.contains(x));
                let t = choose|t: int| 0 <= t < surv.drop_last().len() && surv.drop_last()[t] == x;
                assert(surv[t] == x);
            }
        }
        assert forall|x: usize| (surv.contains(x) && constraints_distance(cands[x as int]@, entries)
            == m) implies #[trigger] fs.contains(x) by {
            let t = choose|t: int| 0 <= t < surv.len() && surv[t] == x;
            if t < surv.len() - 1 {
                assert(surv.drop_last()[t] == x);
                assert(surv.drop_last().contains(x));
                assert(fsd.contains(x));
                let j = choose|j: int| 0 <= j < fsd.len() && fsd[j] == x;
                assert(fs[j] == x);
            } else {
                assert(x == surv.last());
                assert(fs.last() == x);
            }
        }
    }
}

} // verus!
