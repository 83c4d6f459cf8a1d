//! The fitness evaluator: the verdict of one constraint on one candidate's
//! settings, the structural failure reason of a constraint, and the
//! ideal-distance scores used for tie-breaking.

use vstd::prelude::*;

use crate::assoc::plookup;
use crate::constraint::MediaTrackConstraint;
use crate::property::Property;
use crate::settings::MediaTrackSettings;
use crate::value::seq_contains_value;
use crate::value::value_distance;
use crate::value::value_distance_exec;
use crate::value::value_eq;
use crate::value::vec_contains_value;
use crate::value::Value;
use crate::value::SCALE;

verus! {

/// Why a constraint rejected a candidate: not the required value, or out
/// of a range bound.
#[derive(Clone, Copy, PartialEq, Eq, Structural, Debug)]
pub enum MismatchReason {
    Mismatch,
    TooSmall,
    TooLarge,
}

/// The verdict of one constraint on one candidate: satisfied, the property
/// is absent, or the value fails the requirement.
#[derive(Clone, Copy, PartialEq, Eq, Structural, Debug)]
pub enum Verdict {
    Satisfied,
    Missing,
    Mismatch(MismatchReason),
}

/// The verdict of constraint `c` on property `p` of the settings `sv`:
/// absent properties are Missing; a value requirement wants equality, a
/// range wants its bounds (minimum checked first) or its exact value, a
/// sequence wants membership; ideal forms never reject.
pub open spec fn eval_constraint(
    sv: Seq<(Property, Value)>,
    p: Property,
    c: MediaTrackConstraint,
) -> Verdict {
    match plookup(sv, p) {
        None => Verdict::Missing,
        Some(actual) => match c {
            MediaTrackConstraint::Value(vc) => match vc.exact {
                Some(e) => if value_eq(actual, e) {
                    Verdict::Satisfied
                } else {
                    Verdict::Mismatch(MismatchReason::Mismatch)
                },
                None => Verdict::Satisfied,
            },
            MediaTrackConstraint::Range(rc) => match actual {
                Value::Num(m) => match rc.exact {
                    Some(e) => if m == e {
                        Verdict::Satisfied
                    } else {
                        Verdict::Mismatch(MismatchReason::Mismatch)
                    },
                    None => if rc.min matches Some(mn) && m < mn {
                        Verdict::Mismatch(MismatchReason::TooSmall)
                    } else if rc.max matches Some(mx) && m > mx {
                        Verdict::Mismatch(MismatchReason::TooLarge)
                    } else {
                        Verdict::Satisfied
                    },
                },
                _ => if rc.exact is None && rc.min is None && rc.max is None {
                    Verdict::Satisfied
                } else {
                    Verdict::Mismatch(structural_reason(c))
                },
            },
            MediaTrackConstraint::Sequence(sc) => match sc.exact {
                Some(vs) => if seq_contains_value(vs@, actual) {
                    Verdict::Satisfied
                } else {
                    Verdict::Mismatch(MismatchReason::Mismatch)
                },
                None => Verdict::Satisfied,
            },
        },
    }
}

/// The failure reason a constraint is blamed with, fixed by the
/// constraint's own shape, not by any candidate: value and sequence
/// requirements mismatch; a range blames its exact value first, then its
/// minimum, then its maximum.
pub open spec fn structural_reason(c: MediaTrackConstraint) -> MismatchReason {
    match c {
        MediaTrackConstraint::Value(_) => MismatchReason::Mismatch,
        MediaTrackConstraint::Range(rc) => if rc.exact is Some {
            MismatchReason::Mismatch
        } else if rc.min is Some {
            MismatchReason::TooSmall
        } else if rc.max is Some {
            MismatchReason::TooLarge
        } else {
            MismatchReason::Mismatch
        },
        MediaTrackConstraint::Sequence(_) => MismatchReason::Mismatch,
    }
}

/// Decides [`structural_reason`].
pub fn structural_reason_exec(c: &MediaTrackConstraint) -> (r: MismatchReason)
    ensures
        r == structural_reason(*c),
{
    match c {
        MediaTrackConstraint::Value(_) => MismatchReason::Mismatch,
        MediaTrackConstraint::Range(rc) => {
            if rc.exact.is_some() {
                MismatchReason::Mismatch
            } else if rc.min.is_some() {
                MismatchReason::TooSmall
            } else if rc.max.is_some() {
                MismatchReason::TooLarge
            } else {
                MismatchReason::Mismatch
            }
        },
        MediaTrackConstraint::Sequence(_) => MismatchReason::Mismatch,
    }
}

/// Decides [`eval_constraint`].
pub fn evaluate(settings: &MediaTrackSettings, p: Property, c: &MediaTrackConstraint) -> (r:
    Verdict)
    ensures
        r == eval_constraint(settings@, p, *c),
{
    let actual = match settings.get(p) {
        None => {
            return Verdict::Missing;
        },
        Some(v) => v,
    };
    match c {
        MediaTrackConstraint::Value(vc) => {
            match &vc.exact {
                Some(e) => if crate::value::eq_value(actual, e) {
                    Verdict::Satisfied
                } else {
                    Verdict::Mismatch(MismatchReason::Mismatch)
                },
                None => Verdict::Satisfied,
            }
        },
        MediaTrackConstraint::Range(rc) => {
            match actual {
                Value::Num(m) => {
                    let m = *m;
                    match &rc.exact {
                        Some(e) => if m == *e {
                            Verdict::Satisfied
                        } else {
                            Verdict::Mismatch(MismatchReason::Mismatch)
                        },
                        None => {
                            if match &rc.min {
                                Some(mn) => m < *mn,
                                None => false,
                            } {
                                Verdict::Mismatch(MismatchReason::TooSmall)
                            } else if match &rc.max {
                                Some(mx) => m > *mx,
                                None => false,
                            } {
                                Verdict::Mismatch(MismatchReason::TooLarge)
                            } else {
                                Verdict::Satisfied
                            }
                        },
                    }
                },
                _ => {
                    if rc.exact.is_none() && rc.min.is_none() && rc.max.is_none() {
                        Verdict::Satisfied
                    } else {
                        Verdict::Mismatch(structural_reason_exec(c))
                    }
                },
            }
        },
        MediaTrackConstraint::Sequence(sc) => {
            match &sc.exact {
                Some(vs) => if vec_contains_value(vs, actual) {
                    Verdict::Satisfied
                } else {
                    Verdict::Mismatch(MismatchReason::Mismatch)
                },
                None => Verdict::Satisfied,
            }
        },
    }
}

/// The ideal-distance contribution of constraint `c` on property `p` of
/// the settings `sv`: the distance from the actual value to the
/// constraint's ideal hint; an absent property or a constraint without an
/// ideal contributes 0.
pub open spec fn constraint_distance(
    sv: Seq<(Property, Value)>,
    p: Property,
    c: MediaTrackConstraint,
) -> int {
    match plookup(sv, p) {
        None => 0,
        Some(actual) => match c {
            MediaTrackConstraint::Value(vc) => match vc.ideal {
                Some(iv) => value_distance(actual, iv),
                None => 0,
            },
            MediaTrackConstraint::Range(rc) => match rc.ideal {
                Some(im) => value_distance(actual, Value::Num(im)),
                None => 0,
            },
            MediaTrackConstraint::Sequence(sc) => match sc.ideal {
                Some(ivs) => if seq_contains_value(ivs@, actual) {
                    0
                } else {
                    SCALE as int
                },
                None => 0,
            },
        },
    }
}

/// Every constraint distance lies between 0 and [`SCALE`].
pub proof fn lemma_constraint_distance_bounds(
    sv: Seq<(Property, Value)>,
    p: Property,
    c: MediaTrackConstraint,
)
    ensures
        0 <= constraint_distance(sv, p, c) <= SCALE as int,
{
}

/// Decides [`constraint_distance`].
pub fn constraint_distance_exec(
    settings: &MediaTrackSettings,
    p: Property,
    c: &MediaTrackConstraint,
) -> (r: u64)
    ensures
        r as int == constraint_distance(settings@, p, *c),
        r <= SCALE,
{
    let actual = match settings.get(p) {
        None => {
            return 0;
        },
        Some(v) => v,
    };
    match c {
        MediaTrackConstraint::Value(vc) => {
            match &vc.ideal {
                Some(iv) => value_distance_exec(actual, iv),
                None => 0,
            }
        },
        MediaTrackConstraint::Range(rc) => {
            match &rc.ideal {
                Some(im) => value_distance_exec(actual, &Value::Num(*im)),
                None => 0,
            }
        },
        MediaTrackConstraint::Sequence(sc) => {
            match &sc.ideal {
                Some(ivs) => if vec_contains_value(ivs, actual) {
                    0
                } else {
                    SCALE
                },
                None => 0,
            }
        },
    }
}

/// The total ideal distance of the settings `sv` from the ideal hints of
/// the ordered constraints `entries`.
pub open spec fn constraints_distance(
    sv: Seq<(Property, Value)>,
    entries: Seq<(Property, MediaTrackConstraint)>,
) -> int
    decreases entries.len(),
{
    if entries.len() == 0 {
        0
    } else {
        constraints_distance(sv, entries.drop_last()) + constraint_distance(
            sv,
            entries.last().0,
            entries.last().1,
        )
    }
}

/// The total distance is non-negative and at most one [`SCALE`] per
/// constraint.
pub proof fn lemma_constraints_distance_bounds(
    sv: Seq<(Property, Value)>,
    entries: Seq<(Property, MediaTrackConstraint)>,
)
    ensures
        0 <= constraints_distance(sv, entries) <= entries.len() * (SCALE as int),
    decreases entries.len(),
{
    if entries.len() > 0 {
        lemma_constraints_distance_bounds(sv, entries.drop_last());
        lemma_constraint_distance_bounds(sv, entries.last().0, entries.last().1);
        assert(entries.len() * (SCALE as int) == (entries.len() - 1) * (SCALE as int) + (
        SCALE as int)) by (nonlinear_arith);
    }
}

/// Computes [`constraints_distance`] over a constraint set.
pub fn constraints_distance_exec(
    settings: &MediaTrackSettings,
    entries: &crate::constraint::MediaTrackConstraintSet,
) -> (r: u128)
    ensures
        r as int == constraints_distance(settings@, entries@),
{
    let mut acc: u128 = 0;
    let mut i: usize = 0;
    proof {
        lemma_constraints_distance_bounds(settings@, entries@.take(0));
    }
    while i < entries.len()
        invariant
            0 <= i <= entries@.len(),
            acc as int == constraints_distance(settings@, entries@.take(i as int)),
            acc as int <= (i as int) * (SCALE as int),
        decreases entries@.len() - i,
    {
        let e = entries.entry(i);
        let d = constraint_distance_exec(settings, e.0, &e.1);
        proof {
            assert(entries@.take(i as int + 1).drop_last() =~= entries@.take(i as int));
            assert(entries@.take(i as int + 1).last() == entries@[i as int]);
            assert((i as int) * (SCALE as int) + (SCALE as int) == (i as int + 1) * (
            SCALE as int)) by (nonlinear_arith);
            assert((i as int + 1) * (SCALE as int) <= 0x1_0000_0000_0000_0000_int
                * 0x1_0000_0000_0000_int) by (nonlinear_arith)
                requires
                    0 <= i as int + 1 <= 0x1_0000_0000_0000_0000_int,
            ;
        }
        acc = acc + (d as u128);
        i = i + 1;
    }
    proof {
        assert(entries@.take(entries@.len() as int) =~= entries@);
    }
    acc
}

/// The ideal distance of one target entry: the distance from the
/// candidate's value at that property to the target's, counted only for
/// supported properties; absent properties contribute 0.
pub open spec fn entry_distance(
    sv: Seq<(Property, Value)>,
    e: (Property, Value),
    sup: Seq<Property>,
) -> int {
    if !sup.contains(e.0) {
        0
    } else {
        match plookup(sv, e.0) {
            Some(a) => value_distance(a, e.1),
            None => 0,
        }
    }
}

/// The aggregate ideal distance of the settings `sv` from the target
/// settings `target`, restricted to the supported properties `sup`.
pub open spec fn settings_distance(
    sv: Seq<(Property, Value)>,
    target: Seq<(Property, Value)>,
    sup: Seq<Property>,
) -> int
    decreases target.len(),
{
    if target.len() == 0 {
        0
    } else {
        settings_distance(sv, target.drop_last(), sup) + entry_distance(sv, target.last(), sup)
    }
}

/// The aggregate distance is non-negative and at most one [`SCALE`] per
/// target property.
pub proof fn lemma_settings_distance_bounds(
    sv: Seq<(Property, Value)>,
    target: Seq<(Property, Value)>,
    sup: Seq<Property>,
)
    ensures
        0 <= settings_distance(sv, target, sup) <= target.len() * (SCALE as int),
    decreases target.len(),
{
    if target.len() > 0 {
        lemma_settings_distance_bounds(sv, target.drop_last(), sup);
        crate::value::lemma_value_distance_bounds(
            match plookup(sv, target.last().0) {
                Some(a) => a,
                None => target.last().1,
            },
            target.last().1,
        );
        assert(target.len() * (SCALE as int) == (target.len() - 1) * (SCALE as int) + (
        SCALE as int)) by (nonlinear_arith);
    }
}

/// Computes [`settings_distance`].
pub fn settings_distance_exec(
    settings: &MediaTrackSettings,
    target: &MediaTrackSettings,
    sup: &crate::property::MediaTrackSupportedConstraints,
) -> (r: u128)
    ensures
        r as int == settings_distance(settings@, target@, sup@),
{
    let mut acc: u128 = 0;
    let mut i: usize = 0;
    while i < target.len()
        invariant
            0 <= i <= target@.len(),
            acc as int == settings_distance(settings@, target@.take(i as int), sup@),
            acc as int <= (i as int) * (SCALE as int),
        decreases target@.len() - i,
    {
        let e = target.entry(i);
        let d: u64 = if sup.contains(e.0) {
            match settings.get(e.0) {
                Some(a) => value_distance_exec(a, &e.1),
                None => 0,
            }
        } else {
            0
        };
        proof {
            crate::value::lemma_value_distance_bounds(
                match plookup(settings@, e.0) {
                    Some(a) => a,
                    None => e.1,
                },
                e.1,
            );
            assert(target@.take(i as int + 1).drop_last() =~= target@.take(i as int));
            assert(target@.take(i as int + 1).last() == target@[i as int]);
            assert((i as int) * (SCALE as int) + (SCALE as int) == (i as int + 1) * (
            SCALE as int)) by (nonlinear_arith);
            assert((i as int + 1) * (SCALE as int) <= 0x1_0000_0000_0000_0000_int
                * 0x1_0000_0000_0000_int) by (nonlinear_arith)
                requires
                    0 <= i as int + 1 <= 0x1_0000_0000_0000_0000_int,
            ;
        }
        acc = acc + (d as u128);
        i = i + 1;
    }
    proof {
        assert(target@.take(target@.len() as int) =~= target@);
    }
    acc
}

} // verus!
