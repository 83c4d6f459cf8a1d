//! Shorthand constraints: a caller may give a bare value instead of a
//! structured constraint. Resolution turns a bare value into an ideal hint
//! in the mandatory set and into an exact requirement in an advanced entry.

use vstd::prelude::*;

use crate::assoc::pbuild;
use crate::constraint::MediaTrackConstraint;
use crate::constraint::MediaTrackConstraintSet;
use crate::constraint::ValueConstraint;
use crate::constraint::ValueRangeConstraint;
use crate::property::Property;
use crate::sets::set_views;
use crate::sets::AdvancedMediaTrackConstraints;
use crate::sets::MandatoryMediaTrackConstraints;
use crate::sets::MediaTrackConstraints;
use crate::value::Value;

verus! {

/// A bare value, or an already structured constraint.
#[derive(Clone, Debug, PartialEq)]
pub enum BareOrMediaTrackConstraint {
    Bare(Value),
    Constraint(MediaTrackConstraint),
}

/// The structured constraint a bare-or form resolves to: a bare numeric
/// value becomes a range constraint, any other bare value a value
/// constraint; the bound is exact in advanced entries (`to_exact`) and an
/// ideal hint in mandatory ones.
pub open spec fn resolve_bare(b: BareOrMediaTrackConstraint, to_exact: bool) -> MediaTrackConstraint {
    match b {
        BareOrMediaTrackConstraint::Constraint(c) => c,
        BareOrMediaTrackConstraint::Bare(v) => match v {
            Value::Num(m) => MediaTrackConstraint::Range(
                ValueRangeConstraint {
                    min: None,
                    max: None,
                    exact: if to_exact {
                        Some(m)
                    } else {
                        None
                    },
                    ideal: if to_exact {
                        None
                    } else {
                        Some(m)
                    },
                },
            ),
            _ => MediaTrackConstraint::Value(
                ValueConstraint {
                    exact: if to_exact {
                        Some(v)
                    } else {
                        None
                    },
                    ideal: if to_exact {
                        None
                    } else {
                        Some(v)
                    },
                },
            ),
        },
    }
}

/// Each entry resolved by [`resolve_bare`].
pub open spec fn resolve_entries(
    es: Seq<(Property, BareOrMediaTrackConstraint)>,
    to_exact: bool,
) -> Seq<(Property, MediaTrackConstraint)>
    decreases es.len(),
{
    if es.len() == 0 {
        Seq::empty()
    } else {
        resolve_entries(es.drop_last(), to_exact).push(
            (es.last().0, resolve_bare(es.last().1, to_exact)),
        )
    }
}

/// Decides [`resolve_bare`].
fn resolve_bare_exec(b: BareOrMediaTrackConstraint, to_exact: bool) -> (r: MediaTrackConstraint)
    ensures
        r == resolve_bare(b, to_exact),
{
    match b {
        BareOrMediaTrackConstraint::Constraint(c) => c,
        BareOrMediaTrackConstraint::Bare(v) => match v {
            Value::Num(m) => MediaTrackConstraint::Range(
                ValueRangeConstraint {
                    min: None,
                    max: None,
                    exact: if to_exact {
                        Some(m)
                    } else {
                        None
                    },
                    ideal: if to_exact {
                        None
                    } else {
                        Some(m)
                    },
                },
            ),
            _ => {
                if to_exact {
                    MediaTrackConstraint::Value(ValueConstraint { exact: Some(v), ideal: None })
                } else {
                    MediaTrackConstraint::Value(ValueConstraint { exact: None, ideal: Some(v) })
                }
            },
        },
    }
}

/// Resolves every entry of `pairs`, keeping order.
fn resolve_pairs(pairs: Vec<(Property, BareOrMediaTrackConstraint)>, to_exact: bool) -> (r: Vec<
    (Property, MediaTrackConstraint),
>)
    ensures
        r@ == resolve_entries(pairs@, to_exact),
{
    let ghost pairs0 = pairs@;
    let mut pairs = pairs;
    let mut out: Vec<(Property, MediaTrackConstraint)> = Vec::new();
    let ghost mut i: int = 0;
    proof {
        assert(out@ =~= resolve_entries(pairs0.take(0), to_exact));
    }
    while pairs.len() > 0
        invariant
            0 <= i <= pairs0.len(),
            pairs@ == pairs0.skip(i),
            out@ == resolve_entries(pairs0.take(i), to_exact),
        decreases pairs@.len(),
    {
        let e = pairs.remove(0);
        proof {
            assert(e == pairs0[i]);
            assert(pairs0.skip(i).remove(0) =~= pairs0.skip(i + 1));
            assert(pairs0.take(i + 1).drop_last() =~= pairs0.take(i));
            assert(pairs0.take(i + 1).last() == pairs0[i]);
        }
        let c = resolve_bare_exec(e.1, to_exact);
        out.push((e.0, c));
        proof {
            i = i + 1;
        }
    }
    proof {
        assert(pairs0.take(i) =~= pairs0);
    }
    out
}

/// Shorthand mandatory constraints, before resolution.
#[derive(Clone, Debug, PartialEq)]
pub struct BareOrMandatoryMediaTrackConstraints {
    entries: Vec<(Property, BareOrMediaTrackConstraint)>,
}

impl View for BareOrMandatoryMediaTrackConstraints {
    type V = Seq<(Property, BareOrMediaTrackConstraint)>;

    closed spec fn view(&self) -> Seq<(Property, BareOrMediaTrackConstraint)> {
        self.entries@
    }
}

impl BareOrMandatoryMediaTrackConstraints {
    /// The shorthand constraints holding exactly `entries`, in order.
    pub fn from_iter(entries: Vec<(Property, BareOrMediaTrackConstraint)>) -> (r: Self)
        ensures
            r@ == entries@,
    {
        BareOrMandatoryMediaTrackConstraints { entries }
    }
}

impl Default for BareOrMandatoryMediaTrackConstraints {
    /// No constraints.
    fn default() -> (r: Self)
        ensures
            r@ == Seq::<(Property, BareOrMediaTrackConstraint)>::empty(),
    {
        BareOrMandatoryMediaTrackConstraints { entries: Vec::new() }
    }
}

/// One shorthand advanced entry, before resolution.
#[derive(Clone, Debug, PartialEq)]
pub struct BareOrMediaTrackConstraintSet {
    entries: Vec<(Property, BareOrMediaTrackConstraint)>,
}

impl View for BareOrMediaTrackConstraintSet {
    type V = Seq<(Property, BareOrMediaTrackConstraint)>;

    closed spec fn view(&self) -> Seq<(Property, BareOrMediaTrackConstraint)> {
        self.entries@
    }
}

impl BareOrMediaTrackConstraintSet {
    /// The shorthand entry holding exactly `entries`, in order.
    pub fn from_iter(entries: Vec<(Property, BareOrMediaTrackConstraint)>) -> (r: Self)
        ensures
            r@ == entries@,
    {
        BareOrMediaTrackConstraintSet { entries }
    }
}

/// Shorthand advanced constraints, before resolution.
#[derive(Clone, Debug, PartialEq)]
pub struct BareOrAdvancedMediaTrackConstraints {
    sets: Vec<BareOrMediaTrackConstraintSet>,
}

impl View for BareOrAdvancedMediaTrackConstraints {
    type V = Seq<BareOrMediaTrackConstraintSet>;

    closed spec fn view(&self) -> Seq<BareOrMediaTrackConstraintSet> {
        self.sets@
    }
}

impl BareOrAdvancedMediaTrackConstraints {
    /// The shorthand advanced constraints holding exactly `sets`, in order.
    pub fn from_iter(sets: Vec<BareOrMediaTrackConstraintSet>) -> (r: Self)
        ensures
            r@ == sets@,
    {
        BareOrAdvancedMediaTrackConstraints { sets }
    }
}

impl Default for BareOrAdvancedMediaTrackConstraints {
    /// No advanced constraints.
    fn default() -> (r: Self)
        ensures
            r@ == Seq::<BareOrMediaTrackConstraintSet>::empty(),
    {
        BareOrAdvancedMediaTrackConstraints { sets: Vec::new() }
    }
}

/// A caller's full constraints in shorthand form.
#[derive(Clone, Debug, PartialEq)]
pub struct BareOrMediaTrackConstraints {
    pub mandatory: BareOrMandatoryMediaTrackConstraints,
    pub advanced: BareOrAdvancedMediaTrackConstraints,
}

impl BareOrMediaTrackConstraints {
    /// Resolves every shorthand: bare values become ideal hints in the
    /// mandatory set and exact requirements in advanced entries; repeated
    /// properties keep their place and take the later constraint.
    pub fn to_resolved(self) -> (r: MediaTrackConstraints)
        ensures
            r.mandatory@ == pbuild(resolve_entries(self.mandatory@, false)),
            set_views(r.advanced@).len() == self.advanced@.len(),
            forall|k: int|
                0 <= k < self.advanced@.len() ==> set_views(r.advanced@)[k] == pbuild(
                    resolve_entries(self.advanced@[k]@, true),
                ),
    {
        let ghost sets0 = self.advanced@;
        let mandatory = MandatoryMediaTrackConstraints::from_iter(
            resolve_pairs(self.mandatory.entries, false),
        );
        let mut sets = self.advanced.sets;
        let mut out: Vec<MediaTrackConstraintSet> = Vec::new();
        let ghost mut k: int = 0;
        while sets.len() > 0
            invariant
                0 <= k <= sets0.len(),
                sets@ == sets0.skip(k),
                set_views(out@).len() == k,
                forall|t: int|
                    0 <= t < k ==> set_views(out@)[t] == pbuild(resolve_entries(sets0[t]@, true)),
            decreases sets@.len(),
        {
            let cs = sets.remove(0);
            proof {
                assert(cs == sets0[k]);
                assert(sets0.skip(k).remove(0) =~= sets0.skip(k + 1));
            }
            let resolved = MediaTrackConstraintSet::from_iter(resolve_pairs(cs.entries, true));
            let ghost out_before = out@;
            out.push(resolved);
            proof {
                assert forall|t: int| 0 <= t < k + 1 implies set_views(out@)[t] == pbuild(
                    resolve_entries(sets0[t]@, true),
                ) by {
                    assert(set_views(out@)[t] == out@[t]@);
                    if t < k {
                        assert(set_views(out_before)[t] == out_before[t]@);
                    }
                }
                k = k + 1;
            }
        }
        proof {
            assert(k == sets0.len());
        }
        MediaTrackConstraints {
            mandatory,
            advanced: AdvancedMediaTrackConstraints::from_iter(out),
        }
    }
}

} // verus!
