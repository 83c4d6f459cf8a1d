//! Mandatory and advanced constraint collections, and their sanitization
//! against a supported-property set: constraints on unsupported properties
//! are dropped, and advanced entries left empty by that are removed. The
//! selection engine trusts the sanitized shape and does not re-check it.

use vstd::prelude::*;

use crate::assoc::pbuild;
use crate::constraint::MediaTrackConstraint;
use crate::constraint::MediaTrackConstraintSet;
use crate::property::MediaTrackSupportedConstraints;
use crate::property::Property;

verus! {

/// Hard, AND-combined requirements; insertion order decides filter order
/// and error blame.
#[derive(Clone, Debug, PartialEq)]
pub struct MandatoryMediaTrackConstraints {
    set: MediaTrackConstraintSet,
}

impl View for MandatoryMediaTrackConstraints {
    type V = Seq<(Property, MediaTrackConstraint)>;

    closed spec fn view(&self) -> Seq<(Property, MediaTrackConstraint)> {
        self.set@
    }
}

impl MandatoryMediaTrackConstraints {
    /// The constraints built from `pairs`, first to last.
    pub fn from_iter(pairs: Vec<(Property, MediaTrackConstraint)>) -> (r: Self)
        ensures
            r@ == pbuild(pairs@),
    {
        MandatoryMediaTrackConstraints { set: MediaTrackConstraintSet::from_iter(pairs) }
    }

    /// The inner constraint set, surrendered.
    pub fn into_set(self) -> (r: MediaTrackConstraintSet)
        ensures
            r@ == self@,
    {
        self.set
    }
}

impl Default for MandatoryMediaTrackConstraints {
    /// No mandatory constraints.
    fn default() -> (r: Self)
        ensures
            r@ == Seq::<(Property, MediaTrackConstraint)>::empty(),
    {
        MandatoryMediaTrackConstraints { set: MediaTrackConstraintSet::new() }
    }
}

/// Ordered soft requirement sets, applied best-effort in order.
#[derive(Clone, Debug, PartialEq)]
pub struct AdvancedMediaTrackConstraints {
    sets: Vec<MediaTrackConstraintSet>,
}

impl View for AdvancedMediaTrackConstraints {
    type V = Seq<MediaTrackConstraintSet>;

    closed spec fn view(&self) -> Seq<MediaTrackConstraintSet> {
        self.sets@
    }
}

impl AdvancedMediaTrackConstraints {
    /// The advanced constraints holding exactly `sets`, in that order.
    pub fn from_iter(sets: Vec<MediaTrackConstraintSet>) -> (r: Self)
        ensures
            r@ == sets@,
    {
        AdvancedMediaTrackConstraints { sets }
    }

    /// The number of entries.
    pub fn len(&self) -> (r: usize)
        ensures
            r == self@.len(),
    {
        self.sets.len()
    }

    /// The entry at position `i`.
    pub fn entry(&self, i: usize) -> (r: &MediaTrackConstraintSet)
        requires
            i < self@.len(),
        ensures
            *r == self@[i as int],
    {
        &self.sets[i]
    }

    /// The entries, surrendered in order.
    pub fn into_sets(self) -> (r: Vec<MediaTrackConstraintSet>)
        ensures
            r@ == self@,
    {
        self.sets
    }
}

impl Default for AdvancedMediaTrackConstraints {
    /// No advanced constraints.
    fn default() -> (r: Self)
        ensures
            r@ == Seq::<MediaTrackConstraintSet>::empty(),
    {
        AdvancedMediaTrackConstraints { sets: Vec::new() }
    }
}

/// A caller's full constraints, before sanitization.
#[derive(Clone, Debug, PartialEq)]
pub struct MediaTrackConstraints {
    pub mandatory: MandatoryMediaTrackConstraints,
    pub advanced: AdvancedMediaTrackConstraints,
}

/// Constraints guaranteed to reference only supported properties and to
/// hold no empty advanced entry; what the selection engine takes.
#[derive(Clone, Debug, PartialEq)]
pub struct SanitizedMediaTrackConstraints {
    pub mandatory: MediaTrackConstraintSet,
    pub advanced: AdvancedMediaTrackConstraints,
}

/// The entries of `es` whose property is in `sup`, order kept.
pub open spec fn sanitize_entries(
    es: Seq<(Property, MediaTrackConstraint)>,
    sup: Seq<Property>,
) -> Seq<(Property, MediaTrackConstraint)>
    decreases es.len(),
{
    if es.len() == 0 {
        Seq::empty()
    } else {
        let rest = sanitize_entries(es.drop_last(), sup);
        if sup.contains(es.last().0) {
            rest.push(es.last())
        } else {
            rest
        }
    }
}

/// The views of a sequence of constraint sets.
pub open spec fn set_views(sets: Seq<MediaTrackConstraintSet>) -> Seq<
    Seq<(Property, MediaTrackConstraint)>,
> {
    sets.map_values(|cs: MediaTrackConstraintSet| cs@)
}

/// Each advanced entry restricted to supported properties, entries left
/// empty dropped, order kept.
pub open spec fn sanitize_advanced(
    svs: Seq<Seq<(Property, MediaTrackConstraint)>>,
    sup: Seq<Property>,
) -> Seq<Seq<(Property, MediaTrackConstraint)>>
    decreases svs.len(),
{
    if svs.len() == 0 {
        Seq::empty()
    } else {
        let rest = sanitize_advanced(svs.drop_last(), sup);
        let es = sanitize_entries(svs.last(), sup);
        if es.len() > 0 {
            rest.push(es)
        } else {
            rest
        }
    }
}

/// Drops the entries of `set` whose property is not supported, keeping
/// order.
fn sanitize_set(set: MediaTrackConstraintSet, supported: &MediaTrackSupportedConstraints) -> (r:
    MediaTrackConstraintSet)
    ensures
        r@ == sanitize_entries(set@, supported@),
{
    let ghost es0 = set@;
    let mut es = set.into_entries();
    let mut kept: Vec<(Property, MediaTrackConstraint)> = Vec::new();
    let ghost mut i: int = 0;
    proof {
        assert(kept@ =~= sanitize_entries(es0.take(0), supported@));
    }
    while es.len() > 0
        invariant
            0 <= i <= es0.len(),
            es@ == es0.skip(i),
            kept@ == sanitize_entries(es0.take(i), supported@),
        decreases es@.len(),
    {
        let e = es.remove(0);
        proof {
            assert(e == es0[i]);
            assert(es0.skip(i).remove(0) =~= es0.skip(i + 1));
        }
        let keep = supported.contains(e.0);
        if keep {
            kept.push(e);
        }
        proof {
            assert(es0.take(i + 1).drop_last() =~= es0.take(i));
            assert(es0.take(i + 1).last() == es0[i]);
            assert(kept@ == sanitize_entries(es0.take(i + 1), supported@));
            i = i + 1;
        }
    }
    proof {
        assert(es0.take(i) =~= es0);
    }
    MediaTrackConstraintSet::from_entries(kept)
}

impl MediaTrackConstraints {
    /// Sanitizes against `supported`: drops mandatory constraints on
    /// unsupported properties, restricts each advanced entry likewise, and
    /// removes advanced entries left empty.
    pub fn to_sanitized(self, supported: &MediaTrackSupportedConstraints) -> (r:
        SanitizedMediaTrackConstraints)
        ensures
            r.mandatory@ == sanitize_entries(self.mandatory@, supported@),
            set_views(r.advanced@) == sanitize_advanced(set_views(self.advanced@), supported@),
    {
        let ghost sets0 = self.advanced@;
        let mandatory = sanitize_set(self.mandatory.into_set(), supported);
        let mut sets = self.advanced.into_sets();
        let mut kept: Vec<MediaTrackConstraintSet> = Vec::new();
        let ghost mut k: int = 0;
        proof {
            assert(set_views(kept@) =~~= sanitize_advanced(set_views(sets0.take(0)), supported@));
        }
        while sets.len() > 0
            invariant
                0 <= k <= sets0.len(),
                sets@ == sets0.skip(k),
                set_views(kept@) == sanitize_advanced(set_views(sets0.take(k)), supported@),
            decreases sets@.len(),
        {
            let cs = sets.remove(0);
            proof {
                assert(cs == sets0[k]);
                assert(sets0.skip(k).remove(0) =~= sets0.skip(k + 1));
            }
            let ghost kept0 = kept@;
            let cs2 = sanitize_set(cs, supported);
            let ghost cs2v = cs2@;
            let keep = cs2.len() > 0;
            if keep {
                kept.push(cs2);
            }
            proof {
                assert(set_views(sets0.take(k + 1)).drop_last() =~~= set_views(sets0.take(k)));
                assert(set_views(sets0.take(k + 1)).last() == sets0[k]@);
                if keep {
                    assert(set_views(kept@) =~~= set_views(kept0).push(cs2v));
                } else {
                    assert(set_views(kept@) == set_views(kept0));
                }
                assert(set_views(kept@) == sanitize_advanced(
                    set_views(sets0.take(k + 1)),
                    supported@,
                ));
                k = k + 1;
            }
        }
        proof {
            assert(sets0.take(k) =~= sets0);
        }
        SanitizedMediaTrackConstraints {
            mandatory,
            advanced: AdvancedMediaTrackConstraints::from_iter(kept),
        }
    }
}

} // verus!
