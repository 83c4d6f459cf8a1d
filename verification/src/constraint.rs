//! Structured constraints: per-property requirements (value, range or
//! sequence, each with exact and ideal forms), the ordered constraint sets
//! built from them, and sanitization against a supported-property set.

use vstd::prelude::*;
use vstd::string::StringExecFns;

use crate::assoc::pbuild;
use crate::assoc::plookup;
use crate::assoc::PropMap;
use crate::property::Property;
use crate::text::join_comma;
use crate::text::push_join;
use crate::text::render_num;
use crate::text::render_value;
use crate::text::render_value_string;
use crate::text::render_values;
use crate::text::str_views;
use crate::value::Value;

verus! {

/// A requirement on a single value: must equal `exact`; should be near
/// `ideal`.
#[derive(Clone, Debug, PartialEq)]
pub struct ValueConstraint {
    pub exact: Option<Value>,
    pub ideal: Option<Value>,
}

impl Default for ValueConstraint {
    /// The empty requirement.
    fn default() -> (r: Self)
        ensures
            r.exact is None && r.ideal is None,
    {
        ValueConstraint { exact: None, ideal: None }
    }
}

impl ValueConstraint {
    /// Requires the value to equal `v`.
    pub fn exact(self, v: Value) -> (r: Self)
        ensures
            r.exact == Some(v) && r.ideal == self.ideal,
    {
        ValueConstraint { exact: Some(v), ideal: self.ideal }
    }

    /// Prefers values near `v`.
    pub fn ideal(self, v: Value) -> (r: Self)
        ensures
            r.exact == self.exact && r.ideal == Some(v),
    {
        ValueConstraint { exact: self.exact, ideal: Some(v) }
    }
}

/// A requirement on an ordered numeric value, all bounds in millionths:
/// must lie between `min` and `max`, or equal `exact`; should be near
/// `ideal`.
#[derive(Clone, Debug, PartialEq)]
pub struct ValueRangeConstraint {
    pub min: Option<i64>,
    pub max: Option<i64>,
    pub exact: Option<i64>,
    pub ideal: Option<i64>,
}

impl Default for ValueRangeConstraint {
    /// The empty requirement.
    fn default() -> (r: Self)
        ensures
            r.min is None && r.max is None && r.exact is None && r.ideal is None,
    {
        ValueRangeConstraint { min: None, max: None, exact: None, ideal: None }
    }
}

impl ValueRangeConstraint {
    /// Requires the value to be at least the whole number `v`.
    pub fn min(self, v: i64) -> (r: Self)
        requires
            -9_000_000_000_000 <= v <= 9_000_000_000_000,
        ensures
            r == (ValueRangeConstraint { min: Some((v * 1_000_000) as i64), ..self }),
    {
        ValueRangeConstraint { min: Some(v * 1_000_000), max: self.max, exact: self.exact, ideal: self.ideal }
    }

    /// Requires the value to be at most the whole number `v`.
    pub fn max(self, v: i64) -> (r: Self)
        requires
            -9_000_000_000_000 <= v <= 9_000_000_000_000,
        ensures
            r == (ValueRangeConstraint { max: Some((v * 1_000_000) as i64), ..self }),
    {
        ValueRangeConstraint { min: self.min, max: Some(v * 1_000_000), exact: self.exact, ideal: self.ideal }
    }

    /// Requires the value to equal the whole number `v`.
    pub fn exact(self, v: i64) -> (r: Self)
        requires
            -9_000_000_000_000 <= v <= 9_000_000_000_000,
        ensures
            r == (ValueRangeConstraint { exact: Some((v * 1_000_000) as i64), ..self }),
    {
        ValueRangeConstraint { min: self.min, max: self.max, exact: Some(v * 1_000_000), ideal: self.ideal }
    }

    /// Prefers values near the whole number `v`.
    pub fn ideal(self, v: i64) -> (r: Self)
        requires
            -9_000_000_000_000 <= v <= 9_000_000_000_000,
        ensures
            r == (ValueRangeConstraint { ideal: Some((v * 1_000_000) as i64), ..self }),
    {
        ValueRangeConstraint { min: self.min, max: self.max, exact: self.exact, ideal: Some(v * 1_000_000) }
    }
}

/// A requirement against a set of admissible values: the actual value must
/// be one of `exact`; should be one of `ideal`.
#[derive(Clone, Debug, PartialEq)]
pub struct ValueSequenceConstraint {
    pub exact: Option<Vec<Value>>,
    pub ideal: Option<Vec<Value>>,
}

impl Default for ValueSequenceConstraint {
    /// The empty requirement.
    fn default() -> (r: Self)
        ensures
            r.exact is None && r.ideal is None,
    {
        ValueSequenceConstraint { exact: None, ideal: None }
    }
}

impl ValueSequenceConstraint {
    /// Requires the value to be one of `vs`.
    pub fn exact(self, vs: Vec<Value>) -> (r: Self)
        ensures
            r.exact == Some(vs) && r.ideal == self.ideal,
    {
        ValueSequenceConstraint { exact: Some(vs), ideal: self.ideal }
    }

    /// Prefers values among `vs`.
    pub fn ideal(self, vs: Vec<Value>) -> (r: Self)
        ensures
            r.exact == self.exact && r.ideal == Some(vs),
    {
        ValueSequenceConstraint { exact: self.exact, ideal: Some(vs) }
    }
}

/// A constraint on one property: one of the three requirement shapes.
#[derive(Clone, Debug, PartialEq)]
pub enum MediaTrackConstraint {
    Value(ValueConstraint),
    Range(ValueRangeConstraint),
    Sequence(ValueSequenceConstraint),
}

impl MediaTrackConstraint {
    /// The constraint requiring exactly the given value, in the shape the
    /// value's kind calls for.
    pub fn exact_from(v: Value) -> (r: Self)
        ensures
            r == match v {
                Value::Num(m) => MediaTrackConstraint::Range(
                    ValueRangeConstraint { min: None, max: None, exact: Some(m), ideal: None },
                ),
                _ => MediaTrackConstraint::Value(ValueConstraint { exact: Some(v), ideal: None }),
            },
    {
        match v {
            Value::Num(m) => MediaTrackConstraint::Range(
                ValueRangeConstraint { min: None, max: None, exact: Some(m), ideal: None },
            ),
            _ => MediaTrackConstraint::Value(ValueConstraint { exact: Some(v), ideal: None }),
        }
    }
}

/// The rendered description of the dominant bound of a constraint, the
/// `x == "v"` part of an Overconstrained message.
pub open spec fn describe_constraint(c: MediaTrackConstraint) -> Seq<char> {
    match c {
        MediaTrackConstraint::Value(vc) => match vc.exact {
            Some(v) => "x == "@ + render_value(v),
            None => match vc.ideal {
                Some(v) => "x ~= "@ + render_value(v),
                None => "x"@,
            },
        },
        MediaTrackConstraint::Range(rc) => match rc.exact {
            Some(e) => "x == "@ + render_num(e as int),
            None => match (rc.min, rc.max) {
                (Some(mn), Some(mx)) => render_num(mn as int) + " <= x <= "@ + render_num(
                    mx as int,
                ),
                (Some(mn), None) => render_num(mn as int) + " <= x"@,
                (None, Some(mx)) => "x <= "@ + render_num(mx as int),
                (None, None) => match rc.ideal {
                    Some(id) => "x ~= "@ + render_num(id as int),
                    None => "x"@,
                },
            },
        },
        MediaTrackConstraint::Sequence(sc) => match sc.exact {
            Some(vs) => "x == ["@ + join_comma(render_values(vs@)) + "]"@,
            None => match sc.ideal {
                Some(vs) => "x ~= ["@ + join_comma(render_values(vs@)) + "]"@,
                None => "x"@,
            },
        },
    }
}

/// The rendered texts of each value of `vs`.
fn render_values_vec(vs: &Vec<Value>) -> (r: Vec<String>)
    ensures
        str_views(r@) == render_values(vs@),
{
    let mut r: Vec<String> = Vec::new();
    let mut i: usize = 0;
    while i < vs.len()
        invariant
            0 <= i <= vs@.len(),
            str_views(r@) == render_values(vs@.take(i as int)),
        decreases vs@.len() - i,
    {
        let s = render_value_string(&vs[i]);
        let ghost rv0 = r@;
        let ghost sv = s@;
        r.push(s);
        proof {
            assert(str_views(rv0).len() == rv0.len());
            assert(render_values(vs@.take(i as int)).len() == i as int);
            assert(rv0.len() == i as int);
            assert(r@.len() == i as int + 1);
            assert forall|j: int| 0 <= j < r@.len() implies str_views(r@)[j] == render_values(
                vs@.take(i as int + 1),
            )[j] by {
                assert(str_views(r@)[j] == r@[j]@);
                assert(render_values(vs@.take(i as int + 1))[j] == render_value(
                    vs@.take(i as int + 1)[j],
                ));
                if j < i as int {
                    assert(str_views(rv0)[j] == render_values(vs@.take(i as int))[j]);
                    assert(str_views(rv0)[j] == rv0[j]@);
                    assert(render_values(vs@.take(i as int))[j] == render_value(
                        vs@.take(i as int)[j],
                    ));
                } else {
                    assert(r@[j]@ == sv);
                    assert(sv == render_value(vs@[i as int]));
                }
            }
            assert(str_views(r@) =~~= render_values(vs@.take(i as int + 1)));
        }
        i = i + 1;
    }
    proof {
        assert(vs@.take(vs@.len() as int) =~= vs@);
    }
    r
}

/// Appends the description of `c` to `out`, as [`describe_constraint`]
/// says.
pub fn push_describe(out: &mut String, c: &MediaTrackConstraint)
    ensures
        final(out)@ == old(out)@ + describe_constraint(*c),
{
    match c {
        MediaTrackConstraint::Value(vc) => {
            match &vc.exact {
                Some(v) => {
                    out.append("x == ");
                    crate::text::push_value(out, v);
                },
                None => match &vc.ideal {
                    Some(v) => {
                        out.append("x ~= ");
                        crate::text::push_value(out, v);
                    },
                    None => {
                        out.append("x");
                    },
                },
            }
        },
        MediaTrackConstraint::Range(rc) => {
            match &rc.exact {
                Some(e) => {
                    out.append("x == ");
                    crate::text::push_num(out, *e);
                },
                None => match (&rc.min, &rc.max) {
                    (Some(mn), Some(mx)) => {
                        crate::text::push_num(out, *mn);
                        out.append(" <= x <= ");
                        crate::text::push_num(out, *mx);
                    },
                    (Some(mn), None) => {
                        crate::text::push_num(out, *mn);
                        out.append(" <= x");
                    },
                    (None, Some(mx)) => {
                        out.append("x <= ");
                        crate::text::push_num(out, *mx);
                    },
                    (None, None) => match &rc.ideal {
                        Some(id) => {
                            out.append("x ~= ");
                            crate::text::push_num(out, *id);
                        },
                        None => {
                            out.append("x");
                        },
                    },
                },
            }
        },
        MediaTrackConstraint::Sequence(sc) => {
            match &sc.exact {
                Some(vs) => {
                    out.append("x == [");
                    let rendered = render_values_vec(vs);
                    push_join(out, &rendered);
                    out.append("]");
                },
                None => match &sc.ideal {
                    Some(vs) => {
                        out.append("x ~= [");
                        let rendered = render_values_vec(vs);
                        push_join(out, &rendered);
                        out.append("]");
                    },
                    None => {
                        out.append("x");
                    },
                },
            }
        },
    }
    proof {
        assert(out@ =~= old(out)@ + describe_constraint(*c));
    }
}

/// An insertion-ordered set of constraints, at most one per property.
#[derive(Clone, Debug, PartialEq)]
pub struct MediaTrackConstraintSet {
    map: PropMap<MediaTrackConstraint>,
}

impl View for MediaTrackConstraintSet {
    type V = Seq<(Property, MediaTrackConstraint)>;

    closed spec fn view(&self) -> Seq<(Property, MediaTrackConstraint)> {
        self.map@
    }
}

impl MediaTrackConstraintSet {
    /// The empty set.
    pub fn new() -> (r: Self)
        ensures
            r@ == Seq::<(Property, MediaTrackConstraint)>::empty(),
    {
        MediaTrackConstraintSet { map: PropMap::empty() }
    }

    /// The set built from `pairs`, first to last; a repeated property keeps
    /// its place and takes the later constraint.
    pub fn from_iter(pairs: Vec<(Property, MediaTrackConstraint)>) -> (r: Self)
        ensures
            r@ == pbuild(pairs@),
    {
        MediaTrackConstraintSet { map: PropMap::from_pairs(pairs) }
    }

    /// The set holding exactly `entries`, in that order.
    pub fn from_entries(entries: Vec<(Property, MediaTrackConstraint)>) -> (r: Self)
        ensures
            r@ == entries@,
    {
        MediaTrackConstraintSet { map: PropMap::from_entries_raw(entries) }
    }

    /// The constraint on `p`, if any.
    pub fn get(&self, p: Property) -> (r: Option<&MediaTrackConstraint>)
        ensures
            match r {
                Some(c) => plookup(self@, p) == Some(*c),
                None => plookup(self@, p) is None,
            },
    {
        self.map.get(p)
    }

    /// The number of constraints.
    pub fn len(&self) -> (r: usize)
        ensures
            r == self@.len(),
    {
        self.map.len()
    }

    /// The entry at position `i`, in insertion order.
    pub fn entry(&self, i: usize) -> (r: &(Property, MediaTrackConstraint))
        requires
            i < self@.len(),
        ensures
            *r == self@[i as int],
    {
        self.map.entry(i)
    }

    /// The entries, surrendered in order.
    pub fn into_entries(self) -> (r: Vec<(Property, MediaTrackConstraint)>)
        ensures
            r@ == self@,
    {
        self.map.into_entries()
    }
}

impl Default for MediaTrackConstraintSet {
    /// The empty set.
    fn default() -> (r: Self)
        ensures
            r@ == Seq::<(Property, MediaTrackConstraint)>::empty(),
    {
        MediaTrackConstraintSet::new()
    }
}

} // verus!
