//! One candidate's read-only property-to-value configuration.

use vstd::prelude::*;

use crate::assoc::pbuild;
use crate::assoc::plookup;
use crate::assoc::PropMap;
use crate::property::Property;
use crate::value::Value;

verus! {

/// A candidate's full configuration: an insertion-ordered mapping from
/// properties to values, never mutated after construction.
#[derive(Clone, Debug, PartialEq)]
pub struct MediaTrackSettings {
    map: PropMap<Value>,
}

impl View for MediaTrackSettings {
    type V = Seq<(Property, Value)>;

    closed spec fn view(&self) -> Seq<(Property, Value)> {
        self.map@
    }
}

impl MediaTrackSettings {
    /// The settings built from `pairs`, first to last; a repeated property
    /// keeps its place and takes the later value.
    pub fn from_iter(pairs: Vec<(Property, Value)>) -> (r: Self)
        ensures
            r@ == pbuild(pairs@),
    {
        MediaTrackSettings { map: PropMap::from_pairs(pairs) }
    }

    /// The value of `p`, if the property is present.
    pub fn get(&self, p: Property) -> (r: Option<&Value>)
        ensures
            match r {
                Some(v) => plookup(self@, p) == Some(*v),
                None => plookup(self@, p) is None,
            },
    {
        self.map.get(p)
    }

    /// The number of properties present.
    pub fn len(&self) -> (r: usize)
        ensures
            r == self@.len(),
    {
        self.map.len()
    }

    /// The entry at position `i`, in insertion order.
    pub fn entry(&self, i: usize) -> (r: &(Property, Value))
        requires
            i < self@.len(),
        ensures
            *r == self@[i as int],
    {
        self.map.entry(i)
    }
}

} // verus!
