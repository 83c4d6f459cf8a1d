//! The one error the engine surfaces: Overconstrained, blaming the first
//! mandatory constraint that emptied the candidate pool, with a rendered
//! diagnostic message.

use vstd::prelude::*;
use vstd::string::StringExecFns;

use crate::constraint::describe_constraint;
use crate::constraint::push_describe;
use crate::constraint::MediaTrackConstraint;
use crate::fitness::MismatchReason;
use crate::property::Property;
use crate::text::join_comma;
use crate::text::push_join;
use crate::text::sort_unique;
use crate::text::sort_unique_exec;
use crate::text::str_views;

verus! {

/// Mandatory filtering would have emptied the candidate pool: the
/// offending property and a diagnostic message.
#[derive(Clone, Debug, PartialEq)]
pub struct OverconstrainedError {
    pub constraint: Property,
    pub message: Option<String>,
}

/// The errors selection can return.
#[derive(Clone, Debug, PartialEq)]
pub enum SelectSettingsError {
    Overconstrained(OverconstrainedError),
}

/// The reason phrase of an Overconstrained message.
pub open spec fn reason_phrase(r: MismatchReason) -> Seq<char> {
    match r {
        MismatchReason::Mismatch => "a mismatch"@,
        MismatchReason::TooSmall => "too small"@,
        MismatchReason::TooLarge => "too large"@,
    }
}

/// The whole Overconstrained message: the reason phrase, the offending
/// actual values deduplicated and sorted lexicographically by their
/// rendered text, and the constraint's description.
pub open spec fn overconstrained_message(
    reason: MismatchReason,
    rendered: Seq<Seq<char>>,
    desc: Seq<char>,
) -> Seq<char> {
    "Setting was "@ + reason_phrase(reason) + " (["@ + join_comma(sort_unique(rendered))
        + "] do not satisfy ("@ + desc + "))."@
}

/// Builds the message of [`overconstrained_message`] from the rendered
/// actual values `values` and the failing constraint `c`.
pub fn build_overconstrained_message(
    reason: MismatchReason,
    values: Vec<String>,
    c: &MediaTrackConstraint,
) -> (r: String)
    ensures
        r@ == overconstrained_message(reason, str_views(values@), describe_constraint(*c)),
{
    let mut out = String::new();
    out.append("Setting was ");
    match reason {
        MismatchReason::Mismatch => out.append("a mismatch"),
        MismatchReason::TooSmall => out.append("too small"),
        MismatchReason::TooLarge => out.append("too large"),
    }
    out.append(" ([");
    let sorted = sort_unique_exec(values);
    push_join(&mut out, &sorted);
    out.append("] do not satisfy (");
    push_describe(&mut out, c);
    out.append(")).");
    proof {
        assert(out@ =~= overconstrained_message(
            reason,
            str_views(values@),
            describe_constraint(*c),
        ));
    }
    out
}

} // verus!
