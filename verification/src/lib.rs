//! Constraint-based selection of media track settings.
//!
//! Given a finite, ordered list of candidate settings (each a read-only
//! property-to-value mapping), a set of sanitized constraints and a
//! tie-breaking policy, the library picks the single candidate that best
//! satisfies the constraints, or reports a structured `Overconstrained`
//! error naming the first mandatory constraint that emptied the pool.

use vstd::prelude::*;

pub mod assoc;
pub mod bare;
pub mod constraint;
pub mod errors;
pub mod fitness;
pub mod fixtures;
pub mod laws;
pub mod padding;
pub mod property;
pub mod select;
pub mod sets;
pub mod settings;
pub mod text;
pub mod value;

pub use bare::BareOrAdvancedMediaTrackConstraints;
pub use bare::BareOrMandatoryMediaTrackConstraints;
pub use bare::BareOrMediaTrackConstraint;
pub use bare::BareOrMediaTrackConstraintSet;
pub use bare::BareOrMediaTrackConstraints;
pub use constraint::MediaTrackConstraint;
pub use constraint::MediaTrackConstraintSet;
pub use constraint::ValueConstraint;
pub use constraint::ValueRangeConstraint;
pub use constraint::ValueSequenceConstraint;
pub use errors::OverconstrainedError;
pub use errors::SelectSettingsError;
pub use fitness::MismatchReason;
pub use fitness::Verdict;
pub use padding::get_padding;
pub use property::MediaTrackSupportedConstraints;
pub use property::Property;
pub use select::select_settings;
pub use select::SelectFirstSettingsPolicy;
pub use select::SelectIdealSettingsPolicy;
pub use select::TieBreakingPolicy;
pub use sets::AdvancedMediaTrackConstraints;
pub use sets::MandatoryMediaTrackConstraints;
pub use sets::MediaTrackConstraints;
pub use sets::SanitizedMediaTrackConstraints;
pub use settings::MediaTrackSettings;
pub use value::FacingMode;
pub use value::ResizeMode;
pub use value::Value;
pub use value::MICROS;
pub use value::SCALE;

verus! {

} // verus!
