//! Ready-made candidate sets, policies and selection harnesses: a video
//! ideal and five resolution tiers, plus helpers that run a selection and
//! surrender its error or its winner.

use vstd::prelude::*;

use crate::assoc::lemma_pbuild_distinct;
use crate::bare::BareOrAdvancedMediaTrackConstraints;
use crate::bare::BareOrMandatoryMediaTrackConstraints;
use crate::bare::BareOrMediaTrackConstraints;
use crate::errors::overconstrained_message;
use crate::errors::OverconstrainedError;
use crate::errors::SelectSettingsError;
use crate::fitness::structural_reason;
use crate::property::all_properties;
use crate::property::spec_all_properties;
use crate::property::MediaTrackSupportedConstraints;
use crate::property::ASPECT_RATIO;
use crate::property::DEVICE_ID;
use crate::property::FACING_MODE;
use crate::property::FRAME_RATE;
use crate::property::GROUP_ID;
use crate::property::Property;
use crate::property::HEIGHT;
use crate::property::RESIZE_MODE;
use crate::property::WIDTH;
use crate::select::all_indices;
use crate::select::mand_rec;
use crate::select::present_rendered;
use crate::select::select_settings;
use crate::select::spec_selection;
use crate::select::SelectFirstSettingsPolicy;
use crate::select::SelectIdealSettingsPolicy;
use crate::select::TieBreakingPolicy;
use crate::sets::sanitize_advanced;
use crate::sets::sanitize_entries;
use crate::sets::set_views;
use crate::sets::AdvancedMediaTrackConstraints;
use crate::sets::MandatoryMediaTrackConstraints;
use crate::sets::MediaTrackConstraints;
use crate::sets::SanitizedMediaTrackConstraints;
use crate::settings::MediaTrackSettings;
use crate::constraint::describe_constraint;
use crate::value::FacingMode;
use crate::value::ResizeMode;
use crate::value::Value;

verus! {

/// The ideal video target: a 1080p stream at 60 frames per second without
/// resizing.
pub fn default_ideal_settings() -> (r: MediaTrackSettings)
    ensures
        r@.len() == 6,
        r@[0] == (ASPECT_RATIO, Value::Num(562_500i64)),
        r@[1].0 == FACING_MODE && (r@[1].1 matches Value::Str(s) && s@ == "user"@),
        r@[2] == (FRAME_RATE, Value::Num(60_000_000i64)),
        r@[3] == (WIDTH, Value::Num(1_920_000_000i64)),
        r@[4] == (HEIGHT, Value::Num(1_080_000_000i64)),
        r@[5].0 == RESIZE_MODE && (r@[5].1 matches Value::Str(s) && s@ == "none"@),
{
    let pairs = vec![
        (ASPECT_RATIO, Value::micros(562_500)),
        (FACING_MODE, FacingMode::user()),
        (FRAME_RATE, Value::integer(60)),
        (WIDTH, Value::integer(1920)),
        (HEIGHT, Value::integer(1080)),
        (RESIZE_MODE, ResizeMode::none()),
    ];
    proof {
        lemma_pbuild_distinct(pairs@);
    }
    MediaTrackSettings::from_iter(pairs)
}

/// The full contents of one resolution-tier candidate: its device id, the
/// shared group id, aspect ratio and facing mode, its frame rate, width and
/// height (in whole units), and its resize mode.
pub open spec fn is_video_candidate(
    sv: Seq<(Property, Value)>,
    device_id: Seq<char>,
    frame_rate: int,
    width: int,
    height: int,
    crop: bool,
) -> bool {
    &&& sv.len() == 8
    &&& sv[0].0 == DEVICE_ID && (sv[0].1 matches Value::Str(s) && s@ == device_id)
    &&& sv[1].0 == GROUP_ID && (sv[1].1 matches Value::Str(s) && s@ == "builtin"@)
    &&& sv[2] == (ASPECT_RATIO, Value::Num(562_500i64))
    &&& sv[3].0 == FACING_MODE && (sv[3].1 matches Value::Str(s) && s@ == "user"@)
    &&& sv[4] == (FRAME_RATE, Value::Num((frame_rate * 1_000_000) as i64))
    &&& sv[5] == (WIDTH, Value::Num((width * 1_000_000) as i64))
    &&& sv[6] == (HEIGHT, Value::Num((height * 1_000_000) as i64))
    &&& sv[7].0 == RESIZE_MODE && (sv[7].1 matches Value::Str(s) && s@ == (if crop {
        "crop-and-scale"@
    } else {
        "none"@
    }))
}

/// One resolution-tier candidate.
fn video_candidate(
    device_id: &str,
    frame_rate: i64,
    width: i64,
    height: i64,
    crop: bool,
) -> (r: MediaTrackSettings)
    requires
        0 <= frame_rate <= 1000,
        0 <= width <= 10000,
        0 <= height <= 10000,
    ensures
        is_video_candidate(r@, device_id@, frame_rate as int, width as int, height as int, crop),
{
    let resize = if crop {
        ResizeMode::crop_and_scale()
    } else {
        ResizeMode::none()
    };
    let pairs = vec![
        (DEVICE_ID, Value::of_str(device_id)),
        (GROUP_ID, Value::of_str("builtin")),
        (ASPECT_RATIO, Value::micros(562_500)),
        (FACING_MODE, FacingMode::user()),
        (FRAME_RATE, Value::integer(frame_rate)),
        (WIDTH, Value::integer(width)),
        (HEIGHT, Value::integer(height)),
        (RESIZE_MODE, resize),
    ];
    proof {
        lemma_pbuild_distinct(pairs@);
    }
    MediaTrackSettings::from_iter(pairs)
}

/// Five candidates: the 480p to 2160p resolution tiers, frame rate falling
/// as the resolution grows.
pub fn default_possible_settings() -> (r: Vec<MediaTrackSettings>)
    ensures
        r@.len() == 5,
        is_video_candidate(r@[0]@, "480p"@, 240, 720, 480, true),
        is_video_candidate(r@[1]@, "720p"@, 120, 1280, 720, true),
        is_video_candidate(r@[2]@, "1080p"@, 60, 1920, 1080, false),
        is_video_candidate(r@[3]@, "1440p"@, 30, 2560, 1440, false),
        is_video_candidate(r@[4]@, "2160p"@, 15, 3840, 2160, false),
{
    vec![
        video_candidate("480p", 240, 720, 480, true),
        video_candidate("720p", 120, 1280, 720, true),
        video_candidate("1080p", 60, 1920, 1080, false),
        video_candidate("1440p", 30, 2560, 1440, false),
        video_candidate("2160p", 15, 3840, 2160, false),
    ]
}

/// Every property of the catalog declared supported.
pub fn default_supported_constraints() -> (r: MediaTrackSupportedConstraints)
    ensures
        r@ == spec_all_properties(),
{
    MediaTrackSupportedConstraints::from_iter(all_properties())
}

/// A minimum-ideal-distance policy over the given target and supported
/// set.
pub fn ideal_settings_policy(
    ideal_settings: MediaTrackSettings,
    supported_constraints: &MediaTrackSupportedConstraints,
) -> (r: SelectIdealSettingsPolicy)
    ensures
        r.ideal == ideal_settings,
        r.supported@ == supported_constraints@,
{
    SelectIdealSettingsPolicy::new(ideal_settings, supported_constraints)
}

/// The first-wins policy.
pub fn first_settings_policy() -> (r: SelectFirstSettingsPolicy)
    ensures
        r == SelectFirstSettingsPolicy,
{
    SelectFirstSettingsPolicy
}

/// Runs a selection that the mandatory constraints make fail, against the
/// whole property catalog, and surrenders the Overconstrained error.
pub fn test_overconstrained<T: TieBreakingPolicy>(
    possible_settings: &[MediaTrackSettings],
    mandatory_constraints: MandatoryMediaTrackConstraints,
    tie_breaking_policy: T,
) -> (r: OverconstrainedError)
    requires
        possible_settings@.len() > 0 || sanitize_entries(
            mandatory_constraints@,
            spec_all_properties(),
        ).len() > 0,
        mand_rec(
            possible_settings@,
            sanitize_entries(mandatory_constraints@, spec_all_properties()),
            0,
            all_indices(possible_settings@.len()),
        ) is Err,
    ensures
        ({
            let mand = sanitize_entries(mandatory_constraints@, spec_all_properties());
            mand_rec(possible_settings@, mand, 0, all_indices(possible_settings@.len()))
                matches Result::Err(ek) && r.constraint == mand[ek.0].0 && (
            r.message matches Some(m) && m@ == overconstrained_message(
                structural_reason(mand[ek.0].1),
                present_rendered(possible_settings@, ek.1, mand[ek.0].0),
                describe_constraint(mand[ek.0].1),
            ))
        }),
{
    let constraints = MediaTrackConstraints {
        mandatory: mandatory_constraints,
        advanced: AdvancedMediaTrackConstraints::default(),
    }.to_sanitized(&default_supported_constraints());
    let result = select_settings(possible_settings, &constraints, &tie_breaking_policy);
    match result {
        Err(SelectSettingsError::Overconstrained(e)) => e,
        Ok(_) => {
            proof {
                assert(false);
            }
            vstd::pervasive::unreached()
        },
    }
}

/// Runs a selection that the mandatory constraints let succeed, against
/// the whole property catalog, and surrenders the winner.
pub fn test_constrained<'a, T: TieBreakingPolicy>(
    possible_settings: &'a [MediaTrackSettings],
    mandatory_constraints: MandatoryMediaTrackConstraints,
    advanced_constraints: AdvancedMediaTrackConstraints,
    tie_breaking_policy: T,
) -> (r: &'a MediaTrackSettings)
    requires
        possible_settings@.len() > 0 || sanitize_entries(
            mandatory_constraints@,
            spec_all_properties(),
        ).len() > 0,
        mand_rec(
            possible_settings@,
            sanitize_entries(mandatory_constraints@, spec_all_properties()),
            0,
            all_indices(possible_settings@.len()),
        ) is Ok,
    ensures
        spec_selection(
            possible_settings@,
            sanitize_entries(mandatory_constraints@, spec_all_properties()),
            sanitize_advanced(set_views(advanced_constraints@), spec_all_properties()),
            tie_breaking_policy,
        ) matches Result::Ok(j) && *r == possible_settings@[j as int],
{
    let constraints = MediaTrackConstraints {
        mandatory: mandatory_constraints,
        advanced: advanced_constraints,
    }.to_sanitized(&default_supported_constraints());
    let result = select_settings(possible_settings, &constraints, &tie_breaking_policy);
    match result {
        Ok(s) => s,
        Err(_) => {
            proof {
                assert(false);
            }
            vstd::pervasive::unreached()
        },
    }
}

/// Empty shorthand constraints.
pub fn bare_or_constraints() -> (r: BareOrMediaTrackConstraints)
    ensures
        r.mandatory@.len() == 0,
        r.advanced@.len() == 0,
{
    BareOrMediaTrackConstraints {
        mandatory: BareOrMandatoryMediaTrackConstraints::default(),
        advanced: BareOrAdvancedMediaTrackConstraints::default(),
    }
}

/// Empty shorthand constraints, resolved and sanitized: no constraints at
/// all.
pub fn constraints() -> (r: SanitizedMediaTrackConstraints)
    ensures
        r.mandatory@.len() == 0,
        r.advanced@.len() == 0,
{
    let r = bare_or_constraints().to_resolved().to_sanitized(&default_supported_constraints());
    proof {
        assert(set_views(r.advanced@).len() == r.advanced@.len());
    }
    r
}

} // verus!
