use constraints::fixtures::default_ideal_settings;
use constraints::fixtures::default_possible_settings;
use constraints::fixtures::default_supported_constraints;
use constraints::fixtures::first_settings_policy;
use constraints::fixtures::ideal_settings_policy;
use constraints::fixtures::test_constrained;
use constraints::fixtures::test_overconstrained;
use constraints::property::ASPECT_RATIO;
use constraints::property::DEVICE_ID;
use constraints::property::FRAME_RATE;
use constraints::property::GROUP_ID;
use constraints::property::HEIGHT;
use constraints::property::RESIZE_MODE;
use constraints::property::WIDTH;
use constraints::select_settings;
use constraints::AdvancedMediaTrackConstraints;
use constraints::MandatoryMediaTrackConstraints;
use constraints::MediaTrackConstraint;
use constraints::MediaTrackConstraintSet;
use constraints::MediaTrackConstraints;
use constraints::MediaTrackSettings;
use constraints::MediaTrackSupportedConstraints;
use constraints::ResizeMode;
use constraints::Value;
use constraints::ValueConstraint;
use constraints::ValueRangeConstraint;
use constraints::ValueSequenceConstraint;

// Unconstrained selection with first-selection should return first candidate.
#[test]
fn first() {
    let tie_breaking_policy = first_settings_policy();
    let possible_settings = default_possible_settings();
    let empty = constraints::fixtures::constraints();

    let result = select_settings(&possible_settings, &empty, &tie_breaking_policy);

    let actual = result.unwrap();
    let expected = &possible_settings[0];

    assert_eq!(actual, expected);
}

// Unconstrained selection with ideal-selection should return candidate closest to ideal.
#[test]
fn ideal() {
    let tie_breaking_policy = {
        let ideal_settings = default_ideal_settings();
        let supported_constraints = default_supported_constraints();
        ideal_settings_policy(ideal_settings, &supported_constraints)
    };
    let possible_settings = default_possible_settings();
    let empty = constraints::fixtures::constraints();

    let result = select_settings(&possible_settings, &empty, &tie_breaking_policy);

    let actual = result.unwrap();
    let expected = &possible_settings[2];

    assert_eq!(actual, expected);
}

#[test]
fn missing() {
    let error = test_overconstrained(
        &default_possible_settings(),
        MandatoryMediaTrackConstraints::from_iter(vec![(
            GROUP_ID,
            MediaTrackConstraint::Value(
                ValueConstraint::default().exact(Value::of_str("missing-group")),
            ),
        )]),
        first_settings_policy(),
    );

    let constraint = &error.constraint;
    let err_message = error.message.as_ref().expect("Error message.");

    assert_eq!(constraint, &GROUP_ID);
    assert_eq!(
        err_message,
        "Setting was a mismatch ([\"builtin\"] do not satisfy (x == \"missing-group\"))."
    );
}

#[test]
fn mismatch() {
    let error = test_overconstrained(
        &default_possible_settings(),
        MandatoryMediaTrackConstraints::from_iter(vec![(
            DEVICE_ID,
            MediaTrackConstraint::Value(
                ValueConstraint::default().exact(Value::of_str("mismatched-device")),
            ),
        )]),
        first_settings_policy(),
    );

    let constraint = &error.constraint;
    let err_message = error.message.as_ref().expect("Error message.");

    assert_eq!(constraint, &DEVICE_ID);
    assert_eq!(
        err_message,
        "Setting was a mismatch ([\"1080p\", \"1440p\", \"2160p\", \"480p\", \"720p\"] do not satisfy (x == \"mismatched-device\"))."
    );
}

#[test]
fn too_small() {
    let error = test_overconstrained(
        &default_possible_settings(),
        MandatoryMediaTrackConstraints::from_iter(vec![(
            FRAME_RATE,
            MediaTrackConstraint::Range(ValueRangeConstraint::default().min(1000)),
        )]),
        first_settings_policy(),
    );

    let constraint = &error.constraint;
    let err_message = error.message.as_ref().expect("Error message.");

    assert_eq!(constraint, &FRAME_RATE);
    assert_eq!(
        err_message,
        "Setting was too small ([120, 15, 240, 30, 60] do not satisfy (1000 <= x))."
    );
}

#[test]
fn too_large() {
    let error = test_overconstrained(
        &default_possible_settings(),
        MandatoryMediaTrackConstraints::from_iter(vec![(
            FRAME_RATE,
            MediaTrackConstraint::Range(ValueRangeConstraint::default().max(10)),
        )]),
        first_settings_policy(),
    );

    let constraint = &error.constraint;
    let err_message = error.message.as_ref().expect("Error message.");

    assert_eq!(constraint, &FRAME_RATE);
    assert_eq!(
        err_message,
        "Setting was too large ([120, 15, 240, 30, 60] do not satisfy (x <= 10))."
    );
}

#[test]
fn specific_device_id() {
    let possible_settings = default_possible_settings();

    for target_settings in possible_settings.iter() {
        let setting = match target_settings.get(DEVICE_ID) {
            Some(setting) => setting,
            None => continue,
        };

        let actual = test_constrained(
            &possible_settings,
            MandatoryMediaTrackConstraints::from_iter(vec![(
                DEVICE_ID,
                MediaTrackConstraint::exact_from(setting.clone()),
            )]),
            AdvancedMediaTrackConstraints::default(),
            first_settings_policy(),
        );

        let expected = target_settings;

        assert_eq!(actual, expected);
    }
}

fn three_grouped_candidates() -> Vec<MediaTrackSettings> {
    vec![
        MediaTrackSettings::from_iter(vec![
            (DEVICE_ID, Value::of_str("a")),
            (GROUP_ID, Value::of_str("group-0")),
        ]),
        MediaTrackSettings::from_iter(vec![
            (DEVICE_ID, Value::of_str("b")),
            (GROUP_ID, Value::of_str("group-1")),
        ]),
        MediaTrackSettings::from_iter(vec![
            (DEVICE_ID, Value::of_str("c")),
            (GROUP_ID, Value::of_str("group-2")),
        ]),
    ]
}

fn three_rated_candidates() -> Vec<MediaTrackSettings> {
    vec![
        MediaTrackSettings::from_iter(vec![
            (DEVICE_ID, Value::of_str("a")),
            (FRAME_RATE, Value::integer(15)),
        ]),
        MediaTrackSettings::from_iter(vec![
            (DEVICE_ID, Value::of_str("b")),
            (FRAME_RATE, Value::integer(30)),
        ]),
        MediaTrackSettings::from_iter(vec![
            (DEVICE_ID, Value::of_str("c")),
            (FRAME_RATE, Value::integer(60)),
        ]),
    ]
}

#[test]
fn value() {
    let possible_settings = three_grouped_candidates();

    let actual = test_constrained(
        &possible_settings,
        MandatoryMediaTrackConstraints::from_iter(vec![(
            GROUP_ID,
            MediaTrackConstraint::Value(
                ValueConstraint::default().exact(Value::of_str("group-1")),
            ),
        )]),
        AdvancedMediaTrackConstraints::default(),
        first_settings_policy(),
    );

    let expected = &possible_settings[1];

    assert_eq!(actual, expected);
}

#[test]
fn value_range() {
    let possible_settings = three_rated_candidates();

    let actual = test_constrained(
        &possible_settings,
        MandatoryMediaTrackConstraints::from_iter(vec![(
            FRAME_RATE,
            MediaTrackConstraint::Range(ValueRangeConstraint::default().exact(30)),
        )]),
        AdvancedMediaTrackConstraints::default(),
        first_settings_policy(),
    );

    let expected = &possible_settings[1];

    assert_eq!(actual, expected);
}

#[test]
fn value_sequence() {
    let possible_settings = three_grouped_candidates();

    let actual = test_constrained(
        &possible_settings,
        MandatoryMediaTrackConstraints::from_iter(vec![(
            GROUP_ID,
            MediaTrackConstraint::Sequence(ValueSequenceConstraint::default().exact(vec![
                Value::of_str("group-1"),
                Value::of_str("group-3"),
            ])),
        )]),
        AdvancedMediaTrackConstraints::default(),
        first_settings_policy(),
    );

    let expected = &possible_settings[1];

    assert_eq!(actual, expected);
}

#[test]
fn tests_value() {
    let possible_settings = three_grouped_candidates();

    let actual = test_constrained(
        &possible_settings,
        MandatoryMediaTrackConstraints::from_iter(vec![(
            GROUP_ID,
            MediaTrackConstraint::Value(
                ValueConstraint::default().ideal(Value::of_str("group-1")),
            ),
        )]),
        AdvancedMediaTrackConstraints::default(),
        first_settings_policy(),
    );

    let expected = &possible_settings[1];

    assert_eq!(actual, expected);
}

#[test]
fn tests_value_range() {
    let possible_settings = three_rated_candidates();

    let actual = test_constrained(
        &possible_settings,
        MandatoryMediaTrackConstraints::from_iter(vec![(
            FRAME_RATE,
            MediaTrackConstraint::Range(ValueRangeConstraint::default().ideal(32)),
        )]),
        AdvancedMediaTrackConstraints::default(),
        first_settings_policy(),
    );

    let expected = &possible_settings[1];

    assert_eq!(actual, expected);
}

#[test]
fn tests_value_sequence() {
    let possible_settings = three_grouped_candidates();

    let actual = test_constrained(
        &possible_settings,
        MandatoryMediaTrackConstraints::from_iter(vec![(
            GROUP_ID,
            MediaTrackConstraint::Sequence(ValueSequenceConstraint::default().ideal(vec![
                Value::of_str("group-1"),
                Value::of_str("group-3"),
            ])),
        )]),
        AdvancedMediaTrackConstraints::default(),
        first_settings_policy(),
    );

    let expected = &possible_settings[1];

    assert_eq!(actual, expected);
}

#[test]
fn native() {
    let supported_constraints = MediaTrackSupportedConstraints::from_iter(vec![
        DEVICE_ID,
        HEIGHT,
        WIDTH,
        RESIZE_MODE,
    ]);

    let possible_settings = vec![
        MediaTrackSettings::from_iter(vec![
            (DEVICE_ID, Value::of_str("480p")),
            (HEIGHT, Value::integer(480)),
            (WIDTH, Value::integer(720)),
            (RESIZE_MODE, ResizeMode::crop_and_scale()),
        ]),
        MediaTrackSettings::from_iter(vec![
            (DEVICE_ID, Value::of_str("720p")),
            (HEIGHT, Value::integer(720)),
            (WIDTH, Value::integer(1280)),
            (RESIZE_MODE, ResizeMode::crop_and_scale()),
        ]),
        MediaTrackSettings::from_iter(vec![
            (DEVICE_ID, Value::of_str("1080p")),
            (HEIGHT, Value::integer(1080)),
            (WIDTH, Value::integer(1920)),
            (RESIZE_MODE, ResizeMode::none()),
        ]),
        MediaTrackSettings::from_iter(vec![
            (DEVICE_ID, Value::of_str("1440p")),
            (HEIGHT, Value::integer(1440)),
            (WIDTH, Value::integer(2560)),
            (RESIZE_MODE, ResizeMode::none()),
        ]),
        MediaTrackSettings::from_iter(vec![
            (DEVICE_ID, Value::of_str("2160p")),
            (HEIGHT, Value::integer(2160)),
            (WIDTH, Value::integer(3840)),
            (RESIZE_MODE, ResizeMode::none()),
        ]),
    ];

    // Make tie-breaking prefer 720p (which lies outside of mandatory constraints):
    let tie_breaking_policy = {
        let ideal_settings = possible_settings[1].clone();
        ideal_settings_policy(ideal_settings, &supported_constraints)
    };

    let full_constraints = MediaTrackConstraints {
        mandatory: MandatoryMediaTrackConstraints::from_iter(vec![
            (WIDTH, MediaTrackConstraint::Range(ValueRangeConstraint::default().max(2560))),
            (HEIGHT, MediaTrackConstraint::Range(ValueRangeConstraint::default().max(1440))),
            // Unsupported constraint, which should thus get ignored:
            (FRAME_RATE, MediaTrackConstraint::Range(ValueRangeConstraint::default().max(30))),
        ]),
        advanced: AdvancedMediaTrackConstraints::from_iter(vec![
            // The first advanced constraint set of "exact 800p" does not match
            // any candidate and should thus get ignored by the algorithm:
            MediaTrackConstraintSet::from_iter(vec![(
                HEIGHT,
                MediaTrackConstraint::Range(ValueRangeConstraint::default().exact(800)),
            )]),
            // The second advanced constraint set of "no resizing" does match
            // candidates and should thus be applied by the algorithm:
            MediaTrackConstraintSet::from_iter(vec![(
                RESIZE_MODE,
                MediaTrackConstraint::Value(ValueConstraint::default().exact(ResizeMode::none())),
            )]),
        ]),
    };

    let sanitized_constraints = full_constraints.to_sanitized(&supported_constraints);

    let actual = select_settings(&possible_settings, &sanitized_constraints, &tie_breaking_policy)
        .unwrap();

    let expected = &possible_settings[2];

    assert_eq!(actual, expected);
}

// A constraint on an aspect ratio renders its fixed-point values exactly.
#[test]
fn fractional_rendering() {
    let possible_settings = vec![MediaTrackSettings::from_iter(vec![
        (DEVICE_ID, Value::of_str("a")),
        (ASPECT_RATIO, Value::micros(562_500)),
    ])];

    let error = test_overconstrained(
        &possible_settings,
        MandatoryMediaTrackConstraints::from_iter(vec![(
            ASPECT_RATIO,
            MediaTrackConstraint::Range(ValueRangeConstraint::default().exact(2)),
        )]),
        first_settings_policy(),
    );

    let err_message = error.message.as_ref().expect("Error message.");
    assert_eq!(
        err_message,
        "Setting was a mismatch ([0.5625] do not satisfy (x == 2))."
    );
}

// Negative values render with a leading minus sign.
#[test]
fn negative_rendering() {
    let possible_settings = vec![MediaTrackSettings::from_iter(vec![(
        FRAME_RATE,
        Value::integer(-10),
    )])];

    let error = test_overconstrained(
        &possible_settings,
        MandatoryMediaTrackConstraints::from_iter(vec![(
            FRAME_RATE,
            MediaTrackConstraint::Range(ValueRangeConstraint::default().min(-5)),
        )]),
        first_settings_policy(),
    );

    let err_message = error.message.as_ref().expect("Error message.");
    assert_eq!(
        err_message,
        "Setting was too small ([-10] do not satisfy (-5 <= x))."
    );
}

// An empty candidate list with a mandatory constraint fails with an empty
// actual-values listing.
#[test]
fn empty_candidates() {
    let possible_settings: Vec<MediaTrackSettings> = Vec::new();

    let error = test_overconstrained(
        &possible_settings,
        MandatoryMediaTrackConstraints::from_iter(vec![(
            DEVICE_ID,
            MediaTrackConstraint::Value(ValueConstraint::default().exact(Value::of_str("a"))),
        )]),
        first_settings_policy(),
    );

    let err_message = error.message.as_ref().expect("Error message.");
    assert_eq!(err_message, "Setting was a mismatch ([] do not satisfy (x == \"a\")).");
}

// Repeated calls with identical inputs select the identical candidate.
#[test]
fn deterministic_selection() {
    let possible_settings = default_possible_settings();
    let supported_constraints = default_supported_constraints();

    let run = || {
        let tie_breaking_policy =
            ideal_settings_policy(default_ideal_settings(), &supported_constraints);
        let empty = constraints::fixtures::constraints();
        select_settings(&possible_settings, &empty, &tie_breaking_policy)
            .unwrap()
            .clone()
    };

    assert_eq!(run(), run());
}

#[test]
fn padding_values() {
    assert_eq!(constraints::get_padding(0), 0);
    assert_eq!(constraints::get_padding(1), 3);
    assert_eq!(constraints::get_padding(2), 2);
    assert_eq!(constraints::get_padding(3), 1);
    assert_eq!(constraints::get_padding(4), 0);
    assert_eq!(constraints::get_padding(5), 3);
}
