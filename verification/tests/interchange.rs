use constraints::fixtures::ideal_settings_policy;
use constraints::property::Property;
use constraints::property::ASPECT_RATIO;
use constraints::property::DEVICE_ID;
use constraints::property::FRAME_RATE;
use constraints::property::GROUP_ID;
use constraints::property::HEIGHT;
use constraints::property::RESIZE_MODE;
use constraints::property::WIDTH;
use constraints::select_settings;
use constraints::AdvancedMediaTrackConstraints;
use constraints::BareOrAdvancedMediaTrackConstraints;
use constraints::BareOrMandatoryMediaTrackConstraints;
use constraints::BareOrMediaTrackConstraint;
use constraints::BareOrMediaTrackConstraintSet;
use constraints::BareOrMediaTrackConstraints;
use constraints::MandatoryMediaTrackConstraints;
use constraints::MediaTrackConstraint;
use constraints::MediaTrackConstraintSet;
use constraints::MediaTrackConstraints;
use constraints::MediaTrackSettings;
use constraints::MediaTrackSupportedConstraints;
use constraints::Value;
use constraints::ValueRangeConstraint;

fn prop_of_key(key: &str) -> Property {
    match key {
        "deviceId" => DEVICE_ID,
        "groupId" => GROUP_ID,
        "aspectRatio" => ASPECT_RATIO,
        "frameRate" => FRAME_RATE,
        "width" => WIDTH,
        "height" => HEIGHT,
        "resizeMode" => RESIZE_MODE,
        _ => panic!("unknown property key"),
    }
}

fn value_of_json(v: &serde_json::Value) -> Value {
    if let Some(s) = v.as_str() {
        Value::of_str(s)
    } else if let Some(i) = v.as_i64() {
        Value::integer(i)
    } else if let Some(f) = v.as_f64() {
        Value::micros((f * 1_000_000.0).round() as i64)
    } else if let Some(b) = v.as_bool() {
        Value::of_bool(b)
    } else {
        panic!("unsupported value shape")
    }
}

fn micros_of_json(v: &serde_json::Value) -> i64 {
    if let Some(i) = v.as_i64() {
        i * 1_000_000
    } else if let Some(f) = v.as_f64() {
        (f * 1_000_000.0).round() as i64
    } else {
        panic!("not a number")
    }
}

fn bare_or_of_json(v: &serde_json::Value) -> BareOrMediaTrackConstraint {
    if let Some(obj) = v.as_object() {
        let mut range = ValueRangeConstraint {
            min: None,
            max: None,
            exact: None,
            ideal: None,
        };
        for (k, bound) in obj.iter() {
            let m = micros_of_json(bound);
            match k.as_str() {
                "min" => range.min = Some(m),
                "max" => range.max = Some(m),
                "exact" => range.exact = Some(m),
                "ideal" => range.ideal = Some(m),
                _ => panic!("unknown bound key"),
            }
        }
        BareOrMediaTrackConstraint::Constraint(MediaTrackConstraint::Range(range))
    } else {
        BareOrMediaTrackConstraint::Bare(value_of_json(v))
    }
}

fn settings_of_json(v: &serde_json::Value) -> MediaTrackSettings {
    let obj = v.as_object().expect("settings object");
    let mut pairs: Vec<(Property, Value)> = Vec::new();
    for key in ["deviceId", "groupId", "aspectRatio", "frameRate", "width", "height", "resizeMode"]
    {
        if let Some(field) = obj.get(key) {
            pairs.push((prop_of_key(key), value_of_json(field)));
        }
    }
    MediaTrackSettings::from_iter(pairs)
}

#[test]
fn json() {
    let supported_constraints = MediaTrackSupportedConstraints::from_iter(vec![
        DEVICE_ID,
        HEIGHT,
        WIDTH,
        RESIZE_MODE,
    ]);

    // Deserialize possible settings from JSON:
    let possible_settings: Vec<MediaTrackSettings> = {
        let json: serde_json::Value = serde_json::from_str(
            r#"[
                { "deviceId": "480p", "width": 720, "height": 480, "resizeMode": "crop-and-scale" },
                { "deviceId": "720p", "width": 1280, "height": 720, "resizeMode": "crop-and-scale" },
                { "deviceId": "1080p", "width": 1920, "height": 1080, "resizeMode": "none" },
                { "deviceId": "1440p", "width": 2560, "height": 1440, "resizeMode": "none" },
                { "deviceId": "2160p", "width": 3840, "height": 2160, "resizeMode": "none" }
            ]"#,
        )
        .unwrap();
        json.as_array().unwrap().iter().map(settings_of_json).collect()
    };

    // Make tie-breaking prefer 720p (which lies outside of mandatory constraints):
    let tie_breaking_policy = {
        let ideal_settings = possible_settings[1].clone();
        ideal_settings_policy(ideal_settings, &supported_constraints)
    };

    // Deserialize constraints from JSON:
    let bare_or_constraints: BareOrMediaTrackConstraints = {
        let json: serde_json::Value = serde_json::from_str(
            r#"{
                "width": { "max": 2560 },
                "height": { "max": 1440 },
                "frameRate": 30.0,
                "advanced": [
                    { "height": 800 },
                    { "resizeMode": "none" }
                ]
            }"#,
        )
        .unwrap();
        let obj = json.as_object().unwrap();
        let mut mandatory: Vec<(Property, BareOrMediaTrackConstraint)> = Vec::new();
        for key in ["width", "height", "frameRate"] {
            mandatory.push((prop_of_key(key), bare_or_of_json(obj.get(key).unwrap())));
        }
        let mut advanced: Vec<BareOrMediaTrackConstraintSet> = Vec::new();
        for entry in obj.get("advanced").unwrap().as_array().unwrap() {
            let set = entry.as_object().unwrap();
            let mut entries: Vec<(Property, BareOrMediaTrackConstraint)> = Vec::new();
            for (k, v) in set.iter() {
                entries.push((prop_of_key(k), bare_or_of_json(v)));
            }
            advanced.push(BareOrMediaTrackConstraintSet::from_iter(entries));
        }
        BareOrMediaTrackConstraints {
            mandatory: BareOrMandatoryMediaTrackConstraints::from_iter(mandatory),
            advanced: BareOrAdvancedMediaTrackConstraints::from_iter(advanced),
        }
    };

    // Resolve bare values to proper constraints:
    let resolved = bare_or_constraints.to_resolved();

    // Sanitize constraints, removing empty and unsupported constraints:
    let sanitized_constraints = resolved.to_sanitized(&supported_constraints);

    let actual = select_settings(&possible_settings, &sanitized_constraints, &tie_breaking_policy)
        .unwrap();

    let expected = &possible_settings[2];

    assert_eq!(actual, expected);

    // Cross-path equivalence: the same constraints built directly select
    // the same winner.
    let direct = MediaTrackConstraints {
        mandatory: MandatoryMediaTrackConstraints::from_iter(vec![
            (WIDTH, MediaTrackConstraint::Range(ValueRangeConstraint::default().max(2560))),
            (HEIGHT, MediaTrackConstraint::Range(ValueRangeConstraint::default().max(1440))),
            (FRAME_RATE, MediaTrackConstraint::Range(ValueRangeConstraint::default().ideal(30))),
        ]),
        advanced: AdvancedMediaTrackConstraints::from_iter(vec![
            MediaTrackConstraintSet::from_iter(vec![(
                HEIGHT,
                MediaTrackConstraint::Range(ValueRangeConstraint::default().exact(800)),
            )]),
            MediaTrackConstraintSet::from_iter(vec![(
                RESIZE_MODE,
                MediaTrackConstraint::Value(
                    constraints::ValueConstraint::default().exact(constraints::ResizeMode::none()),
                ),
            )]),
        ]),
    }
    .to_sanitized(&supported_constraints);

    let direct_winner =
        select_settings(&possible_settings, &direct, &tie_breaking_policy).unwrap();

    assert_eq!(direct_winner, actual);
}
