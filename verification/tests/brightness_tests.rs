use quantum_providers::brightness::{
    adjusted_target, brightness_displays, clamp_to_device, compute_adjusted, device_not_found,
    find_spec, is_keyboard_backlight, min_brightness, parse_brightness_action, parse_sysfs_value,
    set_message, value_for_set, BrightnessAction, BrightnessDisplay, BrightnessSpec,
};
use quantum_providers::error::DomainError;
use quantum_providers::json::JsonValue;

fn s(v: &str) -> JsonValue {
    JsonValue::Str(v.to_string())
}

fn obj(pairs: Vec<(&str, JsonValue)>) -> JsonValue {
    JsonValue::Object(pairs.into_iter().map(|(k, v)| (k.to_string(), v)).collect())
}

fn spec(subsystem: &str, name: &str, max: u32) -> BrightnessSpec {
    BrightnessSpec {
        subsystem: subsystem.to_string(),
        name: name.to_string(),
        max,
        brightness_path: format!("/sys/class/{subsystem}/{name}/brightness"),
    }
}

#[test]
fn compute_adjusted_clamps_to_minimum_floor() {
    assert_eq!(compute_adjusted(100, 10000, -50), 100);
}

#[test]
fn compute_adjusted_clamps_to_max() {
    assert_eq!(compute_adjusted(9000, 10000, 20), 10000);
}

#[test]
fn compute_adjusted_typical() {
    assert_eq!(compute_adjusted(5000, 10000, 5), 5500);
}

#[test]
fn compute_adjusted_floors_at_one_raw_unit_for_tiny_max() {
    assert_eq!(compute_adjusted(2, 3, -100), 1);
}

#[test]
fn min_brightness_one_percent_of_typical_panel() {
    assert_eq!(min_brightness(10000), 100);
    assert_eq!(min_brightness(96000), 960);
}

#[test]
fn min_brightness_never_zero() {
    assert_eq!(min_brightness(3), 1);
    assert_eq!(min_brightness(50), 1);
    assert_eq!(min_brightness(1), 1);
}

#[test]
fn compute_adjusted_step_truncates_toward_zero() {
    // -7% of 250 is -17.5, truncated to -17.
    assert_eq!(compute_adjusted(100, 250, -7), 83);
    // 7% of 250 is 17.5, truncated to 17.
    assert_eq!(compute_adjusted(100, 250, 7), 117);
}

#[test]
fn compute_adjusted_stays_within_floor_and_max() {
    for current in [0u32, 1, 50, 99, 100] {
        for delta in [-100i32, -10, 0, 10, 100] {
            let r = compute_adjusted(current, 100, delta);
            assert!(r >= 1 && r <= 100);
        }
    }
}

#[test]
fn parses_set_action() {
    let payload = obj(vec![
        ("command", s("set")),
        ("subsystem", s("backlight")),
        ("name", s("intel_backlight")),
        ("value", JsonValue::UInt(50000)),
    ]);
    match parse_brightness_action(&payload).expect("parse") {
        BrightnessAction::SetValue { subsystem, name, value } => {
            assert_eq!(subsystem, "backlight");
            assert_eq!(name, "intel_backlight");
            assert_eq!(value, 50000);
        }
        _ => panic!("expected Set action"),
    }
}

#[test]
fn parses_adjust_positive() {
    let payload = obj(vec![
        ("command", s("adjust")),
        ("subsystem", s("backlight")),
        ("name", s("intel_backlight")),
        ("delta_percent", JsonValue::UInt(5)),
    ]);
    match parse_brightness_action(&payload).expect("parse") {
        BrightnessAction::Adjust { subsystem, name, delta_percent } => {
            assert_eq!(subsystem, "backlight");
            assert_eq!(name, "intel_backlight");
            assert_eq!(delta_percent, 5);
        }
        _ => panic!("expected Adjust action"),
    }
}

#[test]
fn parses_adjust_negative() {
    let payload = obj(vec![
        ("command", s("adjust")),
        ("subsystem", s("backlight")),
        ("name", s("intel_backlight")),
        ("delta_percent", JsonValue::Int(-5)),
    ]);
    match parse_brightness_action(&payload).expect("parse") {
        BrightnessAction::Adjust { delta_percent, .. } => assert_eq!(delta_percent, -5),
        _ => panic!("expected Adjust action"),
    }
}

#[test]
fn brightness_rejects_unknown_command() {
    assert!(parse_brightness_action(&obj(vec![("command", s("invalid"))])).is_err());
}

#[test]
fn rejects_set_missing_subsystem() {
    let payload = obj(vec![
        ("command", s("set")),
        ("name", s("intel_backlight")),
        ("value", JsonValue::UInt(50000)),
    ]);
    assert!(parse_brightness_action(&payload).is_err());
}

#[test]
fn rejects_adjust_non_int_delta() {
    let payload = obj(vec![
        ("command", s("adjust")),
        ("subsystem", s("backlight")),
        ("name", s("intel_backlight")),
        ("delta_percent", s("not_an_int")),
    ]);
    assert!(parse_brightness_action(&payload).is_err());
}

#[test]
fn sysfs_values_are_trimmed_integers() {
    assert_eq!(parse_sysfs_value("96000\n"), Some(96000));
    assert_eq!(parse_sysfs_value("  7 "), Some(7));
    assert_eq!(parse_sysfs_value("abc"), None);
    assert_eq!(parse_sysfs_value(""), None);
}

#[test]
fn keyboard_backlights_are_recognised_by_name() {
    assert!(is_keyboard_backlight("tpacpi::kbd_backlight"));
    assert!(!is_keyboard_backlight("intel_backlight"));
}

#[test]
fn set_value_is_clamped_for_known_devices_only() {
    let specs = vec![spec("backlight", "intel_backlight", 96000), spec("leds", "tpacpi::kbd_backlight", 2)];
    assert_eq!(find_spec(&specs, "leds", "tpacpi::kbd_backlight"), Some(1));
    assert_eq!(find_spec(&specs, "leds", "other"), None);
    assert_eq!(value_for_set(&specs, "leds", "tpacpi::kbd_backlight", 9), clamp_to_device(9, 2));
    assert_eq!(value_for_set(&specs, "backlight", "unknown", 12345), 12345);
}

#[test]
fn sample_keeps_readable_devices_in_order() {
    let specs = vec![
        spec("backlight", "intel_backlight", 19393),
        spec("leds", "tpacpi::kbd_backlight", 2),
        spec("backlight", "acpi_video0", 100),
    ];
    let readings = vec![Some("9696\n".to_string()), None, Some("garbage".to_string())];
    let state = brightness_displays(&specs, &readings);
    assert!(state.available);
    assert_eq!(
        state.displays,
        vec![BrightnessDisplay {
            subsystem: "backlight".to_string(),
            name: "intel_backlight".to_string(),
            current: 9696,
            max: 19393,
        }]
    );
    let all = brightness_displays(&specs, &vec![Some("1".into()), Some(" 2 ".into()), Some("50".into())]);
    assert_eq!(all.displays.len(), 3);
    assert_eq!(all.displays[1].current, 2);
    assert_eq!(all.displays[2].name, "acpi_video0");
}

#[test]
fn adjust_target_reads_current_value() {
    assert_eq!(adjusted_target("500\n", 1000, 10).unwrap(), 600);
    assert_eq!(adjusted_target("20", 1000, -50).unwrap(), 10);
    match adjusted_target("n/a", 1000, 10) {
        Err(DomainError::ActionFailed { reason }) => assert_eq!(reason, "parse brightness value"),
        other => panic!("expected parse failure, got {other:?}"),
    }
}

#[test]
fn brightness_messages() {
    match device_not_found("backlight", "ghost") {
        DomainError::ActionFailed { reason } => {
            assert_eq!(reason, "brightness device not found: backlight/ghost")
        }
        other => panic!("unexpected {other:?}"),
    }
    assert_eq!(set_message("backlight", "intel_backlight", 4200), "set backlight/intel_backlight to 4200");
}

#[test]
fn brightness_refusals_give_the_reason() {
    let reason = |p: JsonValue| match parse_brightness_action(&p) {
        Err(DomainError::ActionFailed { reason }) => reason,
        other => panic!("expected a refusal, got {other:?}"),
    };
    assert_eq!(reason(obj(vec![])), "missing command field");
    assert_eq!(reason(obj(vec![("command", s("set"))])), "set requires subsystem");
    assert_eq!(reason(obj(vec![("command", s("set")), ("subsystem", s("backlight"))])), "set requires name");
    assert_eq!(
        reason(obj(vec![("command", s("set")), ("subsystem", s("backlight")), ("name", s("x"))])),
        "set requires value (u32)"
    );
    assert_eq!(
        reason(obj(vec![("command", s("adjust")), ("subsystem", s("leds")), ("name", s("x"))])),
        "adjust requires delta_percent (i32)"
    );
    assert_eq!(reason(obj(vec![("command", s("dim"))])), "unknown brightness command: dim");
}
