use ponde::button::Button;
use ponde::config::{
    accel_speed_in_range, rotation_angle_in_range, AccelProfile, Config, Device, Setting,
};
use ponde::device_info::{DeviceInfo, MatchRule};
use ponde::double::Double;
use ponde::scroll_factor::{ScrollFactor, TryFromFloatError};

fn d(x: f64) -> Double {
    Double::from_bits(x.to_bits())
}

fn rule(name: &str) -> MatchRule {
    MatchRule { name: name.to_string() }
}

#[test]
fn test_mouse() {
    let device_info = DeviceInfo { name: "moo".to_string(), pointer: true, gesture: false };
    assert!(device_info.is_mouse());
}

#[test]
fn test_non_pointer_device() {
    let device_info = DeviceInfo { name: "moo".to_string(), pointer: false, gesture: false };
    assert!(!device_info.is_mouse())
}

#[test]
fn test_touchpad() {
    let device_info = DeviceInfo { name: "moo".to_string(), pointer: true, gesture: true };
    assert!(!device_info.is_mouse())
}

#[test]
fn test_empty() {
    let device_info = DeviceInfo { name: "moo".to_string(), pointer: true, gesture: false };
    let config = Config { devices: vec![] };
    assert!(config.matched_device(&device_info).is_none());
}

#[test]
fn test_found_device() {
    let device_info = DeviceInfo { name: "moo".to_string(), pointer: true, gesture: false };
    let device_config = Device::new(rule("moo"));
    let config = Config { devices: vec![device_config] };
    assert!(config.matched_device(&device_info).is_some());
}

#[test]
fn test_de_button() {
    assert_eq!(Button::parse("BTN_LEFT"), Ok(Button::from_code(0x110)));
}

#[test]
fn button_from_lookup_checks_the_prefix() {
    assert_eq!(Button::from_lookup("BTN_LEFT", Some(0x110)), Ok(Button::from_code(0x110)));
    assert_eq!(Button::from_lookup("BTN_BAD", None).unwrap_err().value, "BTN_BAD");
    assert_eq!(Button::from_lookup("KEY_A", Some(30)).unwrap_err().value, "KEY_A");
    assert_eq!(Button::from_lookup("BTN", Some(1)).unwrap_err().value, "BTN");
}

#[test]
fn test_de_key() {
    let err = Button::parse("KEY_A").unwrap_err();
    assert_eq!(err.message(), "unexpected button value KEY_A");
}

#[test]
fn test_de_invalid_button() {
    let err = Button::parse("BTN_BAD").unwrap_err();
    assert_eq!(err.message(), "unexpected button value BTN_BAD");
}

#[test]
fn test_try_from_float() {
    let err = Err(TryFromFloatError {});
    assert_eq!(ScrollFactor::try_from(d(1.0)).map(|x| x.value()), Ok(d(1.0)));
    assert_eq!(ScrollFactor::try_from(d(0.0)), err);
    assert_eq!(ScrollFactor::try_from(d(-1.0)), err);
    assert_eq!(ScrollFactor::try_from(d(f64::NAN)), err);
    assert_eq!(ScrollFactor::try_from(d(f64::INFINITY)), err);
    assert_eq!(ScrollFactor::try_from(d(f64::NEG_INFINITY)), err);
}

#[test]
fn test_de() {
    let error = "scroll factor must be a positive finite number";
    assert_eq!(ScrollFactor::try_from(d(1.0)).map(|x| x.value()), Ok(d(1.0)));
    for x in [0.0, -1.0, f64::NAN, f64::INFINITY, f64::NEG_INFINITY] {
        assert_eq!(ScrollFactor::try_from(d(x)).unwrap_err().message(), error);
    }
}

#[test]
fn scroll_factor_default_is_one() {
    assert_eq!(ScrollFactor::default().value(), d(1.0));
    assert!(ScrollFactor::try_from(d(0.25)).is_ok());
    assert!(ScrollFactor::try_from(d(-0.0)).is_err());
    assert!(ScrollFactor::try_from(d(f64::MIN_POSITIVE / 4.0)).is_ok());
}

#[test]
fn match_rule_needs_mouse_and_exact_name() {
    let r = rule("moo");
    assert!(r.matches(&DeviceInfo::of_mouse("moo")));
    assert!(!r.matches(&DeviceInfo::of_mouse("moo2")));
    assert!(!r.matches(&DeviceInfo::of_mouse("Moo")));
    assert!(!r.matches(&DeviceInfo { name: "moo".to_string(), pointer: false, gesture: false }));
    assert!(!r.matches(&DeviceInfo { name: "moo".to_string(), pointer: true, gesture: true }));
}

#[test]
fn matched_device_takes_the_first_match() {
    let mut first = Device::new(rule("moo"));
    first.left_handed = Some(true);
    let second = Device::new(rule("moo"));
    let other = Device::new(rule("cow"));
    let config = Config { devices: vec![other, first, second] };
    let found = config.matched_device(&DeviceInfo::of_mouse("moo")).unwrap();
    assert_eq!(found.left_handed, Some(true));
    assert_eq!(config.matched_index(&DeviceInfo::of_mouse("moo")), Some(1));
    assert_eq!(config.matched_index(&DeviceInfo::of_mouse("pig")), None);
}

#[test]
fn map_button_uses_mapping_or_identity() {
    let mut dev = Device::new(rule("moo"));
    dev.button_mapping.insert(0x113, 0x116);
    assert_eq!(dev.map_button(Button::from_code(0x113)).code(), 0x116);
    assert_eq!(dev.map_button(Button::from_code(0x110)).code(), 0x110);
}

#[test]
fn settings_follow_the_set_options_in_order() {
    let mut dev = Device::new(rule("moo"));
    assert_eq!(dev.settings(), vec![]);
    dev.scroll_button_lock = Some(false);
    dev.accel_profile = Some(AccelProfile::Flat);
    dev.rotation_angle = Some(90);
    dev.scroll_button = Some(Button::from_code(0x112));
    dev.accel_speed = Some(d(0.3));
    assert_eq!(
        dev.settings(),
        vec![
            Setting::AccelProfile(AccelProfile::Flat),
            Setting::AccelSpeed(d(0.3)),
            Setting::RotationAngle(90),
            Setting::ScrollButton(0x112),
            Setting::ScrollMethodOnButtonDown,
            Setting::ScrollButtonLock(false),
        ]
    );
}

#[test]
fn accel_speed_range_is_closed_unit_interval() {
    for x in [-1.0, -0.5, 0.0, -0.0, 0.3, 1.0, 1e-310] {
        assert!(accel_speed_in_range(d(x)), "{x}");
    }
    for x in [1.0000000000000002, -1.0000000000000002, 2.0, -3.5, 1e300, f64::NAN, f64::INFINITY] {
        assert!(!accel_speed_in_range(d(x)), "{x}");
    }
}

#[test]
fn rotation_angle_range_excludes_360() {
    assert!(rotation_angle_in_range(0));
    assert!(rotation_angle_in_range(359));
    assert!(!rotation_angle_in_range(360));
}
