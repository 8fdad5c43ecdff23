use ponde::config::Device;
use ponde::device_info::{DeviceInfo, MatchRule};
use ponde::double::Double;
use ponde::errors::{DeviceConfigError, Error};
use ponde::event_route::{Action, EventKind};
use ponde::sink_device::{sink_key_codes, sink_relative_axes};
use ponde::sink_event::{
    ButtonState, InputEvent, PointerEvent, SinkEvent, WheelAxis, ABS_X, ABS_Y, EV_ABS, EV_KEY,
    EV_REL, REL_HWHEEL, REL_HWHEEL_HI_RES, REL_WHEEL, REL_WHEEL_HI_RES, REL_X, REL_Y,
};

fn d(x: f64) -> Double {
    Double::from_bits(x.to_bits())
}

fn rel(code: u16, value: i32) -> InputEvent {
    InputEvent { event_type: EV_REL, code, value }
}

fn any_device() -> Device {
    Device::new(MatchRule { name: "moo".to_string() })
}

fn translate(ev: &PointerEvent, dev: &Device) -> Vec<InputEvent> {
    SinkEvent::from_pointer_event(ev, dev).unwrap().as_ref().clone()
}

#[test]
fn motion_truncates_toward_zero() {
    let ev = PointerEvent::Motion { dx: d(3.7), dy: d(-2.1) };
    assert_eq!(translate(&ev, &any_device()), vec![rel(REL_X, 3), rel(REL_Y, -2)]);
}

#[test]
fn absolute_motion_goes_to_absolute_axes() {
    let ev = PointerEvent::MotionAbsolute { x: d(10.9), y: d(-0.5) };
    assert_eq!(
        translate(&ev, &any_device()),
        vec![
            InputEvent { event_type: EV_ABS, code: ABS_X, value: 10 },
            InputEvent { event_type: EV_ABS, code: ABS_Y, value: 0 },
        ]
    );
}

#[test]
fn mapped_button_press() {
    let mut dev = any_device();
    dev.button_mapping.insert(275, 276);
    let ev = PointerEvent::Button { button: 275, state: ButtonState::Pressed };
    assert_eq!(translate(&ev, &dev), vec![InputEvent { event_type: EV_KEY, code: 276, value: 1 }]);
}

#[test]
fn unmapped_button_release() {
    let mut dev = any_device();
    dev.button_mapping.insert(275, 276);
    let ev = PointerEvent::Button { button: 272, state: ButtonState::Released };
    assert_eq!(translate(&ev, &dev), vec![InputEvent { event_type: EV_KEY, code: 272, value: 0 }]);
}

#[test]
fn wheel_vertical_one_detent() {
    let ev = PointerEvent::ScrollWheel {
        vertical: Some(WheelAxis { value: d(1.0), v120: d(120.0) }),
        horizontal: None,
    };
    assert_eq!(
        translate(&ev, &any_device()),
        vec![rel(REL_WHEEL, -1), rel(REL_WHEEL_HI_RES, -120)]
    );
}

#[test]
fn wheel_both_axes_in_order() {
    let ev = PointerEvent::ScrollWheel {
        vertical: Some(WheelAxis { value: d(-2.0), v120: d(-240.0) }),
        horizontal: Some(WheelAxis { value: d(0.5), v120: d(60.0) }),
    };
    assert_eq!(
        translate(&ev, &any_device()),
        vec![
            rel(REL_WHEEL, 2),
            rel(REL_WHEEL_HI_RES, 240),
            rel(REL_HWHEEL, 0),
            rel(REL_HWHEEL_HI_RES, 60),
        ]
    );
}

#[test]
fn finger_scroll_both_axes() {
    let ev = PointerEvent::ScrollFinger { vertical: Some(d(2.0)), horizontal: Some(d(1.0)) };
    assert_eq!(
        translate(&ev, &any_device()),
        vec![
            rel(REL_WHEEL, -2),
            rel(REL_WHEEL_HI_RES, -240),
            rel(REL_HWHEEL, 1),
            rel(REL_HWHEEL_HI_RES, 120),
        ]
    );
}

#[test]
fn continuous_scroll_horizontal_only() {
    let ev = PointerEvent::ScrollContinuous { vertical: None, horizontal: Some(d(0.5)) };
    assert_eq!(
        translate(&ev, &any_device()),
        vec![rel(REL_HWHEEL, 0), rel(REL_HWHEEL_HI_RES, 60)]
    );
}

#[test]
fn scroll_without_axes_is_empty() {
    let ev = PointerEvent::ScrollFinger { vertical: None, horizontal: None };
    assert_eq!(translate(&ev, &any_device()), vec![]);
}

#[test]
fn legacy_axis_is_dropped() {
    assert_eq!(translate(&PointerEvent::Axis, &any_device()), vec![]);
}

#[test]
fn other_event_is_an_error() {
    let ev = PointerEvent::Other("Hold".to_string());
    match SinkEvent::from_pointer_event(&ev, &any_device()) {
        Err(Error::Message(m)) => assert_eq!(m, "unexpected pointer event: Hold"),
        other => panic!("unexpected result {:?}", other),
    }
}

#[test]
fn truncation_edges() {
    assert_eq!(d(0.0).trunc(), 0);
    assert_eq!(d(-0.0).trunc(), 0);
    assert_eq!(d(0.999).trunc(), 0);
    assert_eq!(d(-0.999).trunc(), 0);
    assert_eq!(d(1e-300).trunc(), 0);
    assert_eq!(d(2147483647.9).trunc(), i32::MAX);
    assert_eq!(d(3e9).trunc(), i32::MAX);
    assert_eq!(d(-2147483648.0).trunc(), i32::MIN);
    assert_eq!(d(-3e9).trunc(), i32::MIN);
    assert_eq!(d(1e300).trunc(), i32::MAX);
    assert_eq!(d(f64::INFINITY).trunc(), i32::MAX);
    assert_eq!(d(f64::NEG_INFINITY).trunc(), i32::MIN);
    assert_eq!(d(f64::NAN).trunc(), 0);
    assert_eq!(d(123456.75).trunc(), 123456);
    assert_eq!(d(-123456.75).trunc(), -123456);
    for x in [0.3, 1.5, -7.25, 65535.5, -1e6, 12.125] {
        assert_eq!(d(x).trunc(), x as i32);
        assert_eq!(d(x).neg().trunc(), (-x) as i32);
    }
}

#[test]
fn times_rounds_like_a_product_of_doubles() {
    let samples = [
        0.0,
        -0.0,
        0.3,
        -0.3,
        0.1,
        1.0 / 3.0,
        2.0 / 3.0,
        0.7,
        1.5,
        -7.25,
        12.125,
        123456.789,
        1e-310,
        -4e-320,
        f64::MIN_POSITIVE,
        f64::MIN_POSITIVE * 0.999,
        1e300,
        f64::MAX,
        -f64::MAX,
        f64::MAX / 120.0,
        f64::INFINITY,
        f64::NEG_INFINITY,
        1.0 + f64::EPSILON,
        1.0 - f64::EPSILON / 2.0,
        9007199254740991.0,
        4503599627370497.0,
    ];
    for x in samples {
        for k in [1u8, 3, 7, 120, 255] {
            assert_eq!(
                d(x).times_small(k).to_bits(),
                (x * k as f64).to_bits(),
                "{x} * {k}"
            );
        }
    }
    assert!(f64::from_bits(d(f64::NAN).times_small(120).to_bits()).is_nan());
    let mut bits: u64 = 0x0123_4567_89ab_cdef;
    for _ in 0..2000 {
        bits ^= bits << 13;
        bits ^= bits >> 7;
        bits ^= bits << 17;
        let x = f64::from_bits(bits);
        if x.is_nan() {
            continue;
        }
        assert_eq!(d(x).times_small(120).to_bits(), (x * 120.0).to_bits(), "{x:e}");
    }
}

#[test]
fn hi_res_of_finger_scroll_rounds_the_product() {
    // 0.3 is slightly below three tenths; times 120 as doubles it rounds to 36 exactly.
    let ev = PointerEvent::ScrollFinger { vertical: Some(d(0.3)), horizontal: Some(d(0.3)) };
    assert_eq!(
        translate(&ev, &any_device()),
        vec![
            rel(REL_WHEEL, 0),
            rel(REL_WHEEL_HI_RES, -36),
            rel(REL_HWHEEL, 0),
            rel(REL_HWHEEL_HI_RES, 36),
        ]
    );
    let ev = PointerEvent::ScrollContinuous { vertical: Some(d(2e7)), horizontal: None };
    assert_eq!(
        translate(&ev, &any_device()),
        vec![rel(REL_WHEEL, -20000000), rel(REL_WHEEL_HI_RES, i32::MIN)]
    );
}

#[test]
fn sink_capabilities_are_contiguous_ranges() {
    let keys = sink_key_codes();
    assert_eq!(keys.len(), 63);
    assert_eq!(keys[0], 0x100);
    assert_eq!(*keys.last().unwrap(), 0x13e);
    assert!(keys.windows(2).all(|w| w[1] == w[0] + 1));
    assert_eq!(sink_relative_axes(), (0u16..=12).collect::<Vec<u16>>());
}

#[test]
fn device_config_errors_map_to_kinds() {
    assert!(matches!(Error::from(DeviceConfigError::Unsupported), Error::DeviceConfigUnsupported));
    assert!(matches!(Error::from(DeviceConfigError::Invalid), Error::DeviceConfigInvalid));
}

#[test]
fn route_decides_per_event() {
    let config = ponde::config::Config {
        devices: vec![
            Device::new(MatchRule { name: "cow".to_string() }),
            Device::new(MatchRule { name: "moo".to_string() }),
        ],
    };
    let moo = DeviceInfo::of_mouse("moo");
    assert_eq!(config.route(&moo, "ponde", EventKind::DeviceAdded), Action::ConfigureAndGrab(1));
    assert_eq!(config.route(&moo, "ponde", EventKind::Pointer), Action::Translate(1));
    assert_eq!(config.route(&moo, "ponde", EventKind::Other), Action::Unexpected(1));
    assert_eq!(config.route(&moo, "moo", EventKind::Pointer), Action::Ignore);
    let pig = DeviceInfo::of_mouse("pig");
    assert_eq!(config.route(&pig, "ponde", EventKind::Pointer), Action::Ignore);
    let pad = DeviceInfo { name: "moo".to_string(), pointer: true, gesture: true };
    assert_eq!(config.route(&pad, "ponde", EventKind::DeviceAdded), Action::Ignore);
}
