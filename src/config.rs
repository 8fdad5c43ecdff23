use crate::button::Button;
use crate::device_info::{DeviceInfo, MatchRule};
use crate::double::Double;
use crate::scroll_factor::ScrollFactorPair;
use std::collections::HashMap;
use vstd::prelude::*;

verus! {

/// Pointer acceleration profile.
#[derive(Clone, Copy, Debug, PartialEq, Eq, Structural)]
pub enum AccelProfile {
    Adaptive,
    Flat,
}

/// One option that is pushed down to a live device, in the order it is applied.
#[derive(Clone, Copy, Debug, PartialEq, Eq, Structural)]
pub enum Setting {
    AccelProfile(AccelProfile),
    AccelSpeed(Double),
    LeftHanded(bool),
    MiddleEmulation(bool),
    NaturalScrolling(bool),
    RotationAngle(u32),
    ScrollButton(u32),
    ScrollMethodOnButtonDown,
    ScrollButtonLock(bool),
}

/// Configuration of the devices that one match rule selects. Every `None` leaves the
/// device's own default in place.
#[derive(Debug)]
pub struct Device {
    pub match_rule: MatchRule,
    pub accel_profile: Option<AccelProfile>,
    pub accel_speed: Option<Double>,
    /// Logical button mapping, from the code of the pressed button to the code sent.
    pub button_mapping: HashMap<u16, u16>,
    pub left_handed: Option<bool>,
    pub middle_emulation: Option<bool>,
    pub natural_scrolling: Option<bool>,
    pub rotation_angle: Option<u32>,
    pub scroll_button: Option<Button>,
    pub scroll_button_lock: Option<bool>,
    pub wheel_scroll_factor: ScrollFactorPair,
    pub motion_scroll_factor: ScrollFactorPair,
}

/// The setting in `o`, as a sequence of zero or one.
pub open spec fn seq_of(o: Option<Setting>) -> Seq<Setting> {
    match o {
        Some(x) => seq![x],
        None => seq![],
    }
}

fn push_opt(v: &mut Vec<Setting>, o: Option<Setting>)
    ensures
        final(v)@ == old(v)@ + seq_of(o),
{
    if let Some(x) = o {
        v.push(x);
    }
    assert(v@ =~= old(v)@ + seq_of(o));
}

impl Device {
    /// The code that a press of the button with code `code` is sent as.
    pub open spec fn mapped_code(&self, code: u16) -> u16 {
        if self.button_mapping@.contains_key(code) {
            self.button_mapping@[code]
        } else {
            code
        }
    }

    pub open spec fn accel_profile_setting(&self) -> Seq<Setting> {
        seq_of(
            match self.accel_profile {
                Some(x) => Some(Setting::AccelProfile(x)),
                None => None,
            },
        )
    }

    pub open spec fn accel_speed_setting(&self) -> Seq<Setting> {
        seq_of(
            match self.accel_speed {
                Some(x) => Some(Setting::AccelSpeed(x)),
                None => None,
            },
        )
    }

    pub open spec fn left_handed_setting(&self) -> Seq<Setting> {
        seq_of(
            match self.left_handed {
                Some(x) => Some(Setting::LeftHanded(x)),
                None => None,
            },
        )
    }

    pub open spec fn middle_emulation_setting(&self) -> Seq<Setting> {
        seq_of(
            match self.middle_emulation {
                Some(x) => Some(Setting::MiddleEmulation(x)),
                None => None,
            },
        )
    }

    pub open spec fn natural_scrolling_setting(&self) -> Seq<Setting> {
        seq_of(
            match self.natural_scrolling {
                Some(x) => Some(Setting::NaturalScrolling(x)),
                None => None,
            },
        )
    }

    pub open spec fn rotation_angle_setting(&self) -> Seq<Setting> {
        seq_of(
            match self.rotation_angle {
                Some(x) => Some(Setting::RotationAngle(x)),
                None => None,
            },
        )
    }

    pub open spec fn scroll_button_lock_setting(&self) -> Seq<Setting> {
        seq_of(
            match self.scroll_button_lock {
                Some(x) => Some(Setting::ScrollButtonLock(x)),
                None => None,
            },
        )
    }

    pub open spec fn scroll_button_setting(&self) -> Seq<Setting> {
        seq_of(
            match self.scroll_button {
                Some(b) => Some(Setting::ScrollButton(b.code as u32)),
                None => None,
            },
        )
    }

    pub open spec fn scroll_method_setting(&self) -> Seq<Setting> {
        seq_of(
            match self.scroll_button {
                Some(_) => Some(Setting::ScrollMethodOnButtonDown),
                None => None,
            },
        )
    }

    /// The options to push down to a live device, in order. A scroll button also
    /// switches the scroll method to scrolling while that button is down.
    pub open spec fn settings_spec(&self) -> Seq<Setting> {
        self.accel_profile_setting() + self.accel_speed_setting() + self.left_handed_setting()
            + self.middle_emulation_setting() + self.natural_scrolling_setting()
            + self.rotation_angle_setting() + self.scroll_button_setting()
            + self.scroll_method_setting() + self.scroll_button_lock_setting()
    }

    /// A configuration for the devices that `match_rule` selects, with every option unset.
    pub fn new(match_rule: MatchRule) -> (r: Device)
        ensures
            r.match_rule == match_rule,
            r.accel_profile is None,
            r.accel_speed is None,
            r.button_mapping@ == Map::<u16, u16>::empty(),
            r.left_handed is None,
            r.middle_emulation is None,
            r.natural_scrolling is None,
            r.rotation_angle is None,
            r.scroll_button is None,
            r.scroll_button_lock is None,
            r.wheel_scroll_factor.vertical.view().bits == crate::double::ONE_BITS,
            r.wheel_scroll_factor.horizontal.view().bits == crate::double::ONE_BITS,
            r.motion_scroll_factor.vertical.view().bits == crate::double::ONE_BITS,
            r.motion_scroll_factor.horizontal.view().bits == crate::double::ONE_BITS,
    {
        broadcast use vstd::std_specs::hash::group_hash_axioms;

        Device {
            match_rule,
            accel_profile: None,
            accel_speed: None,
            button_mapping: HashMap::new(),
            left_handed: None,
            middle_emulation: None,
            natural_scrolling: None,
            rotation_angle: None,
            scroll_button: None,
            scroll_button_lock: None,
            wheel_scroll_factor: ScrollFactorPair::default(),
            motion_scroll_factor: ScrollFactorPair::default(),
        }
    }

    /// Maps a source button through `button_mapping`; an unmapped button stays as it is.
    pub fn map_button(&self, button: Button) -> (r: Button)
        ensures
            r.code == self.mapped_code(button.code),
    {
        broadcast use vstd::std_specs::hash::group_hash_axioms;

        match self.button_mapping.get(&button.code) {
            Some(c) => Button { code: *c },
            None => button,
        }
    }

    pub fn matches(&self, device_info: &DeviceInfo) -> (r: bool)
        ensures
            r == self.match_rule.matches_spec(device_info),
    {
        self.match_rule.matches(device_info)
    }

    /// The options that applying this configuration pushes down to a device, in order.
    pub fn settings(&self) -> (r: Vec<Setting>)
        ensures
            r@ == self.settings_spec(),
    {
        let mut v: Vec<Setting> = Vec::new();
        push_opt(
            &mut v,
            match self.accel_profile {
                Some(x) => Some(Setting::AccelProfile(x)),
                None => None,
            },
        );
        assert(v@ =~= self.accel_profile_setting());
        push_opt(
            &mut v,
            match self.accel_speed {
                Some(x) => Some(Setting::AccelSpeed(x)),
                None => None,
            },
        );
        push_opt(
            &mut v,
            match self.left_handed {
                Some(x) => Some(Setting::LeftHanded(x)),
                None => None,
            },
        );
        push_opt(
            &mut v,
            match self.middle_emulation {
                Some(x) => Some(Setting::MiddleEmulation(x)),
                None => None,
            },
        );
        push_opt(
            &mut v,
            match self.natural_scrolling {
                Some(x) => Some(Setting::NaturalScrolling(x)),
                None => None,
            },
        );
        push_opt(
            &mut v,
            match self.rotation_angle {
                Some(x) => Some(Setting::RotationAngle(x)),
                None => None,
            },
        );
        push_opt(
            &mut v,
            match self.scroll_button {
                Some(b) => Some(Setting::ScrollButton(b.code as u32)),
                None => None,
            },
        );
        push_opt(
            &mut v,
            match self.scroll_button {
                Some(_) => Some(Setting::ScrollMethodOnButtonDown),
                None => None,
            },
        );
        push_opt(
            &mut v,
            match self.scroll_button_lock {
                Some(x) => Some(Setting::ScrollButtonLock(x)),
                None => None,
            },
        );
        v
    }
}

/// Whether `speed` is an acceleration speed a device can take: a number from -1 to 1.
pub fn accel_speed_in_range(speed: Double) -> (r: bool)
    ensures
        r == speed.within_unit_spec(),
{
    speed.within_unit()
}

/// Whether `angle` is a rotation in degrees from 0 up to, but not including, 360.
pub fn rotation_angle_in_range(angle: u32) -> (r: bool)
    ensures
        r == (angle < 360),
{
    angle < 360
}

/// The whole configuration: one entry per selected set of devices.
#[derive(Debug)]
pub struct Config {
    pub devices: Vec<Device>,
}

impl Config {
    /// The first device configuration whose match rule accepts `device_info`.
    pub fn matched_device(&self, device_info: &DeviceInfo) -> (r: Option<&Device>)
        ensures
            match r {
                Some(d) => exists|i: int|
                    0 <= i < self.devices@.len() && self.devices@[i] == *d
                        && self.devices@[i].match_rule.matches_spec(device_info) && forall|j: int|
                        0 <= j < i ==> !#[trigger] self.devices@[j].match_rule.matches_spec(
                            device_info,
                        ),
                None => forall|i: int|
                    0 <= i < self.devices@.len() ==> !#[trigger] self.devices@[i].match_rule.matches_spec(
                        device_info,
                    ),
            },
    {
        match self.matched_index(device_info) {
            Some(i) => Some(&self.devices[i]),
            None => None,
        }
    }

    /// Position of the first device configuration whose match rule accepts `device_info`.
    pub fn matched_index(&self, device_info: &DeviceInfo) -> (r: Option<usize>)
        ensures
            match r {
                Some(i) => i < self.devices@.len() && self.devices@[i as int].match_rule.matches_spec(
                    device_info,
                ) && forall|j: int|
                    0 <= j < i ==> !#[trigger] self.devices@[j].match_rule.matches_spec(device_info),
                None => forall|i: int|
                    0 <= i < self.devices@.len() ==> !#[trigger] self.devices@[i].match_rule.matches_spec(
                        device_info,
                    ),
            },
    {
        let mut i: usize = 0;
        while i < self.devices.len()
            invariant
                i <= self.devices@.len(),
                forall|j: int|
                    0 <= j < i ==> !#[trigger] self.devices@[j].match_rule.matches_spec(device_info),
            decreases self.devices@.len() - i,
        {
            if self.devices[i].matches(device_info) {
                return Some(i);
            }
            i = i + 1;
        }
        None
    }
}

} // verus!
