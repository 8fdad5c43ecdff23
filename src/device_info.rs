use vstd::prelude::*;

verus! {

/// What the remapper knows of an input device: its name and two capabilities.
#[derive(Debug, PartialEq, Eq)]
pub struct DeviceInfo {
    pub name: String,
    pub pointer: bool,
    pub gesture: bool,
}

impl DeviceInfo {
    /// A device is a mouse when it points and does not recognise gestures
    /// (which rules out touchpads).
    pub open spec fn is_mouse_spec(&self) -> bool {
        self.pointer && !self.gesture
    }

    /// The description of a mouse with the given name.
    pub fn of_mouse(name: &str) -> (r: DeviceInfo)
        ensures
            r.name@ == name@,
            r.pointer,
            !r.gesture,
    {
        DeviceInfo { name: name.to_owned(), pointer: true, gesture: false }
    }

    pub fn is_mouse(&self) -> (r: bool)
        ensures
            r == self.is_mouse_spec(),
    {
        self.pointer && !self.gesture
    }
}

/// Selects the devices that a configuration entry applies to.
#[derive(Debug, PartialEq, Eq)]
pub struct MatchRule {
    pub name: String,
}

impl MatchRule {
    pub open spec fn matches_spec(&self, info: &DeviceInfo) -> bool {
        info.is_mouse_spec() && info.name@ == self.name@
    }

    /// A rule matches a mouse whose name equals the rule's name exactly.
    pub fn matches(&self, device_info: &DeviceInfo) -> (r: bool)
        ensures
            r == self.matches_spec(device_info),
    {
        device_info.is_mouse() && device_info.name == self.name
    }
}

/// A rule matches a device exactly when the device is a mouse that bears the rule's name.
pub proof fn lemma_match_rule_exact(r: MatchRule, d: DeviceInfo)
    ensures
        r.matches_spec(&d) <==> (d.pointer && !d.gesture && d.name@ == r.name@),
{
}

} // verus!
