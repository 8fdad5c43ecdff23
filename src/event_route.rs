use crate::config::Config;
use crate::device_fd::{find_by_name, DeviceFdMap};
use crate::device_info::DeviceInfo;
use crate::errors::Error;
use vstd::prelude::*;

verus! {

/// The kind of an event that the input library delivers.
#[derive(Clone, Copy, Debug, PartialEq, Eq, Structural)]
pub enum EventKind {
    DeviceAdded,
    Pointer,
    Other,
}

/// What the event loop does with one event.
#[derive(Clone, Copy, Debug, PartialEq, Eq, Structural)]
pub enum Action {
    /// The device is not configured, or it is the sink itself.
    Ignore,
    /// Apply the device configuration at this index, then grab the device.
    ConfigureAndGrab(usize),
    /// Translate the pointer event under the device configuration at this index.
    Translate(usize),
    /// An event of a configured device that the loop does not handle.
    Unexpected(usize),
}

/// Whether `i` is the position of the first device configuration that accepts `info`.
pub open spec fn is_first_match(config: &Config, info: &DeviceInfo, i: int) -> bool {
    0 <= i < config.devices@.len() && config.devices@[i].match_rule.matches_spec(info) && forall|
        j: int,
    |
        0 <= j < i ==> !#[trigger] config.devices@[j].match_rule.matches_spec(info)
}

pub open spec fn no_match(config: &Config, info: &DeviceInfo) -> bool {
    forall|i: int|
        0 <= i < config.devices@.len() ==> !#[trigger] config.devices@[i].match_rule.matches_spec(
            info,
        )
}

impl Config {
    /// Decides what the event loop does with an event of kind `kind` from the device
    /// `device_info`: events of unconfigured devices and of the sink (named `sink_name`)
    /// are ignored; a configured device that is added is configured and grabbed; its
    /// pointer events are translated; any other event of it is unexpected.
    pub fn route(&self, device_info: &DeviceInfo, sink_name: &str, kind: EventKind) -> (r: Action)
        ensures
            (no_match(self, device_info) || device_info.name@ == sink_name@) ==> r is Ignore,
            !(no_match(self, device_info) || device_info.name@ == sink_name@) ==> match r {
                Action::ConfigureAndGrab(i) => kind is DeviceAdded && is_first_match(
                    self,
                    device_info,
                    i as int,
                ),
                Action::Translate(i) => kind is Pointer && is_first_match(
                    self,
                    device_info,
                    i as int,
                ),
                Action::Unexpected(i) => kind is Other && is_first_match(
                    self,
                    device_info,
                    i as int,
                ),
                Action::Ignore => false,
            },
    {
        let i = match self.matched_index(device_info) {
            Some(i) => i,
            None => {
                return Action::Ignore;
            },
        };
        let sink = sink_name.to_owned();
        if device_info.name == sink {
            return Action::Ignore;
        }
        match kind {
            EventKind::DeviceAdded => Action::ConfigureAndGrab(i),
            EventKind::Pointer => Action::Translate(i),
            EventKind::Other => Action::Unexpected(i),
        }
    }
}

/// The text of the error for a device whose node is not open.
pub open spec fn missing_fd_message(sysname: Seq<char>, name: Seq<char>) -> Seq<char> {
    "failed to get device_fd of "@ + sysname + " ("@ + name + ")"@
}

/// The file descriptor to grab for the device whose node is named `sysname`; a device
/// whose node is not in `map` is an error that names it.
pub fn grab_target(map: &DeviceFdMap, sysname: &str, name: &str) -> (r: Result<i32, Error>)
    requires
        map.wf(),
    ensures
        match r {
            Ok(fd) => find_by_name(map@, sysname@) is Some && find_by_name(map@, sysname@)->0.fd
                == fd,
            Err(e) => find_by_name(map@, sysname@) is None && (match e {
                Error::Message(m) => m@ == missing_fd_message(sysname@, name@),
                _ => false,
            }),
        },
{
    match map.get_by_name(sysname) {
        Some(d) => Ok(d.raw_fd()),
        None => {
            let m = "failed to get device_fd of ".to_owned();
            let m = m.concat(sysname);
            let m = m.concat(" (");
            let m = m.concat(name);
            let m = m.concat(")");
            Err(Error::Message(m))
        },
    }
}

} // verus!
