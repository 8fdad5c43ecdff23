use serde_yaml::Error as YamlError;
use std::io::Error as IoError;
use vstd::prelude::*;

verus! {

#[verifier::external_type_specification]
#[verifier::external_body]
pub struct ExIoError(IoError);

#[verifier::external_type_specification]
#[verifier::external_body]
pub struct ExYamlError(YamlError);

/// Why a live device refused a configuration option.
#[derive(Clone, Copy, Debug, PartialEq, Eq, Structural)]
pub enum DeviceConfigError {
    Unsupported,
    Invalid,
}

/// Every failure the remapper reports.
#[derive(Debug)]
pub enum Error {
    /// A system call or a library's I/O failed.
    Io(IoError),
    /// The configuration file could not be read as YAML of the expected shape.
    Yaml(YamlError),
    /// A device does not support a requested option.
    DeviceConfigUnsupported,
    /// A device refused a requested option's value.
    DeviceConfigInvalid,
    /// Any other violation, described in words.
    Message(String),
}

impl From<DeviceConfigError> for Error {
    fn from(value: DeviceConfigError) -> (r: Error)
        ensures
            value is Unsupported ==> r is DeviceConfigUnsupported,
            value is Invalid ==> r is DeviceConfigInvalid,
    {
        match value {
            DeviceConfigError::Unsupported => Error::DeviceConfigUnsupported,
            DeviceConfigError::Invalid => Error::DeviceConfigInvalid,
        }
    }
}

impl vstd::std_specs::convert::FromSpecImpl<DeviceConfigError> for Error {
    open spec fn obeys_from_spec() -> bool {
        true
    }

    open spec fn from_spec(v: DeviceConfigError) -> Error {
        match v {
            DeviceConfigError::Unsupported => Error::DeviceConfigUnsupported,
            DeviceConfigError::Invalid => Error::DeviceConfigInvalid,
        }
    }
}

} // verus!
