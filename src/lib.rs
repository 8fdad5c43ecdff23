//! A pointer-device remapper's core: which devices to capture, how their configuration
//! is pushed down, the map of open device nodes, and the translation of pointer events
//! into the evdev events of one virtual pointer.
pub mod button;
pub mod config;
pub mod device_fd;
pub mod device_info;
pub mod double;
pub mod errors;
pub mod event_route;
pub mod scroll_factor;
pub mod sink_device;
pub mod sink_event;
