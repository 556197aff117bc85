//! Collection daemon core for an Arexx USB temperature concentrator: the wire
//! codec, the calibration table, endpoint discovery, the hotplug-driven device
//! session and the polling engine.

pub mod timestamp;
pub mod protocol;
pub mod config;
pub mod calibration;
pub mod arexx;
pub mod usb;
pub mod sink;
