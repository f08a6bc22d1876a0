//! # lamparray
//!
//! The verified core of a driver for **HID LampArray** devices, the open
//! lighting standard behind Microsoft "Dynamic Lighting" (HID usage page
//! `0x59`): colours, the byte layouts of the LampArray feature reports and of
//! the `hidraw` feature requests, recognising a LampArray device from its
//! report descriptor and `uevent` text, the state of an open device, and the
//! controls of the interactive lighting panel.
pub mod descriptor;
pub mod device;
pub mod hid;
pub mod ioctl;
pub mod rgb;
pub mod text;
pub mod ui;
pub mod wire;

pub use descriptor::{contains, parse_hid_id};
pub use device::{DeviceInfo, LampArray, MissingReport, Probe};
pub use hid::{
    Color, LampArrayAttributesReport, LampArrayControlReport, LampAttributeRequestReport,
    LampAttributeResposeReport, LampMultiUpdateReport, LampRangeUpdateReport, Report, UsageId,
};
pub use rgb::Rgb;
pub use wire::LeU16;
