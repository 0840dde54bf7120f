//! What a stylus pressure sample says about the device it came from.
//!
//! The windowing toolkit reports each pointer device with a source kind and an optional
//! name; the pressure value itself and the time stamp are the shell's business.

use crate::text::{append_chars, push_str_chars, signed_decimal, signed_decimal_chars, string_from_chars};
use vstd::prelude::*;

verus! {

/// The kind of pointer device that produced an event.
#[derive(Clone, Copy, Debug, PartialEq, Eq)]
pub enum DeviceSource {
    Mouse,
    Pen,
    Eraser,
    Cursor,
    Keyboard,
    Touchscreen,
    Touchpad,
    Trackpoint,
    TabletPad,
    /// A raw source code the toolkit has no name for.
    Unknown(i32),
    /// A source kind added to the toolkit after this library was written.
    Unrecognized,
}

/// A pointer device as an event reports it.
#[derive(Clone, Debug)]
pub struct PressureDevice {
    pub source: DeviceSource,
    pub name: Option<String>,
}

/// The device part of a pressure sample sent to the web view.
#[derive(Clone, Debug)]
pub struct PressureSampleSource {
    pub source: String,
    pub device_name: Option<String>,
    pub is_stylus_like: bool,
}

/// The label of a device source.
pub open spec fn source_label(source: DeviceSource) -> Seq<char> {
    match source {
        DeviceSource::Mouse => "Mouse"@,
        DeviceSource::Pen => "Pen"@,
        DeviceSource::Eraser => "Eraser"@,
        DeviceSource::Cursor => "Cursor"@,
        DeviceSource::Keyboard => "Keyboard"@,
        DeviceSource::Touchscreen => "Touchscreen"@,
        DeviceSource::Touchpad => "Touchpad"@,
        DeviceSource::Trackpoint => "Trackpoint"@,
        DeviceSource::TabletPad => "TabletPad"@,
        DeviceSource::Unknown(code) => "Unknown("@ + signed_decimal(code as int) + ")"@,
        DeviceSource::Unrecognized => "Unknown"@,
    }
}

/// Whether a device source is a pen, an eraser or a tablet cursor.
pub open spec fn is_stylus_source(source: DeviceSource) -> bool {
    source is Pen || source is Eraser || source is Cursor
}

/// The label of a device source: its name, or `Unknown(<code>)` for a raw code.
pub fn device_source_label(source: DeviceSource) -> (label: String)
    ensures
        label@ == source_label(source),
{
    match source {
        DeviceSource::Mouse => "Mouse".to_string(),
        DeviceSource::Pen => "Pen".to_string(),
        DeviceSource::Eraser => "Eraser".to_string(),
        DeviceSource::Cursor => "Cursor".to_string(),
        DeviceSource::Keyboard => "Keyboard".to_string(),
        DeviceSource::Touchscreen => "Touchscreen".to_string(),
        DeviceSource::Touchpad => "Touchpad".to_string(),
        DeviceSource::Trackpoint => "Trackpoint".to_string(),
        DeviceSource::TabletPad => "TabletPad".to_string(),
        DeviceSource::Unknown(code) => {
            let mut v: Vec<char> = Vec::new();
            push_str_chars(&mut v, "Unknown(");
            let digits = signed_decimal_chars(code);
            append_chars(&mut v, &digits);
            push_str_chars(&mut v, ")");
            assert(v@ == source_label(source));
            string_from_chars(&v)
        },
        DeviceSource::Unrecognized => "Unknown".to_string(),
    }
}

/// Whether a device is stylus-like: a pen, an eraser or a tablet cursor.
pub fn device_is_stylus_like(source: DeviceSource) -> (b: bool)
    ensures
        b == is_stylus_source(source),
{
    match source {
        DeviceSource::Pen | DeviceSource::Eraser | DeviceSource::Cursor => true,
        _ => false,
    }
}

/// The device part of a pressure sample: the device's source label, name and whether it
/// is stylus-like, or `Unknown`, no name and not stylus-like when the event names no
/// device.
pub fn pressure_sample_source(device: Option<PressureDevice>) -> (s: PressureSampleSource)
    ensures
        match device {
            Some(d) => s.source@ == source_label(d.source) && s.device_name == d.name
                && s.is_stylus_like == is_stylus_source(d.source),
            None => s.source@ == "Unknown"@ && s.device_name is None && !s.is_stylus_like,
        },
{
    match device {
        Some(d) => PressureSampleSource {
            source: device_source_label(d.source),
            device_name: d.name,
            is_stylus_like: device_is_stylus_like(d.source),
        },
        None => PressureSampleSource {
            source: "Unknown".to_string(),
            device_name: None,
            is_stylus_like: false,
        },
    }
}

/// The device part of the sample sent when the pointer leaves the view: source `Leave`,
/// no device name, not stylus-like.
pub fn leave_sample_source() -> (s: PressureSampleSource)
    ensures
        s.source@ == "Leave"@,
        s.device_name is None,
        !s.is_stylus_like,
{
    PressureSampleSource { source: "Leave".to_string(), device_name: None, is_stylus_like: false }
}

} // verus!
