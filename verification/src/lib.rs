//! Verified core of a Lian Li fan, RGB and LCD device toolkit: TURZX panel
//! packet framing, USB and HID device discovery and identities, device
//! models, sensor discovery from kernel text files and helper programs,
//! default sensor selection, retry and streaming policies, live encoder
//! parameters and arguments, custom widget fonts and sensors, and the RGB,
//! fan and LCD configuration edits of the GUI.
//!
//! Reading files, running programs and talking to devices is left to the
//! caller, which hands the texts and listings over as plain values.

pub mod backends;
pub mod binding;
pub mod desktop_display;
pub mod detect;
pub mod ene6k77;
pub mod gpu_names;
pub mod gui_fan;
pub mod gui_lcd;
pub mod gui_rgb;
pub mod hid_detect;
pub mod hydroshift_lcd;
pub mod live_encoder;
pub mod sensor_list;
pub mod sensors;
pub mod seq_facts;
pub mod service;
pub mod sysfs;
pub mod text;
pub mod tl_fan;
pub mod turzx;
pub mod value_format;
pub mod widgets;
