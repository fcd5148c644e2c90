//! Windows screen capturer: frames to H264 NAL units, and its live settings.

pub mod display;
pub mod encoder;
pub mod publisher;

pub use crate::capture::{DisplayInfo, Nal};
pub use display::list_displays;
pub use publisher::{
    active_display_id, bitrate_kbps, fps, resolution, select_display, set_bitrate_kbps, set_fps,
    set_resolution, start, stop,
};
