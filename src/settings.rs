//! The persisted settings aggregate.
use vstd::prelude::*;

verus! {

/// User settings that survive restarts.
#[derive(Clone, Debug)]
pub struct AppSettings {
    /// Key code that shows or hides the settings window.
    pub key_settings: u32,
    /// Keep the overlay out of screen captures.
    pub hide_overlay_from_screen_capture: bool,
    /// Show the diagnostic window of the overlay host.
    pub render_debug_window: bool,
    /// Draw the name, frame rate and read count in a corner of the overlay.
    pub valthrun_watermark: bool,
    /// Send usage records to the metrics sink.
    pub metrics: bool,
    /// Saved layout of the settings user interface, kept verbatim.
    pub imgui: Option<String>,
}

} // verus!
