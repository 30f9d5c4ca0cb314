//! The persisted state of the application, and what a session takes from it.

use vstd::prelude::*;
use crate::config::{DEFAULT_LOG_RETENTION, DEFAULT_STRENGTH};
use crate::overlay::SessionSettings;

verus! {

/// Whether presentation waits for the display's refresh unless the state
/// says otherwise.
pub fn default_vsync_enabled() -> (enabled: bool)
    ensures
        enabled,
{
    true
}

/// The cap on the frame rate unless the state says otherwise: none.
pub fn default_target_fps() -> (fps: Option<u32>)
    ensures
        fps is None,
{
    None
}

/// Whether the settings window opens at launch unless the state says
/// otherwise.
pub fn default_open_gui_on_launch() -> (open: bool)
    ensures
        open,
{
    true
}

/// The persisted state of the application.
#[derive(Clone, Debug)]
pub struct AppState {
    pub last_monitor: Option<usize>,
    pub spectrum_name: Option<String>,
    /// Blend strength in millionths.
    pub strength: i64,
    pub noise_texture: Option<String>,
    pub overlay_enabled: bool,
    pub run_at_startup: bool,
    pub start_overlay_on_launch: bool,
    pub keep_running_in_tray: bool,
    pub debug_overlay: bool,
    pub log_retention_count: usize,
    pub open_gui_on_launch: bool,
    pub show_advanced_settings: bool,
    pub last_overlay_enabled: bool,
    pub vsync_enabled: bool,
    /// Cap on the frame rate in thousandths of a frame per second.
    pub target_fps: Option<u32>,
}

impl Default for AppState {
    /// The state of a first launch.
    fn default() -> (state: Self)
        ensures
            state.last_monitor is None,
            state.spectrum_name is None,
            state.strength == DEFAULT_STRENGTH,
            state.noise_texture is None,
            !state.overlay_enabled,
            !state.run_at_startup,
            !state.start_overlay_on_launch,
            state.keep_running_in_tray,
            !state.debug_overlay,
            state.log_retention_count == DEFAULT_LOG_RETENTION,
            state.open_gui_on_launch,
            !state.show_advanced_settings,
            !state.last_overlay_enabled,
            state.vsync_enabled,
            state.target_fps is None,
    {
        AppState {
            last_monitor: None,
            spectrum_name: None,
            strength: DEFAULT_STRENGTH,
            noise_texture: None,
            overlay_enabled: false,
            run_at_startup: false,
            start_overlay_on_launch: false,
            keep_running_in_tray: true,
            debug_overlay: false,
            log_retention_count: DEFAULT_LOG_RETENTION,
            open_gui_on_launch: default_open_gui_on_launch(),
            show_advanced_settings: false,
            last_overlay_enabled: false,
            vsync_enabled: default_vsync_enabled(),
            target_fps: default_target_fps(),
        }
    }
}

impl AppState {
    /// What a session is started with under this state.
    pub fn session_settings(&self) -> (settings: SessionSettings)
        ensures
            settings.spectrum_name == self.spectrum_name,
            settings.noise_texture == self.noise_texture,
            settings.strength == self.strength,
            settings.last_monitor == self.last_monitor,
            settings.vsync_enabled == self.vsync_enabled,
            settings.target_fps == self.target_fps,
    {
        SessionSettings {
            spectrum_name: match &self.spectrum_name {
                Some(name) => Some(name.clone()),
                None => None,
            },
            noise_texture: match &self.noise_texture {
                Some(name) => Some(name.clone()),
                None => None,
            },
            strength: self.strength,
            last_monitor: self.last_monitor,
            vsync_enabled: self.vsync_enabled,
            target_fps: self.target_fps,
        }
    }

    /// Records that a session was started or stopped; nothing else changes.
    pub fn set_overlay_enabled(&mut self, enabled: bool)
        ensures
            *final(self) == (AppState {
                overlay_enabled: enabled,
                last_overlay_enabled: enabled,
                ..*old(self)
            }),
    {
        self.overlay_enabled = enabled;
        self.last_overlay_enabled = enabled;
    }
}

} // verus!
