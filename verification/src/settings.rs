use vstd::prelude::*;

verus! {

/// Colour theme of the interface.
#[derive(Debug, Clone, Copy, PartialEq, Eq)]
pub enum ThemeMode {
    System,
    Dark,
    Light,
}

impl Default for ThemeMode {
    fn default() -> (t: Self)
        ensures
            t == ThemeMode::System,
    {
        ThemeMode::System
    }
}

/// Application-wide settings.
#[derive(Debug, Clone, Copy, PartialEq, Eq)]
pub struct AppSettings {
    pub theme: ThemeMode,
    /// Restore the sessions open at the last exit on start-up (on by default).
    pub auto_restore_last_session: bool,
    /// Maximum automatic reconnect attempts (5 by default).
    pub max_reconnect_attempts: u32,
    /// Interval between staggered restores, in milliseconds (250 by default).
    pub staggered_restore_interval_ms: u64,
    pub enable_gpu_acceleration: bool,
    /// Whether closing the main window minimises it to the tray.
    pub minimize_to_tray_on_close: bool,
}

pub open spec fn default_settings() -> AppSettings {
    AppSettings {
        theme: ThemeMode::System,
        auto_restore_last_session: true,
        max_reconnect_attempts: 5,
        staggered_restore_interval_ms: 250,
        enable_gpu_acceleration: true,
        minimize_to_tray_on_close: false,
    }
}

impl Default for AppSettings {
    fn default() -> (s: Self)
        ensures
            s == default_settings(),
    {
        AppSettings {
            theme: ThemeMode::System,
            auto_restore_last_session: true,
            max_reconnect_attempts: 5,
            staggered_restore_interval_ms: 250,
            enable_gpu_acceleration: true,
            minimize_to_tray_on_close: false,
        }
    }
}

} // verus!
