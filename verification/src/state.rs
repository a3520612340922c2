//! Application state shared by the views: navigation, settings and the
//! current playlist.

use vstd::prelude::*;
use crate::types::{PlayState, PlaybackPosition, Track};

verus! {

/// The main navigation tabs.
#[derive(Debug, Clone, Copy, PartialEq, Eq, Structural)]
pub enum NavTab {
    Home,
    Playlist,
    Recent,
    Settings,
    About,
}

/// The tabs of the settings view.
#[derive(Debug, Clone, Copy, PartialEq, Eq, Structural)]
pub enum SettingsTab {
    General,
    Playback,
    Appearance,
    Associations,
    Updates,
}

/// The themes a user can pick in the settings.
#[derive(Debug, Clone, Copy, PartialEq, Eq, Structural)]
pub enum ThemeMode {
    Light,
    Dark,
    DeepNight,
}

/// User settings. The playback speed is the bit pattern of its `f32` value.
#[derive(Debug, Clone, Copy, PartialEq, Eq, Structural)]
pub struct AppSettings {
    pub start_with_windows: bool,
    pub remember_volume: bool,
    pub restore_last_playlist: bool,
    pub minimize_to_tray: bool,
    pub auto_check_updates: bool,
    pub playback_speed_bits: u32,
    pub buffer_size_ms: u32,
    pub crossfade_sec: u32,
    pub gapless_playback: bool,
    pub theme_mode: ThemeMode,
    pub animation_speed_ms: u32,
    pub rounded_corners: bool,
    pub enable_blur: bool,
    pub is_rtl: bool,
    pub file_associations_registered: bool,
}

/// The bit pattern of `1.0f32`.
pub const UNIT_SPEED_BITS: u32 = 0x3F80_0000;

/// The settings of a fresh installation: right-to-left layout for Hebrew
/// users, the dark theme, normal speed.
pub open spec fn default_settings() -> AppSettings {
    AppSettings {
        start_with_windows: false,
        remember_volume: true,
        restore_last_playlist: true,
        minimize_to_tray: false,
        auto_check_updates: true,
        playback_speed_bits: UNIT_SPEED_BITS,
        buffer_size_ms: 100,
        crossfade_sec: 2,
        gapless_playback: true,
        theme_mode: ThemeMode::Dark,
        animation_speed_ms: 150,
        rounded_corners: true,
        enable_blur: true,
        is_rtl: true,
        file_associations_registered: false,
    }
}

impl AppSettings {
    pub fn default() -> (s: Self)
        ensures
            s == default_settings(),
    {
        AppSettings {
            start_with_windows: false,
            remember_volume: true,
            restore_last_playlist: true,
            minimize_to_tray: false,
            auto_check_updates: true,
            playback_speed_bits: UNIT_SPEED_BITS,
            buffer_size_ms: 100,
            crossfade_sec: 2,
            gapless_playback: true,
            theme_mode: ThemeMode::Dark,
            animation_speed_ms: 150,
            rounded_corners: true,
            enable_blur: true,
            is_rtl: true,
            file_associations_registered: false,
        }
    }
}

/// The bit pattern of `0.85f32`, the volume of a fresh start.
pub const START_VOLUME_BITS: u32 = 0x3F59_999A;

/// What the interface shows and the user changes. The volume is the bit
/// pattern of its `f32` value (0 to 1).
#[derive(Debug)]
pub struct AppState {
    pub current_tab: NavTab,
    pub current_settings_tab: SettingsTab,
    pub current_track: Option<Track>,
    pub playlist: Vec<Track>,
    pub recent_tracks: Vec<Track>,
    pub play_state: PlayState,
    pub position: PlaybackPosition,
    pub volume_bits: u32,
    pub is_muted: bool,
    pub settings: AppSettings,
    pub status_text: String,
}

/// An [`AppState`] as plain values.
#[verifier::ext_equal]
pub struct AppStateView {
    pub current_tab: NavTab,
    pub current_settings_tab: SettingsTab,
    pub current_track: Option<Track>,
    pub playlist: Seq<Track>,
    pub recent_tracks: Seq<Track>,
    pub play_state: PlayState,
    pub position: PlaybackPosition,
    pub volume_bits: u32,
    pub is_muted: bool,
    pub settings: AppSettings,
    pub status_text: Seq<char>,
}

impl View for AppState {
    type V = AppStateView;

    open spec fn view(&self) -> AppStateView {
        AppStateView {
            current_tab: self.current_tab,
            current_settings_tab: self.current_settings_tab,
            current_track: self.current_track,
            playlist: self.playlist@,
            recent_tracks: self.recent_tracks@,
            play_state: self.play_state,
            position: self.position,
            volume_bits: self.volume_bits,
            is_muted: self.is_muted,
            settings: self.settings,
            status_text: self.status_text@,
        }
    }
}

/// The status line of a fresh start ("ready to play").
pub open spec fn ready_status() -> Seq<char> {
    "מוכן לנגינה"@
}

impl AppState {
    /// The state of a fresh start: the home tab, nothing loaded, stopped, at
    /// volume 0.85, default settings.
    pub fn default() -> (s: Self)
        ensures
            s@ == (AppStateView {
                current_tab: NavTab::Home,
                current_settings_tab: SettingsTab::General,
                current_track: None,
                playlist: Seq::empty(),
                recent_tracks: Seq::empty(),
                play_state: PlayState::Stopped,
                position: PlaybackPosition { current_ms: 0, total_ms: 0, progress_ratio_bits: 0 },
                volume_bits: START_VOLUME_BITS,
                is_muted: false,
                settings: default_settings(),
                status_text: ready_status(),
            }),
    {
        let s = AppState {
            current_tab: NavTab::Home,
            current_settings_tab: SettingsTab::General,
            current_track: None,
            playlist: Vec::new(),
            recent_tracks: Vec::new(),
            play_state: PlayState::Stopped,
            position: PlaybackPosition { current_ms: 0, total_ms: 0, progress_ratio_bits: 0 },
            volume_bits: START_VOLUME_BITS,
            is_muted: false,
            settings: AppSettings::default(),
            status_text: "מוכן לנגינה".to_owned(),
        };
        assert(s@ =~= AppStateView {
            current_tab: NavTab::Home,
            current_settings_tab: SettingsTab::General,
            current_track: None,
            playlist: Seq::empty(),
            recent_tracks: Seq::empty(),
            play_state: PlayState::Stopped,
            position: PlaybackPosition { current_ms: 0, total_ms: 0, progress_ratio_bits: 0 },
            volume_bits: START_VOLUME_BITS,
            is_muted: false,
            settings: default_settings(),
            status_text: ready_status(),
        });
        s
    }
}

} // verus!
