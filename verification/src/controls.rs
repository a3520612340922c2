//! What the interface does when the user clicks, presses a key or the engine
//! reports something. Each interaction changes the interface state and
//! answers with the effects the caller carries out: commands to the engine,
//! notifications on screen and saving the settings.

use vstd::prelude::*;
use crate::bidi::{bidi, bidi_text, BiDiEngine, LayoutDirection};
use crate::duration_text::{decimal, digit_char, push_decimal};
use crate::engine::PlayerCommand;
use crate::playlist::{enqueue_opened_track, load_notice, loaded_notice, playlist_after, recent_after};
use crate::state::{AppSettings, AppState, AppStateView, NavTab, SettingsTab, ThemeMode as SettingsTheme};
use crate::theme::{DesignSystem, ThemeMode};
use crate::text::{push_char, str_eq};
use crate::types::{PlayState, PlayerEvent, Track};

verus! {

/// Something the caller does after an interaction.
#[derive(Debug)]
pub enum UiEffect {
    /// Send the command to the playback engine.
    Send(PlayerCommand),
    /// Show the message as a notification.
    Notify(String),
    /// Write the settings to their file.
    SaveConfig,
}

/// `e` shows the notification `msg`.
pub open spec fn notifies(e: UiEffect, msg: Seq<char>) -> bool {
    e matches UiEffect::Notify(m) && m@ == msg
}

/// `e` asks the engine to load the file at `path`.
pub open spec fn sends_load(e: UiEffect, path: Seq<char>) -> bool {
    e matches UiEffect::Send(PlayerCommand::LoadTrack(p)) && p@ == path
}

/// `e` tells the engine to mute (`muted`) or unmute.
pub open spec fn sends_mute(e: UiEffect, muted: bool) -> bool {
    e matches UiEffect::Send(PlayerCommand::SetMute(m)) && m == muted
}

fn notify(msg: &str) -> (e: UiEffect)
    ensures
        notifies(e, msg@),
{
    UiEffect::Notify(msg.to_owned())
}

fn notify_owned(msg: String) -> (e: UiEffect)
    ensures
        notifies(e, msg@),
{
    UiEffect::Notify(msg)
}

/// `prefix` followed by `rest`.
fn joined(prefix: &str, rest: &str) -> (s: String)
    ensures
        s@ == prefix@ + rest@,
{
    let mut s = prefix.to_owned();
    s.append(rest);
    s
}

/// The state after switching the interface language.
pub open spec fn language_toggled(v: AppStateView) -> AppStateView {
    AppStateView { settings: AppSettings { is_rtl: !v.settings.is_rtl, ..v.settings }, ..v }
}

/// The state after the mute button.
pub open spec fn mute_toggled(v: AppStateView) -> AppStateView {
    AppStateView { is_muted: !v.is_muted, ..v }
}

/// The state after the play/pause button: a playing track pauses, anything
/// else plays.
pub open spec fn play_pause_toggled(v: AppStateView) -> AppStateView {
    AppStateView {
        play_state: if v.play_state == PlayState::Playing {
            PlayState::Paused
        } else {
            PlayState::Playing
        },
        ..v
    }
}

/// The state with the file types recorded as registered or not.
pub open spec fn with_registration(v: AppStateView, registered: bool) -> AppStateView {
    AppStateView { settings: AppSettings { file_associations_registered: registered, ..v.settings }, ..v }
}

impl AppState {
    /// Shows the main tab `tab` (the sidebar, the header's buttons).
    pub fn select_tab(&mut self, tab: NavTab)
        ensures
            final(self)@ == (AppStateView { current_tab: tab, ..old(self)@ }),
    {
        self.current_tab = tab;
    }

    /// Shows the settings tab `tab`.
    pub fn select_settings_tab(&mut self, tab: SettingsTab)
        ensures
            final(self)@ == (AppStateView { current_settings_tab: tab, ..old(self)@ }),
    {
        self.current_settings_tab = tab;
    }

    /// The layout engine for the current interface language.
    pub fn layout_engine(&self) -> (e: BiDiEngine)
        ensures
            e.spec_direction() == (if self.settings.is_rtl {
                LayoutDirection::Rtl
            } else {
                LayoutDirection::Ltr
            }),
    {
        BiDiEngine::new(
            if self.settings.is_rtl {
                LayoutDirection::Rtl
            } else {
                LayoutDirection::Ltr
            },
        )
    }

    /// Switches between the Hebrew (right-to-left) and the English interface
    /// and saves the settings.
    pub fn toggle_language(&mut self) -> (effects: Vec<UiEffect>)
        ensures
            final(self)@ == language_toggled(old(self)@),
            effects@.len() == 1,
            effects@[0] is SaveConfig,
    {
        self.settings.is_rtl = !self.settings.is_rtl;
        vec![UiEffect::SaveConfig]
    }

    /// Empties the playlist.
    pub fn clear_playlist(&mut self) -> (effects: Vec<UiEffect>)
        ensures
            final(self)@ == (AppStateView { playlist: Seq::empty(), ..old(self)@ }),
            effects@.len() == 1,
            notifies(effects@[0], "Playlist cleared"@),
    {
        self.playlist = Vec::new();
        vec![notify("Playlist cleared")]
    }

    /// Removes the playlist entry at `index`.
    pub fn remove_from_playlist(&mut self, index: usize) -> (effects: Vec<UiEffect>)
        requires
            index < old(self).playlist@.len(),
        ensures
            final(self)@ == (AppStateView { playlist: old(self)@.playlist.remove(index as int), ..old(self)@ }),
            effects@.len() == 1,
            notifies(effects@[0], "Track removed from playlist"@),
    {
        self.playlist.remove(index);
        vec![notify("Track removed from playlist")]
    }

    /// Empties the recently played list.
    pub fn clear_recent(&mut self) -> (effects: Vec<UiEffect>)
        ensures
            final(self)@ == (AppStateView { recent_tracks: Seq::empty(), ..old(self)@ }),
            effects@.len() == 1,
            notifies(effects@[0], "Recent history cleared"@),
    {
        self.recent_tracks = Vec::new();
        vec![notify("Recent history cleared")]
    }

    /// Plays `track`, chosen from the playlist or the recent list: it becomes
    /// the current track and the engine loads its file.
    pub fn play_track(&mut self, track: Track) -> (effects: Vec<UiEffect>)
        ensures
            final(self)@ == (AppStateView { current_track: Some(track), ..old(self)@ }),
            effects@.len() == 2,
            sends_load(effects@[0], track.file_path@),
            notifies(effects@[1], "Playback Started"@),
    {
        let path = track.file_path.clone();
        self.current_track = Some(track);
        vec![UiEffect::Send(PlayerCommand::LoadTrack(path)), notify("Playback Started")]
    }

    /// Opens a local file the user picked or dropped (see
    /// [`enqueue_opened_track`]): the engine loads it and a notice in the
    /// interface language confirms it.
    pub fn open_file(&mut self, track: Track) -> (effects: Vec<UiEffect>)
        ensures
            final(self)@ == (AppStateView {
                current_track: Some(track),
                playlist: playlist_after(old(self)@.playlist, track),
                recent_tracks: recent_after(old(self)@.recent_tracks, track),
                ..old(self)@
            }),
            effects@.len() == 2,
            sends_load(effects@[0], track.file_path@),
            notifies(effects@[1], loaded_notice(old(self).settings.is_rtl)),
    {
        let path = track.file_path.clone();
        enqueue_opened_track(&mut self.current_track, &mut self.playlist, &mut self.recent_tracks, track);
        vec![UiEffect::Send(PlayerCommand::LoadTrack(path)), notify(load_notice(self.settings.is_rtl))]
    }

    /// Whether `track` is the one playing (the same file).
    pub fn is_current(&self, track: &Track) -> (b: bool)
        ensures
            b == (self.current_track matches Some(c) && c.file_path@ == track.file_path@),
    {
        match &self.current_track {
            Some(c) => str_eq(c.file_path.as_str(), track.file_path.as_str()),
            None => false,
        }
    }
}

/// Whether a click on a playlist row plays its track: a double click does,
/// a single click does unless the row is the current track.
pub fn row_click_plays(is_current: bool, clicked: bool, double_clicked: bool) -> (b: bool)
    ensures
        b == (double_clicked || (clicked && !is_current)),
{
    double_clicked || (clicked && !is_current)
}

/// `n` with at least two digits, a leading zero added below 10 (the `{:02}`
/// layout).
pub open spec fn two_digits(n: nat) -> Seq<char> {
    if n < 10 {
        seq!['0', digit_char(n as int)]
    } else {
        decimal(n)
    }
}

/// A time shown as minutes and seconds, each with at least two digits
/// (`{:02}:{:02}`).
pub open spec fn clock_text_of(ms: nat) -> Seq<char> {
    let secs = ms / 1000;
    two_digits(secs / 60) + seq![':'] + two_digits(secs % 60)
}

fn push_two_digits(out: &mut String, n: u64)
    ensures
        final(out)@ == old(out)@ + two_digits(n as nat),
{
    if n < 10 {
        push_char(out, '0');
    }
    push_decimal(out, n);
    assert(final(out)@ =~= old(out)@ + two_digits(n as nat));
}

/// Formats a time as `mm:ss` (see [`clock_text_of`]), as the playlist shows
/// track lengths and the player bar the position.
pub fn clock_text(ms: u64) -> (s: String)
    ensures
        s@ == clock_text_of(ms as nat),
{
    let secs = ms / 1000;
    let mut out = String::new();
    push_two_digits(&mut out, secs / 60);
    push_char(&mut out, ':');
    push_two_digits(&mut out, secs % 60);
    assert(out@ =~= clock_text_of(ms as nat));
    out
}

/// How the status bar names a playback state.
pub open spec fn play_state_label(s: PlayState) -> Seq<char> {
    match s {
        PlayState::Playing => "▶ Playing"@,
        PlayState::Paused => "⏸ Paused"@,
        PlayState::Stopped => "⏹ Stopped"@,
    }
}

/// The notice after registering the file types, in the interface language.
pub open spec fn registered_notice(is_rtl: bool) -> Seq<char> {
    if is_rtl {
        "שיוכי הקבצים נרשמו בהצלחה ב-Windows!"@
    } else {
        "File associations registered successfully in Windows!"@
    }
}

/// The notice after removing the registration, in the interface language.
pub open spec fn unregistered_notice(is_rtl: bool) -> Seq<char> {
    if is_rtl {
        "שיוכי הקבצים הוסרו"@
    } else {
        "File associations removed."@
    }
}

/// The answer to a check for updates, in the interface language.
pub open spec fn up_to_date_notice(is_rtl: bool) -> Seq<char> {
    if is_rtl {
        "אתה משתמש בגרסה העדכנית ביותר של Just Music."@
    } else {
        "You are using the latest version of Just Music."@
    }
}

impl AppState {
    /// The play/pause button: a playing track pauses, anything else plays.
    pub fn play_pause_clicked(&mut self) -> (effects: Vec<UiEffect>)
        ensures
            final(self)@ == play_pause_toggled(old(self)@),
            effects@.len() == 1,
            old(self).play_state == PlayState::Playing ==> effects@[0] matches UiEffect::Send(PlayerCommand::Pause),
            old(self).play_state != PlayState::Playing ==> effects@[0] matches UiEffect::Send(PlayerCommand::Play),
    {
        if self.play_state == PlayState::Playing {
            self.play_state = PlayState::Paused;
            vec![UiEffect::Send(PlayerCommand::Pause)]
        } else {
            self.play_state = PlayState::Playing;
            vec![UiEffect::Send(PlayerCommand::Play)]
        }
    }

    /// The mute button and the `M` key: mutes or unmutes and tells the engine.
    pub fn toggle_mute(&mut self) -> (effects: Vec<UiEffect>)
        ensures
            final(self)@ == mute_toggled(old(self)@),
            effects@.len() == 1,
            sends_mute(effects@[0], !old(self).is_muted),
    {
        self.is_muted = !self.is_muted;
        vec![UiEffect::Send(PlayerCommand::SetMute(self.is_muted))]
    }

    /// The status bar: `Status: <state> | <status text>`.
    pub fn status_line(&self) -> (s: String)
        ensures
            s@ == "Status: "@ + play_state_label(self.play_state) + " | "@ + self.status_text@,
    {
        let label = match self.play_state {
            PlayState::Playing => "▶ Playing",
            PlayState::Paused => "⏸ Paused",
            PlayState::Stopped => "⏹ Stopped",
        };
        let mut s = joined("Status: ", label);
        s.append(" | ");
        s.append(self.status_text.as_str());
        s
    }

    /// The outcome of registering the file types: on success the settings
    /// record it and are saved; either way a notice says what happened.
    pub fn registration_finished(&mut self, result: Result<(), String>) -> (effects: Vec<UiEffect>)
        ensures
            match result {
                Ok(()) => final(self)@ == with_registration(old(self)@, true) && effects@.len() == 2 && effects@[0] is SaveConfig && notifies(
                    effects@[1],
                    registered_notice(old(self).settings.is_rtl),
                ),
                Err(e) => final(self)@ == old(self)@ && effects@.len() == 1 && notifies(
                    effects@[0],
                    "שגיאה ברישום: "@ + e@,
                ),
            },
    {
        match result {
            Ok(()) => {
                self.settings.file_associations_registered = true;
                let msg = if self.settings.is_rtl {
                    "שיוכי הקבצים נרשמו בהצלחה ב-Windows!"
                } else {
                    "File associations registered successfully in Windows!"
                };
                vec![UiEffect::SaveConfig, notify(msg)]
            },
            Err(e) => vec![notify_owned(joined("שגיאה ברישום: ", e.as_str()))],
        }
    }

    /// The outcome of removing the registration: on success the settings
    /// record it and are saved; either way a notice says what happened.
    pub fn unregistration_finished(&mut self, result: Result<(), String>) -> (effects: Vec<UiEffect>)
        ensures
            match result {
                Ok(()) => final(self)@ == with_registration(old(self)@, false) && effects@.len() == 2 && effects@[0] is SaveConfig && notifies(
                    effects@[1],
                    unregistered_notice(old(self).settings.is_rtl),
                ),
                Err(e) => final(self)@ == old(self)@ && effects@.len() == 1 && notifies(
                    effects@[0],
                    "שגיאה: "@ + e@,
                ),
            },
    {
        match result {
            Ok(()) => {
                self.settings.file_associations_registered = false;
                let msg = if self.settings.is_rtl {
                    "שיוכי הקבצים הוסרו"
                } else {
                    "File associations removed."
                };
                vec![UiEffect::SaveConfig, notify(msg)]
            },
            Err(e) => vec![notify_owned(joined("שגיאה: ", e.as_str()))],
        }
    }

    /// The check for updates: this version is the latest.
    pub fn check_for_updates(&self) -> (effects: Vec<UiEffect>)
        ensures
            effects@.len() == 1,
            notifies(effects@[0], up_to_date_notice(self.settings.is_rtl)),
    {
        let msg = if self.settings.is_rtl {
            "אתה משתמש בגרסה העדכנית ביותר של Just Music."
        } else {
            "You are using the latest version of Just Music."
        };
        vec![notify(msg)]
    }
}

/// The keyboard shortcuts whose effect is decided here (the others open a
/// file dialog or change the volume, which the caller does itself).
#[derive(Debug, Clone, Copy, PartialEq, Eq, Structural)]
pub enum Shortcut {
    /// Space.
    TogglePlayPause,
    /// Arrow left: five seconds back.
    SeekBackward,
    /// Arrow right: five seconds forward.
    SeekForward,
    /// `M`.
    ToggleMute,
    /// Ctrl and comma.
    OpenSettings,
}

/// How far the arrow keys seek, in milliseconds.
pub const SEEK_STEP_MS: u64 = 5000;

/// `e` asks the engine to seek to `ms` milliseconds (a `Duration` of whole
/// seconds and nanoseconds).
pub open spec fn sends_seek(e: UiEffect, ms: nat) -> bool {
    e matches UiEffect::Send(PlayerCommand::SeekTo { secs, subsec_nanos }) && secs == ms / 1000
        && subsec_nanos == (ms % 1000) * 1_000_000
}

fn seek_to(ms: u64) -> (e: UiEffect)
    ensures
        sends_seek(e, ms as nat),
{
    let nanos = ((ms % 1000) as u32) * 1_000_000;
    UiEffect::Send(PlayerCommand::SeekTo { secs: ms / 1000, subsec_nanos: nanos })
}

/// `current_ms` less five seconds, and 0 within the first five seconds.
pub open spec fn seek_back_target(current_ms: u64) -> nat {
    if current_ms >= SEEK_STEP_MS {
        (current_ms - SEEK_STEP_MS) as nat
    } else {
        0
    }
}

/// The status line while `title` plays ("now playing").
pub open spec fn now_playing_status(title: Seq<char>) -> Seq<char> {
    "מנגן כעת: "@ + title
}

/// The notice when `title` starts ("playing").
pub open spec fn now_playing_notice(title: Seq<char>) -> Seq<char> {
    "מנגן: "@ + title
}

/// The status line and notice for an engine error.
pub open spec fn error_text(message: Seq<char>) -> Seq<char> {
    "שגיאה: "@ + message
}

/// The status line when a track ends ("the song has ended").
pub open spec fn ended_status() -> Seq<char> {
    "השיר הסתיים"@
}

impl AppState {
    /// A keyboard shortcut. Seeking forward needs the position plus five
    /// seconds to fit in a `u64`.
    pub fn shortcut(&mut self, key: Shortcut) -> (effects: Vec<UiEffect>)
        requires
            key == Shortcut::SeekForward ==> old(self).position.current_ms + SEEK_STEP_MS <= u64::MAX,
        ensures
            key == Shortcut::TogglePlayPause ==> final(self)@ == old(self)@ && effects@.len() == 1
                && effects@[0] matches UiEffect::Send(PlayerCommand::TogglePlayPause),
            key == Shortcut::SeekBackward ==> final(self)@ == old(self)@ && effects@.len() == 1 && sends_seek(
                effects@[0],
                seek_back_target(old(self).position.current_ms),
            ),
            key == Shortcut::SeekForward ==> final(self)@ == old(self)@ && effects@.len() == 1 && sends_seek(
                effects@[0],
                (old(self).position.current_ms + SEEK_STEP_MS) as nat,
            ),
            key == Shortcut::ToggleMute ==> final(self)@ == mute_toggled(old(self)@) && effects@.len() == 1
                && sends_mute(effects@[0], !old(self).is_muted),
            key == Shortcut::OpenSettings ==> final(self)@ == (AppStateView {
                current_tab: NavTab::Settings,
                ..old(self)@
            }) && effects@.len() == 0,
    {
        match key {
            Shortcut::TogglePlayPause => vec![UiEffect::Send(PlayerCommand::TogglePlayPause)],
            Shortcut::SeekBackward => {
                let cur = self.position.current_ms;
                let target = if cur >= SEEK_STEP_MS {
                    cur - SEEK_STEP_MS
                } else {
                    0
                };
                vec![seek_to(target)]
            },
            Shortcut::SeekForward => vec![seek_to(self.position.current_ms + SEEK_STEP_MS)],
            Shortcut::ToggleMute => self.toggle_mute(),
            Shortcut::OpenSettings => {
                self.current_tab = NavTab::Settings;
                Vec::new()
            },
        }
    }

    /// An event from the engine: the interface follows its state, position,
    /// volume and track, and shows what started and what went wrong. Mute and
    /// queue changes leave the interface as it is.
    pub fn apply_player_event(&mut self, event: PlayerEvent) -> (effects: Vec<UiEffect>)
        ensures
            match event {
                PlayerEvent::StateChanged(s) => final(self)@ == (AppStateView {
                    play_state: s,
                    ..old(self)@
                }) && effects@.len() == 0,
                PlayerEvent::PositionUpdated(p) => final(self)@ == (AppStateView {
                    position: p,
                    ..old(self)@
                }) && effects@.len() == 0,
                PlayerEvent::TrackStarted(t) => final(self)@ == (AppStateView {
                    current_track: Some(t),
                    status_text: now_playing_status(t.title@),
                    ..old(self)@
                }) && effects@.len() == 1 && notifies(effects@[0], now_playing_notice(t.title@)),
                PlayerEvent::TrackEnded => final(self)@ == (AppStateView {
                    play_state: PlayState::Stopped,
                    status_text: ended_status(),
                    ..old(self)@
                }) && effects@.len() == 0,
                PlayerEvent::ErrorOccurred(m) => final(self)@ == (AppStateView {
                    status_text: error_text(m@),
                    ..old(self)@
                }) && effects@.len() == 1 && notifies(effects@[0], error_text(m@)),
                PlayerEvent::VolumeChanged(v) => final(self)@ == (AppStateView {
                    volume_bits: v,
                    ..old(self)@
                }) && effects@.len() == 0,
                PlayerEvent::MuteChanged(_) => final(self)@ == old(self)@ && effects@.len() == 0,
                PlayerEvent::QueueUpdated(_) => final(self)@ == old(self)@ && effects@.len() == 0,
            },
    {
        match event {
            PlayerEvent::StateChanged(s) => {
                self.play_state = s;
                Vec::new()
            },
            PlayerEvent::PositionUpdated(p) => {
                self.position = p;
                Vec::new()
            },
            PlayerEvent::TrackStarted(t) => {
                self.status_text = joined("מנגן כעת: ", t.title.as_str());
                let notice = joined("מנגן: ", t.title.as_str());
                self.current_track = Some(t);
                vec![notify_owned(notice)]
            },
            PlayerEvent::TrackEnded => {
                self.play_state = PlayState::Stopped;
                self.status_text = "השיר הסתיים".to_owned();
                Vec::new()
            },
            PlayerEvent::ErrorOccurred(m) => {
                self.status_text = joined("שגיאה: ", m.as_str());
                vec![notify_owned(joined("שגיאה: ", m.as_str()))]
            },
            PlayerEvent::VolumeChanged(v) => {
                self.volume_bits = v;
                Vec::new()
            },
            PlayerEvent::MuteChanged(_) => Vec::new(),
            PlayerEvent::QueueUpdated(_) => Vec::new(),
        }
    }
}

/// The sidebar's entries in the interface language: tab, icon and label.
pub open spec fn nav_entries_of(is_rtl: bool) -> Seq<(NavTab, Seq<char>, Seq<char>)> {
    if is_rtl {
        seq![
            (NavTab::Home, "🏠"@, "ראשי"@),
            (NavTab::Playlist, "🎵"@, "רשימת השמעה"@),
            (NavTab::Recent, "🕒"@, "אחרונים"@),
            (NavTab::Settings, "⚙️"@, "הגדרות"@),
            (NavTab::About, "ℹ️"@, "אודות"@),
        ]
    } else {
        seq![
            (NavTab::Home, "🏠"@, "Home"@),
            (NavTab::Playlist, "🎵"@, "Playlist"@),
            (NavTab::Recent, "🕒"@, "Recent"@),
            (NavTab::Settings, "⚙️"@, "Settings"@),
            (NavTab::About, "ℹ️"@, "About"@),
        ]
    }
}

/// An entry as plain values.
pub open spec fn entry_view(e: (NavTab, &str, &str)) -> (NavTab, Seq<char>, Seq<char>) {
    (e.0, e.1@, e.2@)
}

/// The sidebar's entries (see [`nav_entries_of`]).
pub fn nav_entries(is_rtl: bool) -> (v: Vec<(NavTab, &'static str, &'static str)>)
    ensures
        v@.map_values(|e: (NavTab, &str, &str)| entry_view(e)) == nav_entries_of(is_rtl),
{
    let v = if is_rtl {
        vec![
            (NavTab::Home, "🏠", "ראשי"),
            (NavTab::Playlist, "🎵", "רשימת השמעה"),
            (NavTab::Recent, "🕒", "אחרונים"),
            (NavTab::Settings, "⚙️", "הגדרות"),
            (NavTab::About, "ℹ️", "אודות"),
        ]
    } else {
        vec![
            (NavTab::Home, "🏠", "Home"),
            (NavTab::Playlist, "🎵", "Playlist"),
            (NavTab::Recent, "🕒", "Recent"),
            (NavTab::Settings, "⚙️", "Settings"),
            (NavTab::About, "ℹ️", "About"),
        ]
    };
    assert(v@.map_values(|e: (NavTab, &str, &str)| entry_view(e)) =~= nav_entries_of(is_rtl));
    v
}

/// The settings view's tabs in the interface language.
pub open spec fn settings_tabs_of(is_rtl: bool) -> Seq<(SettingsTab, Seq<char>)> {
    if is_rtl {
        seq![
            (SettingsTab::General, "כללי"@),
            (SettingsTab::Playback, "נגינה"@),
            (SettingsTab::Appearance, "מראה ותשתיות"@),
            (SettingsTab::Associations, "שיוך קבצים"@),
            (SettingsTab::Updates, "עדכונים"@),
        ]
    } else {
        seq![
            (SettingsTab::General, "General"@),
            (SettingsTab::Playback, "Playback"@),
            (SettingsTab::Appearance, "Appearance"@),
            (SettingsTab::Associations, "Associations"@),
            (SettingsTab::Updates, "Updates"@),
        ]
    }
}

/// The settings view's tabs (see [`settings_tabs_of`]).
pub fn settings_tabs(is_rtl: bool) -> (v: Vec<(SettingsTab, &'static str)>)
    ensures
        v@.map_values(|e: (SettingsTab, &str)| (e.0, e.1@)) == settings_tabs_of(is_rtl),
{
    let v = if is_rtl {
        vec![
            (SettingsTab::General, "כללי"),
            (SettingsTab::Playback, "נגינה"),
            (SettingsTab::Appearance, "מראה ותשתיות"),
            (SettingsTab::Associations, "שיוך קבצים"),
            (SettingsTab::Updates, "עדכונים"),
        ]
    } else {
        vec![
            (SettingsTab::General, "General"),
            (SettingsTab::Playback, "Playback"),
            (SettingsTab::Appearance, "Appearance"),
            (SettingsTab::Associations, "Associations"),
            (SettingsTab::Updates, "Updates"),
        ]
    };
    assert(v@.map_values(|e: (SettingsTab, &str)| (e.0, e.1@)) =~= settings_tabs_of(is_rtl));
    v
}

/// A sidebar label as drawn: reordered for display in the right-to-left
/// layout (see [`bidi_text`]), unchanged otherwise.
pub fn sidebar_label(label: &str, is_rtl: bool) -> (s: String)
    ensures
        s@ == (if is_rtl {
            bidi_text(label@)
        } else {
            label@
        }),
{
    if is_rtl {
        bidi(label)
    } else {
        label.to_owned()
    }
}

/// The palette theme a theme chosen in the settings shows.
pub open spec fn palette_theme_of(mode: SettingsTheme) -> ThemeMode {
    match mode {
        SettingsTheme::Light => ThemeMode::Light,
        SettingsTheme::Dark => ThemeMode::Dark,
        SettingsTheme::DeepNight => ThemeMode::DeepNightRed,
    }
}

impl AppState {
    /// The Appearance tab's theme choice: the settings record `mode`. When
    /// the design system shown (`shown`) is not the chosen theme's, the
    /// design system of the chosen theme is returned for the caller to show
    /// and the settings are saved; otherwise nothing changes on screen.
    pub fn choose_theme(&mut self, mode: SettingsTheme, shown: &DesignSystem) -> (r: (
        Option<DesignSystem>,
        Vec<UiEffect>,
    ))
        ensures
            final(self)@ == (AppStateView {
                settings: AppSettings { theme_mode: mode, ..old(self).settings },
                ..old(self)@
            }),
            shown.mode != palette_theme_of(mode) ==> r.0 == Some(DesignSystem::new_spec(palette_theme_of(mode)))
                && r.1@.len() == 1 && r.1@[0] is SaveConfig,
            shown.mode == palette_theme_of(mode) ==> r.0 is None && r.1@.len() == 0,
    {
        self.settings.theme_mode = mode;
        let target = match mode {
            SettingsTheme::Light => ThemeMode::Light,
            SettingsTheme::Dark => ThemeMode::Dark,
            SettingsTheme::DeepNight => ThemeMode::DeepNightRed,
        };
        if shown.mode != target {
            (Some(DesignSystem::new(target)), vec![UiEffect::SaveConfig])
        } else {
            (None, Vec::new())
        }
    }
}

/// Switching the interface language twice gives back the state it started
/// from.
pub proof fn lemma_language_toggle_twice(v: AppStateView)
    ensures
        language_toggled(language_toggled(v)) == v,
{
    assert(language_toggled(language_toggled(v)).settings == v.settings);
}

/// Pressing the mute button twice gives back the state it started from.
pub proof fn lemma_mute_toggle_twice(v: AppStateView)
    ensures
        mute_toggled(mute_toggled(v)) == v,
{
}

/// From playing or paused, two presses of the play/pause button give back the
/// state it started from; from stopped, they leave the player paused.
pub proof fn lemma_play_pause_twice(v: AppStateView)
    ensures
        v.play_state != PlayState::Stopped ==> play_pause_toggled(play_pause_toggled(v)) == v,
        v.play_state == PlayState::Stopped ==> play_pause_toggled(play_pause_toggled(v)) == (AppStateView {
            play_state: PlayState::Paused,
            ..v
        }),
{
}

/// Removing a registration undoes registering: the setting ends as it was
/// before registering when it was not registered, whatever was registered in
/// between; registering twice is registering once.
pub proof fn lemma_registration_round_trip(v: AppStateView)
    ensures
        !v.settings.file_associations_registered ==> with_registration(with_registration(v, true), false) == v,
        with_registration(with_registration(v, true), true) == with_registration(v, true),
{
    if !v.settings.file_associations_registered {
        assert(with_registration(with_registration(v, true), false).settings == v.settings);
    }
}

} // verus!
