use aether::controls::{
    clock_text, nav_entries, row_click_plays, settings_tabs, sidebar_label, Shortcut, UiEffect,
};
use aether::engine::PlayerCommand;
use aether::playlist::local_file_track;
use aether::state::{AppState, NavTab, SettingsTab, ThemeMode as SettingsTheme, START_VOLUME_BITS};
use aether::theme::{DesignSystem, ThemeMode};
use aether::types::{PlayState, PlaybackPosition, PlayerEvent, Track};

fn track(path: &str) -> Track {
    local_file_track(path.to_string(), Some("Song".to_string()), "mp3", false)
}

fn notice(e: &UiEffect) -> &str {
    match e {
        UiEffect::Notify(m) => m.as_str(),
        other => panic!("expected a notification, got {other:?}"),
    }
}

#[test]
fn fresh_state_is_stopped_at_home() {
    let s = AppState::default();
    assert_eq!(s.current_tab, NavTab::Home);
    assert_eq!(s.current_settings_tab, SettingsTab::General);
    assert!(s.current_track.is_none());
    assert_eq!(s.play_state, PlayState::Stopped);
    assert_eq!(s.volume_bits, START_VOLUME_BITS);
    assert_eq!(f32::from_bits(s.volume_bits), 0.85);
    assert!(!s.is_muted);
    assert_eq!(s.status_text, "מוכן לנגינה");
    assert!(s.settings.is_rtl);
}

#[test]
fn tabs_and_language() {
    let mut s = AppState::default();
    s.select_tab(NavTab::Recent);
    s.select_settings_tab(SettingsTab::Updates);
    assert_eq!(s.current_tab, NavTab::Recent);
    assert_eq!(s.current_settings_tab, SettingsTab::Updates);
    assert!(s.layout_engine().is_rtl());
    let effects = s.toggle_language();
    assert!(matches!(effects[..], [UiEffect::SaveConfig]));
    assert!(!s.settings.is_rtl);
    assert!(!s.layout_engine().is_rtl());
    s.toggle_language();
    assert!(s.settings.is_rtl);
}

#[test]
fn playlist_and_recent_edits() {
    let mut s = AppState::default();
    s.settings.is_rtl = false;
    let effects = s.open_file(track("/m/a.mp3"));
    assert!(matches!(&effects[0], UiEffect::Send(PlayerCommand::LoadTrack(p)) if p == "/m/a.mp3"));
    assert_eq!(notice(&effects[1]), "File Loaded Successfully");
    s.open_file(track("/m/b.mp3"));
    s.open_file(track("/m/a.mp3"));
    assert_eq!(s.playlist.len(), 2);
    assert_eq!(s.recent_tracks.len(), 2);
    assert_eq!(s.current_track.as_ref().unwrap().file_path, "/m/a.mp3");

    let effects = s.remove_from_playlist(0);
    assert_eq!(notice(&effects[0]), "Track removed from playlist");
    assert_eq!(s.playlist.len(), 1);
    assert_eq!(s.playlist[0].file_path, "/m/b.mp3");

    let b = s.playlist[0].clone();
    assert!(!s.is_current(&b));
    let effects = s.play_track(b.clone());
    assert!(matches!(&effects[0], UiEffect::Send(PlayerCommand::LoadTrack(p)) if p == "/m/b.mp3"));
    assert_eq!(notice(&effects[1]), "Playback Started");
    assert!(s.is_current(&b));

    assert_eq!(notice(&s.clear_playlist()[0]), "Playlist cleared");
    assert!(s.playlist.is_empty());
    assert_eq!(notice(&s.clear_recent()[0]), "Recent history cleared");
    assert!(s.recent_tracks.is_empty());
}

#[test]
fn row_clicks() {
    assert!(row_click_plays(true, false, true));
    assert!(row_click_plays(false, true, false));
    assert!(!row_click_plays(true, true, false));
    assert!(!row_click_plays(false, false, false));
}

#[test]
fn player_bar_buttons() {
    let mut s = AppState::default();
    let e = s.play_pause_clicked();
    assert!(matches!(e[..], [UiEffect::Send(PlayerCommand::Play)]));
    assert_eq!(s.play_state, PlayState::Playing);
    let e = s.play_pause_clicked();
    assert!(matches!(e[..], [UiEffect::Send(PlayerCommand::Pause)]));
    assert_eq!(s.play_state, PlayState::Paused);
    let e = s.play_pause_clicked();
    assert!(matches!(e[..], [UiEffect::Send(PlayerCommand::Play)]));
    assert_eq!(s.play_state, PlayState::Playing);

    let e = s.toggle_mute();
    assert!(matches!(e[..], [UiEffect::Send(PlayerCommand::SetMute(true))]));
    let e = s.toggle_mute();
    assert!(matches!(e[..], [UiEffect::Send(PlayerCommand::SetMute(false))]));
    assert!(!s.is_muted);

    assert_eq!(s.status_line(), "Status: ▶ Playing | מוכן לנגינה");
}

#[test]
fn clock_texts_have_two_digit_fields() {
    assert_eq!(clock_text(0), "00:00");
    assert_eq!(clock_text(65_999), "01:05");
    assert_eq!(clock_text(599_000), "09:59");
    assert_eq!(clock_text(600_000), "10:00");
    assert_eq!(clock_text(6_000_000), "100:00");
}

#[test]
fn registration_outcomes() {
    let mut s = AppState::default();
    let e = s.registration_finished(Ok(()));
    assert!(s.settings.file_associations_registered);
    assert!(matches!(e[0], UiEffect::SaveConfig));
    assert_eq!(notice(&e[1]), "שיוכי הקבצים נרשמו בהצלחה ב-Windows!");
    let e = s.unregistration_finished(Err("denied".to_string()));
    assert_eq!(e.len(), 1);
    assert_eq!(notice(&e[0]), "שגיאה: denied");
    assert!(s.settings.file_associations_registered);
    s.settings.is_rtl = false;
    let e = s.unregistration_finished(Ok(()));
    assert!(!s.settings.file_associations_registered);
    assert_eq!(notice(&e[1]), "File associations removed.");
    let e = s.registration_finished(Err("no access".to_string()));
    assert_eq!(notice(&e[0]), "שגיאה ברישום: no access");
    assert!(!s.settings.file_associations_registered);
    assert_eq!(notice(&s.check_for_updates()[0]), "You are using the latest version of Just Music.");
}

#[test]
fn shortcuts_seek_by_five_seconds() {
    let mut s = AppState::default();
    s.position = PlaybackPosition { current_ms: 3_000, total_ms: 60_000, progress_ratio_bits: 0 };
    let e = s.shortcut(Shortcut::SeekBackward);
    assert!(matches!(e[..], [UiEffect::Send(PlayerCommand::SeekTo { secs: 0, subsec_nanos: 0 })]));
    s.position.current_ms = 12_345;
    let e = s.shortcut(Shortcut::SeekBackward);
    assert!(matches!(e[..], [UiEffect::Send(PlayerCommand::SeekTo { secs: 7, subsec_nanos: 345_000_000 })]));
    let e = s.shortcut(Shortcut::SeekForward);
    assert!(matches!(e[..], [UiEffect::Send(PlayerCommand::SeekTo { secs: 17, subsec_nanos: 345_000_000 })]));
    let e = s.shortcut(Shortcut::TogglePlayPause);
    assert!(matches!(e[..], [UiEffect::Send(PlayerCommand::TogglePlayPause)]));
    let e = s.shortcut(Shortcut::ToggleMute);
    assert!(matches!(e[..], [UiEffect::Send(PlayerCommand::SetMute(true))]));
    let e = s.shortcut(Shortcut::OpenSettings);
    assert!(e.is_empty());
    assert_eq!(s.current_tab, NavTab::Settings);
}

#[test]
fn engine_events_update_the_interface() {
    let mut s = AppState::default();
    assert!(s.apply_player_event(PlayerEvent::StateChanged(PlayState::Playing)).is_empty());
    assert_eq!(s.play_state, PlayState::Playing);
    let pos = PlaybackPosition { current_ms: 1_000, total_ms: 4_000, progress_ratio_bits: 0.25f32.to_bits() };
    s.apply_player_event(PlayerEvent::PositionUpdated(pos));
    assert_eq!(s.position, pos);
    let e = s.apply_player_event(PlayerEvent::TrackStarted(track("/m/c.mp3")));
    assert_eq!(notice(&e[0]), "מנגן: Song");
    assert_eq!(s.status_text, "מנגן כעת: Song");
    assert_eq!(s.current_track.as_ref().unwrap().file_path, "/m/c.mp3");
    s.apply_player_event(PlayerEvent::VolumeChanged(0.5f32.to_bits()));
    assert_eq!(f32::from_bits(s.volume_bits), 0.5);
    assert!(s.apply_player_event(PlayerEvent::MuteChanged(true)).is_empty());
    assert!(!s.is_muted);
    s.apply_player_event(PlayerEvent::TrackEnded);
    assert_eq!(s.play_state, PlayState::Stopped);
    assert_eq!(s.status_text, "השיר הסתיים");
    let e = s.apply_player_event(PlayerEvent::ErrorOccurred("bad file".to_string()));
    assert_eq!(notice(&e[0]), "שגיאה: bad file");
    assert_eq!(s.status_text, "שגיאה: bad file");
}

#[test]
fn sidebar_and_settings_labels() {
    let rtl = nav_entries(true);
    assert_eq!(rtl.len(), 5);
    assert_eq!(rtl[1], (NavTab::Playlist, "🎵", "רשימת השמעה"));
    let ltr = nav_entries(false);
    assert_eq!(ltr[4], (NavTab::About, "ℹ️", "About"));
    assert_eq!(settings_tabs(false)[3], (SettingsTab::Associations, "Associations"));
    assert_eq!(settings_tabs(true)[0], (SettingsTab::General, "כללי"));
    assert_eq!(sidebar_label("Home", false), "Home");
    assert_eq!(sidebar_label("ראשי", true), "ישאר");
}

#[test]
fn theme_choice_changes_the_design_system_once() {
    let mut s = AppState::default();
    let shown = DesignSystem::default();
    let (design, effects) = s.choose_theme(SettingsTheme::DeepNight, &shown);
    assert_eq!(s.settings.theme_mode, SettingsTheme::DeepNight);
    let design = design.unwrap();
    assert_eq!(design.mode, ThemeMode::DeepNightRed);
    assert!(matches!(effects[..], [UiEffect::SaveConfig]));
    let (again, effects) = s.choose_theme(SettingsTheme::DeepNight, &design);
    assert!(again.is_none());
    assert!(effects.is_empty());
}
