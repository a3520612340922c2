use aether::associations::{AssociationManager, RegistryRemoval, RegistryRoot};
use aether::playlist::{enqueue_opened_track, load_notice, local_file_track};
use aether::state::{AppSettings, ThemeMode as SettingsTheme};
use aether::theme::{ColorPalette, DesignSystem, ThemeMode};
use aether::toast::{Toast, ToastManager};
use aether::types::AudioFormat;

#[test]
fn toasts_are_added_and_expire_after_their_duration() {
    let mut m = ToastManager::default();
    m.notify("one".to_string());
    m.notify("two".to_string());
    m.notify("three".to_string());
    assert_eq!(m.toasts.len(), 3);
    assert_eq!(m.toasts[2].message, "three");
    assert_eq!(m.toasts[0].duration_ms, 3000);
    m.remove_expired(&vec![3000, 2999, 10_000]);
    assert_eq!(m.toasts.len(), 1);
    assert_eq!(m.toasts[0].message, "two");
    // a second pass with the same elapsed time removes nothing more
    m.remove_expired(&vec![2999]);
    assert_eq!(m.toasts.len(), 1);
    // fresh toasts are not expired yet
    m.update();
    assert_eq!(m.toasts.len(), 1);
    let t = Toast::new("x".to_string());
    assert!(!t.is_expired());
    assert!(!t.expired_after(2999));
    assert!(t.expired_after(3000));
    let mut z = Toast::new("now".to_string());
    z.duration_ms = 0;
    assert!(z.is_expired());
    m.toasts.push(z);
    m.update();
    assert_eq!(m.toasts.len(), 1);
    assert_eq!(m.toasts[0].message, "two");
}

#[test]
fn palettes_follow_theme() {
    assert_eq!(DesignSystem::new(ThemeMode::System).palette, ColorPalette::dark());
    assert_eq!(DesignSystem::new(ThemeMode::DeepNightRed).palette.background.r, 5);
    assert_eq!(DesignSystem::default().mode, ThemeMode::Light);
    assert_eq!(ColorPalette::light().cards.g, 255);
}

#[test]
fn default_settings() {
    let s = AppSettings::default();
    assert!(s.is_rtl);
    assert_eq!(s.theme_mode, SettingsTheme::Dark);
    assert_eq!(f32::from_bits(s.playback_speed_bits), 1.0);
    assert_eq!(s.buffer_size_ms, 100);
}

#[test]
fn associations_succeed_without_registry() {
    assert!(AssociationManager::register_all().is_ok());
    assert!(AssociationManager::unregister_all().is_ok());
    assert_eq!(AssociationManager::SUPPORTED_EXTENSIONS.len(), 9);
}

#[test]
fn registration_plan_covers_every_extension() {
    let plan = AssociationManager::registration_plan("C:\\Apps\\jm.exe");
    assert_eq!(plan.len(), 34);
    assert_eq!(plan[0].root, RegistryRoot::UserClasses);
    assert_eq!(plan[0].key, "JustMusic.AudioFile");
    assert_eq!(plan[0].value, "Just Music Audio File");
    assert_eq!(plan[2].key, "JustMusic.AudioFile\\DefaultIcon");
    assert_eq!(plan[2].value, "\"C:\\Apps\\jm.exe\",0");
    assert_eq!(plan[3].key, "JustMusic.AudioFile\\shell\\open\\command");
    assert_eq!(plan[3].value, "\"C:\\Apps\\jm.exe\" \"%1\"");
    assert_eq!(plan[4].key, ".mp3");
    assert_eq!(plan[4].name, "");
    assert_eq!(plan[4].value, "JustMusic.AudioFile");
    assert_eq!(plan[5].key, ".mp3\\OpenWithProgids");
    assert_eq!(plan[5].name, "JustMusic.AudioFile");
    assert_eq!(plan[21].key, ".aiff\\OpenWithProgids");
    assert_eq!(plan[22].root, RegistryRoot::UserSoftware);
    assert_eq!(plan[22].name, "ApplicationName");
    assert_eq!(plan[24].key, "JustMusic\\Capabilities\\FileAssociations");
    assert_eq!(plan[24].name, ".mp3");
    assert_eq!(plan[32].name, ".aiff");
    assert_eq!(plan[33].key, "RegisteredApplications");
    assert_eq!(plan[33].value, "Software\\JustMusic\\Capabilities");
}

#[test]
fn unregistration_plan_undoes_registration() {
    let plan = AssociationManager::unregistration_plan();
    assert_eq!(plan.len(), 12);
    match &plan[0] {
        RegistryRemoval::KeyTree { root, key } => {
            assert_eq!(*root, RegistryRoot::UserClasses);
            assert_eq!(key, "JustMusic.AudioFile");
        }
        _ => panic!("expected a key removal"),
    }
    match &plan[9] {
        RegistryRemoval::Value { key, name, .. } => {
            assert_eq!(key, ".aiff\\OpenWithProgids");
            assert_eq!(name, "JustMusic.AudioFile");
        }
        _ => panic!("expected a value removal"),
    }
    match &plan[11] {
        RegistryRemoval::Value { root, key, name } => {
            assert_eq!(*root, RegistryRoot::UserSoftware);
            assert_eq!(key, "RegisteredApplications");
            assert_eq!(name, "JustMusic");
        }
        _ => panic!("expected a value removal"),
    }
}

#[test]
fn opened_files_enter_lists_once() {
    let mut current = None;
    let mut playlist = Vec::new();
    let mut recent = Vec::new();
    let a = local_file_track("/m/a.mp3".into(), Some("a".into()), "mp3", true);
    assert_eq!(a.artist, "קובץ שמע מקומי");
    assert_eq!(a.format, AudioFormat::Mp3);
    enqueue_opened_track(&mut current, &mut playlist, &mut recent, a);
    let b = local_file_track("/m/b.ogg".into(), None, "ogg", false);
    assert_eq!(b.title, "Audio File");
    assert_eq!(b.artist, "Local Audio File");
    enqueue_opened_track(&mut current, &mut playlist, &mut recent, b);
    let a2 = local_file_track("/m/a.mp3".into(), Some("a".into()), "mp3", true);
    enqueue_opened_track(&mut current, &mut playlist, &mut recent, a2);
    assert_eq!(playlist.len(), 2);
    assert_eq!(recent.len(), 2);
    assert_eq!(recent[0].file_path, "/m/b.ogg");
    assert_eq!(current.unwrap().file_path, "/m/a.mp3");
    assert_eq!(load_notice(false), "File Loaded Successfully");
}
