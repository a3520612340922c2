use aether::types::{format_name, AudioFormat, TrackId};

#[test]
fn test_audio_format_resolution() {
    assert_eq!(AudioFormat::from_extension("mp3"), AudioFormat::Mp3);
    assert_eq!(AudioFormat::from_extension("FLAC"), AudioFormat::Flac);
    assert_eq!(AudioFormat::from_extension("wav"), AudioFormat::Wav);
    assert_eq!(AudioFormat::from_extension("m4a"), AudioFormat::Aac);
    assert_eq!(AudioFormat::from_extension("unknown"), AudioFormat::Unknown);
}

#[test]
fn test_track_id_uniqueness() {
    let id1 = TrackId::new();
    let id2 = TrackId::new();
    assert_ne!(id1, id2);
}

#[test]
fn track_id_has_hyphenated_uuid_shape() {
    let id = TrackId::new();
    let chars: Vec<char> = id.0.chars().collect();
    assert_eq!(chars.len(), 36);
    for (i, c) in chars.iter().enumerate() {
        if i == 8 || i == 13 || i == 18 || i == 23 {
            assert_eq!(*c, '-');
        } else {
            assert!(c.is_ascii_digit() || ('a'..='f').contains(c));
        }
    }
    assert_eq!(chars[14], '4');
    assert!(['8', '9', 'a', 'b'].contains(&chars[19]));
}

#[test]
fn audio_format_covers_every_alias() {
    assert_eq!(AudioFormat::from_extension("AAC"), AudioFormat::Aac);
    assert_eq!(AudioFormat::from_extension("Ogg"), AudioFormat::Ogg);
    assert_eq!(AudioFormat::from_extension("opus"), AudioFormat::Opus);
    assert_eq!(AudioFormat::from_extension("aif"), AudioFormat::Aiff);
    assert_eq!(AudioFormat::from_extension("AIFF"), AudioFormat::Aiff);
    assert_eq!(AudioFormat::from_extension("alac"), AudioFormat::Alac);
    assert_eq!(AudioFormat::from_extension(""), AudioFormat::Unknown);
    assert_eq!(AudioFormat::from_extension("mp4"), AudioFormat::Unknown);
    assert_eq!(AudioFormat::from_extension(" mp3"), AudioFormat::Unknown);
}

#[test]
fn lowercase_extension_lookup_is_exact() {
    assert_eq!(AudioFormat::from_lowercase_extension("flac"), AudioFormat::Flac);
    assert_eq!(AudioFormat::from_lowercase_extension("FLAC"), AudioFormat::Unknown);
}

#[test]
fn format_labels() {
    assert_eq!(format_name(AudioFormat::Mp3), "MP3");
    assert_eq!(format_name(AudioFormat::Flac), "FLAC");
    assert_eq!(format_name(AudioFormat::Opus), "OPUS");
    assert_eq!(format_name(AudioFormat::Unknown), "AUDIO");
}

#[test]
fn format_labels_read_back_as_their_format() {
    for f in [
        AudioFormat::Mp3,
        AudioFormat::Flac,
        AudioFormat::Wav,
        AudioFormat::Aac,
        AudioFormat::Ogg,
        AudioFormat::Opus,
        AudioFormat::Aiff,
        AudioFormat::Alac,
        AudioFormat::Unknown,
    ] {
        assert_eq!(AudioFormat::from_extension(format_name(f)), f);
    }
}
