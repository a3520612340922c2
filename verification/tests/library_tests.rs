use aether::cache_manager::{ArtworkLookup, CacheManager};
use aether::decoding::{clean_path_text, mime_hint, missing_file_message, stream_duration_ms, trim_matches_char};
use aether::duration_text::{format_duration, parse_duration_string, parse_u64_or_zero};
use aether::engine::{CommandOutcome, DecoderInfo, EngineCore, EngineEffect, EngineEvent, PlayerCommand};
use aether::entropy::{fill, getrandom};
use aether::library::{is_scannable_extension, tag_kind, MetadataExtractor, StandardTag, StreamParams};
use aether::error::AetherError;
use aether::memory_cache::MemoryLruCache;
use aether::metrics::MonitorEngine;
use aether::types::{AudioFormat, PlayState};
use aether::virtual_list::visible_span;

#[test]
fn durations_format_as_minutes_and_seconds() {
    assert_eq!(format_duration(0), "0:00");
    assert_eq!(format_duration(999), "0:00");
    assert_eq!(format_duration(61_000), "1:01");
    assert_eq!(format_duration(210_000), "3:30");
    assert_eq!(format_duration(3_600_000), "60:00");
}

#[test]
fn durations_read_back() {
    assert_eq!(parse_duration_string("3:30"), 210_000);
    assert_eq!(parse_duration_string("0:05"), 5_000);
    assert_eq!(parse_duration_string("+2:+3"), 123_000);
    assert_eq!(parse_duration_string("3:xx"), 180_000);
    assert_eq!(parse_duration_string("330"), 0);
    assert_eq!(parse_duration_string("1:2:3"), 0);
    assert_eq!(parse_duration_string(""), 0);
    // reading back what was shown drops the milliseconds
    for ms in [0u64, 1, 59_999, 61_234, 3_599_999, 98_765_432] {
        assert_eq!(parse_duration_string(&format_duration(ms)), ms / 1000 * 1000);
    }
}

#[test]
fn fields_parse_like_u64() {
    let digits: Vec<char> = "0042".chars().collect();
    assert_eq!(parse_u64_or_zero(&digits), 42);
    let plus: Vec<char> = "+".chars().collect();
    assert_eq!(parse_u64_or_zero(&plus), 0);
    let big: Vec<char> = "18446744073709551616".chars().collect();
    assert_eq!(parse_u64_or_zero(&big), 0);
    let max: Vec<char> = "18446744073709551615".chars().collect();
    assert_eq!(parse_u64_or_zero(&max), u64::MAX);
}

#[test]
fn visible_span_adds_overdraw() {
    // rows of 50px, scrolled to 1000px with a 500px viewport: rows 20.. on screen
    let span = visible_span(100000, 20, 10, 2);
    assert_eq!(span.start_index, 18);
    assert_eq!(span.end_index, 32);
    assert_eq!(span.rows_below, 100000 - 32);
    let near_end = visible_span(25, 20, 10, 2);
    assert_eq!(near_end.end_index, 25);
    assert_eq!(near_end.rows_below, 0);
    let top = visible_span(100, 1, 5, 5);
    assert_eq!(top.start_index, 0);
    let empty = visible_span(0, 3, 4, 5);
    assert_eq!((empty.start_index, empty.end_index, empty.rows_below), (0, 0, 0));
}

#[test]
fn fill_writes_position_pattern() {
    let mut buf = vec![0xAAu8; 300];
    assert!(fill(&mut buf).is_ok());
    assert_eq!(buf[0], 0);
    assert_eq!(buf[255], 255);
    assert_eq!(buf[256], 0);
    assert_eq!(buf[299], 43);
    let mut other = vec![7u8; 3];
    assert!(getrandom(&mut other).is_ok());
    assert_eq!(other, vec![0, 1, 2]);
}

#[test]
fn monitor_counts_hits_and_misses() {
    let mut m = MonitorEngine::new();
    m.record_cache_hit();
    m.record_cache_hit();
    m.record_cache_miss();
    m.record_db_latency(1_500_000);
    assert_eq!(m.cache_hits(), 2);
    assert_eq!(m.cache_misses(), 1);
    assert_eq!(m.db_latency_ns(), 1_500_000);
    let d = MonitorEngine::default();
    assert_eq!(d.cache_hits(), 0);
}

#[test]
fn lru_returns_what_was_put_and_evicts_least_recent() {
    let mut c = MemoryLruCache::new(2);
    c.put("a".to_string(), vec![1]);
    c.put("b".to_string(), vec![2]);
    assert_eq!(c.get(&"a".to_string()), Some(vec![1]));
    // "b" is now the least recently used
    c.put("c".to_string(), vec![3]);
    assert_eq!(c.get(&"b".to_string()), None);
    assert_eq!(c.get(&"a".to_string()), Some(vec![1]));
    assert_eq!(c.get(&"c".to_string()), Some(vec![3]));
    c.put("a".to_string(), vec![9]);
    assert_eq!(c.get(&"a".to_string()), Some(vec![9]));
    c.clear();
    assert_eq!(c.get(&"a".to_string()), None);
    // capacity zero behaves as one
    let mut z = MemoryLruCache::new(0);
    z.put("x".to_string(), vec![1]);
    z.put("y".to_string(), vec![2]);
    assert_eq!(z.get(&"x".to_string()), None);
    assert_eq!(z.get(&"y".to_string()), Some(vec![2]));
}

#[test]
fn cache_manager_consults_disk_on_miss() {
    let mut m = CacheManager::new();
    assert!(matches!(m.get_artwork("t1"), ArtworkLookup::ReadDisk));
    assert_eq!(m.complete_artwork_read("t1", None), None);
    assert!(matches!(m.get_artwork("t1"), ArtworkLookup::ReadDisk));
    assert_eq!(m.complete_artwork_read("t1", Some(vec![5, 6])), Some(vec![5, 6]));
    match m.get_artwork("t1") {
        ArtworkLookup::Hit(b) => assert_eq!(b, vec![5, 6]),
        ArtworkLookup::ReadDisk => panic!("artwork read from disk was not kept in memory"),
    }
    m.store_artwork("t2", &[1, 2, 3]);
    match m.get_artwork("t2") {
        ArtworkLookup::Hit(b) => assert_eq!(b, vec![1, 2, 3]),
        ArtworkLookup::ReadDisk => panic!("stored artwork missing"),
    }
}

#[test]
fn engine_follows_commands() {
    let mut core = EngineCore::new();
    let (events, effects) = core.handle_command(PlayerCommand::Play, CommandOutcome::NoWork);
    assert!(events.is_empty() && effects.is_empty());
    assert_eq!(core.state, PlayState::Stopped);

    let info = DecoderInfo { sample_rate: 44100, channels: 2, duration_ms: 210_000 };
    let (events, effects) = core.handle_command(
        PlayerCommand::LoadTrack("song.flac".to_string()),
        CommandOutcome::Opened(info),
    );
    assert_eq!(events, vec![EngineEvent::StateChanged(PlayState::Playing)]);
    assert_eq!(effects, vec![EngineEffect::InstallDecoder, EngineEffect::ClearBatch]);
    assert_eq!(core.total_duration_ms, 210_000);

    core.handle_command(PlayerCommand::TogglePlayPause, CommandOutcome::NoWork);
    assert_eq!(core.state, PlayState::Paused);
    core.handle_command(PlayerCommand::TogglePlayPause, CommandOutcome::NoWork);
    assert_eq!(core.state, PlayState::Playing);

    let (_, effects) = core.handle_command(
        PlayerCommand::SeekTo { secs: 45, subsec_nanos: 500_000_000 },
        CommandOutcome::SeekDone,
    );
    assert_eq!(effects, vec![EngineEffect::ClearBatch]);
    assert_eq!(core.decoded_samples_count, 45_500 * 44100 * 2 / 1000);
    assert_eq!(
        core.position(),
        Some(EngineEvent::PositionUpdated { current_ms: 45_500, total_ms: 210_000 })
    );

    let (events, effects) = core.handle_command(PlayerCommand::SetVolume(0x3F00_0000), CommandOutcome::NoWork);
    assert_eq!(events, vec![EngineEvent::VolumeChanged(0x3F00_0000)]);
    assert_eq!(effects, vec![EngineEffect::SetVolume(0x3F00_0000)]);

    let (events, _) = core.decode_finished(false);
    assert_eq!(events, vec![EngineEvent::TrackEnded, EngineEvent::StateChanged(PlayState::Stopped)]);
    assert!(core.decoder.is_none());

    let (events, _) = core.handle_command(
        PlayerCommand::LoadTrack("missing.mp3".to_string()),
        CommandOutcome::OpenFailed("not found".to_string()),
    );
    assert_eq!(events, vec![EngineEvent::ErrorOccurred("not found".to_string())]);

    let (events, effects) = core.handle_command(PlayerCommand::Stop, CommandOutcome::NoWork);
    assert_eq!(events, vec![EngineEvent::StateChanged(PlayState::Stopped)]);
    assert_eq!(effects, vec![EngineEffect::DropDecoder, EngineEffect::ClearBatch]);
    assert_eq!(core.decoded_samples_count, 0);
}

#[test]
fn scanner_extension_filter() {
    assert!(is_scannable_extension("MP3"));
    assert!(is_scannable_extension("aiff"));
    assert!(!is_scannable_extension("alac"));
    assert!(!is_scannable_extension("txt"));
}

#[test]
fn metadata_assembly_uses_tags_and_defaults() {
    let params = StreamParams {
        n_frames: Some(441_000),
        sample_rate: Some(44100),
        channel_count: Some(2),
        bits_per_sample: Some(16),
    };
    let tags = vec![
        (StandardTag::TrackTitle, "First".to_string()),
        (StandardTag::TrackTitle, "Second".to_string()),
        (StandardTag::Date, "2024".to_string()),
        (StandardTag::Date, "2024-05-01".to_string()),
        (StandardTag::TrackNumber, "7".to_string()),
    ];
    let t = MetadataExtractor::assemble_track(
        "/music/song.FLAC".to_string(),
        Some("song".to_string()),
        Some("FLAC".to_string()),
        params,
        &tags,
    );
    assert_eq!(t.title, "Second");
    assert_eq!(t.artist, "Unknown Artist");
    assert_eq!(t.album, "Unknown Album");
    assert_eq!(t.year, Some(2024));
    assert_eq!(t.track_number, Some(7));
    assert_eq!(t.duration_ms, 10_000);
    assert_eq!(t.format, AudioFormat::Flac);
    assert_eq!(t.channels, 2);

    let bare = MetadataExtractor::assemble_track(
        "noext".to_string(),
        None,
        None,
        StreamParams { n_frames: None, sample_rate: None, channel_count: None, bits_per_sample: None },
        &Vec::new(),
    );
    assert_eq!(bare.title, "Unknown Track");
    assert_eq!(bare.sample_rate, 44100);
    assert_eq!(bare.channels, 2);
    assert_eq!(bare.duration_ms, 0);
    assert_eq!(bare.format, AudioFormat::Unknown);
}

#[test]
fn paths_lose_white_space_and_quotes() {
    assert_eq!(clean_path_text("  \"C:/Music/a.mp3\"  "), "C:/Music/a.mp3");
    assert_eq!(clean_path_text("'/home/u/b.flac'"), "/home/u/b.flac");
    assert_eq!(clean_path_text("\"'x.ogg'\""), "x.ogg");
    assert_eq!(clean_path_text("plain.wav"), "plain.wav");
    assert_eq!(trim_matches_char("--a-b--", '-'), "a-b");
    assert_eq!(trim_matches_char("----", '-'), "");
}

#[test]
fn mime_hints_follow_the_extension() {
    assert_eq!(mime_hint("mp3"), Some("audio/mp3"));
    assert_eq!(mime_hint("opus"), Some("audio/ogg"));
    assert_eq!(mime_hint("mp4"), Some("audio/mp4"));
    assert_eq!(mime_hint("aif"), Some("audio/aiff"));
    assert_eq!(mime_hint("MP3"), None);
    assert_eq!(mime_hint("txt"), None);
}

#[test]
fn missing_files_and_stream_lengths() {
    assert_eq!(
        missing_file_message("/x/y.mp3"),
        "Audio file does not exist at path: '/x/y.mp3'"
    );
    assert_eq!(stream_duration_ms(Some(441_000), 44_100), 10_000);
    assert_eq!(stream_duration_ms(Some(100), 0), 0);
    assert_eq!(stream_duration_ms(None, 48_000), 0);
}

#[test]
fn missing_file_message_names_the_cleaned_path() {
    let msg = missing_file_message(&clean_path_text("\"non_existent_file_quoted.wav\""));
    assert!(msg.contains("Audio file does not exist"));
    assert!(msg.contains("non_existent_file_quoted.wav"));
    assert!(!msg.contains("\"non_existent_file_quoted.wav\""));
}

fn wav_bytes(sample_rate: u32, channels: u16, frames: u32) -> Vec<u8> {
    let block_align = channels as u32 * 2;
    let data_len = frames * block_align;
    let mut b = Vec::new();
    b.extend_from_slice(b"RIFF");
    b.extend_from_slice(&(36 + data_len).to_le_bytes());
    b.extend_from_slice(b"WAVE");
    b.extend_from_slice(b"fmt ");
    b.extend_from_slice(&16u32.to_le_bytes());
    b.extend_from_slice(&1u16.to_le_bytes());
    b.extend_from_slice(&channels.to_le_bytes());
    b.extend_from_slice(&sample_rate.to_le_bytes());
    b.extend_from_slice(&(sample_rate * block_align).to_le_bytes());
    b.extend_from_slice(&(block_align as u16).to_le_bytes());
    b.extend_from_slice(&16u16.to_le_bytes());
    b.extend_from_slice(b"data");
    b.extend_from_slice(&data_len.to_le_bytes());
    b.resize(b.len() + data_len as usize, 0);
    b
}

#[test]
fn probed_wav_becomes_a_track() {
    let bytes = wav_bytes(22_050, 2, 44_100);
    let t = MetadataExtractor::extract_from_bytes(
        "/m/tone.wav".to_string(),
        Some("tone".to_string()),
        Some("wav".to_string()),
        bytes,
    )
    .unwrap()
    .unwrap();
    assert_eq!(t.title, "tone");
    assert_eq!(t.artist, "Unknown Artist");
    assert_eq!(t.sample_rate, 22_050);
    assert_eq!(t.channels, 2);
    assert_eq!(t.duration_ms, 2_000);
    assert_eq!(t.format, AudioFormat::Wav);
    assert_eq!(t.file_path, "/m/tone.wav");
}

#[test]
fn unprobeable_bytes_are_a_decoder_error() {
    let r = MetadataExtractor::extract_from_bytes("/m/x.mp3".to_string(), None, None, vec![0u8; 16]);
    assert!(matches!(&r, Some(Err(AetherError::Decoder(m))) if m.starts_with("Probe failed: ")));
}

#[test]
fn standard_keys_name_tag_kinds() {
    assert_eq!(tag_kind(&Some("TrackTitle".to_string())), StandardTag::TrackTitle);
    assert_eq!(tag_kind(&Some("TrackNumber".to_string())), StandardTag::TrackNumber);
    assert_eq!(tag_kind(&Some("Composer".to_string())), StandardTag::Other);
    assert_eq!(tag_kind(&None), StandardTag::Other);
}

#[test]
fn cleaning_ignores_unicode_white_space_around_the_path() {
    assert_eq!(clean_path_text("\u{3000}\t \"/m/a b.mp3\" \u{2003}\u{85}"), "/m/a b.mp3");
    assert_eq!(clean_path_text("\u{a0}\n"), "");
    assert_eq!(clean_path_text(" \u{200b}x"), "\u{200b}x");
}

#[test]
fn empty_container_has_no_track() {
    let mut b = wav_bytes(44_100, 2, 0);
    b.truncate(12);
    let r = MetadataExtractor::extract_from_bytes("/m/e.wav".to_string(), None, None, b);
    assert!(matches!(&r, Some(Err(AetherError::Decoder(_)))));
}
