use aether::storage::{Database, InstantSearchEngine};
use aether::types::{AudioFormat, Track, TrackId};

fn track(title: &str, artist: &str, album: &str, genre: Option<&str>) -> Track {
    Track {
        id: TrackId::new(),
        file_path: format!("C:/Music/{title}.flac"),
        title: title.into(),
        artist: artist.into(),
        album: album.into(),
        genre: genre.map(|g| g.to_string()),
        year: None,
        track_number: None,
        duration_ms: 1000,
        bitrate: None,
        sample_rate: 44100,
        channels: 2,
        format: AudioFormat::Flac,
        replaygain_track_gain_bits: None,
        replaygain_track_peak_bits: None,
        play_count: 0,
        rating: 0,
    }
}

#[test]
fn test_database_and_tantivy_instant_search() {
    let mut db = Database::in_memory().unwrap();
    let mut search = InstantSearchEngine::new_in_memory().unwrap();

    let track = Track {
        id: TrackId::new(),
        file_path: "C:/Music/test_hebrew.flac".into(),
        title: "שיר חדש בעברית".into(),
        artist: "אמן מפורסם".into(),
        album: "אלבום בכורה".into(),
        genre: Some("Pop".into()),
        year: Some(2024),
        track_number: Some(1),
        duration_ms: 210000,
        bitrate: Some(1411),
        sample_rate: 44100,
        channels: 2,
        format: AudioFormat::Flac,
        replaygain_track_gain_bits: None,
        replaygain_track_peak_bits: None,
        play_count: 0,
        rating: 5,
    };

    db.insert_or_update_track(&track).unwrap();
    search.index_track(&track).unwrap();

    let fetched = db.get_track_by_id(&track.id).unwrap().unwrap();
    assert_eq!(fetched.title, "שיר חדש בעברית");

    let search_res = search.search("שיר", 10).unwrap();
    assert_eq!(search_res.len(), 1);
    assert_eq!(search_res[0], track.id);
}

#[test]
fn stored_track_replaces_same_id() {
    let mut db = Database::in_memory().unwrap();
    let mut t = track("One", "A", "X", None);
    db.insert_or_update_track(&t).unwrap();
    t.title = "One (remaster)".into();
    db.insert_or_update_track(&t).unwrap();
    assert_eq!(db.tracks().len(), 1);
    assert_eq!(db.get_track_by_id(&t.id).unwrap().unwrap().title, "One (remaster)");
    assert!(db.get_track_by_id(&TrackId("missing".into())).unwrap().is_none());
}

#[test]
fn search_is_case_insensitive_trimmed_and_limited() {
    let mut db = Database::in_memory().unwrap();
    let a = track("Blue Sky", "Alpha", "Open", None);
    let b = track("Red", "Beta", "Closed", Some("Blues"));
    let c = track("Green", "Gamma", "Sky High", None);
    for t in [&a, &b, &c] {
        db.insert_or_update_track(t).unwrap();
    }
    assert_eq!(db.search_fts("  BLUE ", 10).unwrap(), vec![a.id.clone(), b.id.clone()]);
    assert_eq!(db.search_fts("sky", 10).unwrap(), vec![a.id.clone(), c.id.clone()]);
    assert_eq!(db.search_fts("sky", 1).unwrap(), vec![a.id.clone()]);
    // a limit of zero still returns the first match
    assert_eq!(db.search_fts("sky", 0).unwrap(), vec![a.id.clone()]);
    assert!(db.search_fts("   ", 10).unwrap().is_empty());
    assert!(db.search_fts("nothing", 10).unwrap().is_empty());
}

#[test]
fn listing_is_sorted_by_artist_then_album() {
    let mut db = Database::in_memory().unwrap();
    let t1 = track("1", "Zed", "B", None);
    let t2 = track("2", "Abba", "Z", None);
    let t3 = track("3", "Abba", "A", None);
    let t4 = track("4", "Mia", "M", None);
    for t in [&t1, &t2, &t3, &t4] {
        db.insert_or_update_track(t).unwrap();
    }
    let all = db.get_all_tracks().unwrap();
    let titles: Vec<&str> = all.iter().map(|t| t.title.as_str()).collect();
    assert_eq!(titles, vec!["3", "2", "4", "1"]);
}

#[test]
fn index_keeps_one_entry_per_text() {
    let mut db = Database::with_path("lib.json".into());
    let t = track("Song", "Art", "Alb", Some("Rock"));
    db.index_track_fts(&t).unwrap();
    db.index_track_fts(&t).unwrap();
    assert!(db.execute_fts_init().is_ok());
    assert_eq!(db.db_path().map(|p| p.as_str()), Some("lib.json"));
    assert!(db.tracks().is_empty());
}

#[test]
fn opening_with_tracks_keeps_the_last_copy_and_indexes_all() {
    let a = track("One", "A", "X", None);
    let mut a2 = a.duplicate();
    a2.title = "One Again".into();
    let b = track("Two", "B", "Y", Some("Jazz"));
    let db = Database::open_with_tracks("lib.json".into(), vec![a, b, a2]).unwrap();
    assert_eq!(db.tracks().len(), 2);
    assert_eq!(db.tracks()[0].title, "One Again");
    assert_eq!(db.db_path().map(|p| p.as_str()), Some("lib.json"));
    assert_eq!(db.search_fts("again", 10).unwrap().len(), 1);
    assert_eq!(db.search_fts("jazz", 10).unwrap().len(), 1);
}

#[test]
fn rebuilding_the_index_changes_no_result() {
    let a = track("Blue", "A", "X", None);
    let id = a.id.clone();
    let mut db = Database::in_memory().unwrap();
    db.insert_or_update_track(&a).unwrap();
    db.rebuild_fts_index().unwrap();
    assert_eq!(db.search_fts("blue", 5).unwrap(), vec![id]);
}

#[test]
fn cleaned_search_takes_the_query_as_is() {
    let a = track("Blue Train", "Coltrane", "Blue Train", None);
    let mut db = Database::in_memory().unwrap();
    db.insert_or_update_track(&a).unwrap();
    assert_eq!(db.search_cleaned("train", 3).len(), 1);
    assert_eq!(db.search_cleaned("Train", 3).len(), 0);
    assert_eq!(db.search_cleaned("", 3).len(), 0);
    assert_eq!(db.search_cleaned("train", 0).len(), 1);
}

#[test]
fn search_engine_answers_from_its_index() {
    let mut search = InstantSearchEngine::new_in_memory().unwrap();
    let a = track("Blue Train", "Coltrane", "Blue Train", Some("Jazz"));
    let b = track("Giant Steps", "Coltrane", "Giant Steps", None);
    search.index_track(&a).unwrap();
    search.index_track(&b).unwrap();
    assert!(search.db().tracks().is_empty());
    assert_eq!(search.search("  COLTRANE ", 10).unwrap(), vec![a.id.clone(), b.id.clone()]);
    assert_eq!(search.search("coltrane", 1).unwrap(), vec![a.id.clone()]);
    assert_eq!(search.search("coltrane", 0).unwrap(), vec![a.id.clone()]);
    assert_eq!(search.search("jazz", 10).unwrap(), vec![a.id.clone()]);
    assert!(search.search("   ", 10).unwrap().is_empty());
    assert!(search.search("bebop", 10).unwrap().is_empty());
}
