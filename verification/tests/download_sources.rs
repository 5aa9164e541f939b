use music_player_backend::archive::{
    audio_extension, parse_item, quote_term, safe_name, search_query, valid_identifier, ArchiveEntry,
    ArchiveItem, ArchiveMetadata, ArchiveSize, MetaValue,
};
use music_player_backend::audius::{parse_tracks, AudiusPayload, AudiusTrack, Conditions};
use music_player_backend::ytdlp::{
    candidate_fields, destination_stem, download_search_term, is_flac, playback_download_result,
    search_entry_results, stream_search_term, video_id, YtSearchEntry,
};

fn text(s: &str) -> Option<MetaValue> {
    Some(MetaValue::Text(s.to_string()))
}

fn entry(name: &str, title: Option<&str>, size: &str) -> ArchiveEntry {
    ArchiveEntry {
        name: Some(name.to_string()),
        size: ArchiveSize::Text(size.to_string()),
        artist: None,
        title: title.map(|t| MetaValue::Text(t.to_string())),
    }
}

fn licensed(creator: &str, title: Option<&str>, files: Vec<ArchiveEntry>) -> ArchiveItem {
    ArchiveItem {
        metadata: ArchiveMetadata {
            licenseurl: text("https://creativecommons.org/licenses/by/4.0/"),
            creator: text(creator),
            title: title.and_then(text),
        },
        files: Some(files),
    }
}

#[test]
fn only_licensed_audio_files_become_results() {
    let item = licensed(
        "Kato",
        Some("Album"),
        vec![entry("01 - Pokémon Center.mp3", Some("Pokémon Center"), "1234"), entry("cover.jpg", None, "123")],
    );
    let results = parse_item("kato-album", &item);
    assert_eq!(results.len(), 1);
    assert_eq!(results[0].0.filename, "Kato - Pokémon Center.mp3");
    assert_eq!(results[0].0.provider, "internet-archive");
    assert!(results[0].1.url.as_str().contains("Pok%C3%A9mon%20Center.mp3"));
    let mut unlicensed = item;
    unlicensed.metadata.licenseurl = None;
    assert!(parse_item("kato-album", &unlicensed).is_empty());
}

#[test]
fn rejects_unsafe_archive_paths() {
    let item = licensed("Kato", None, vec![entry("../song.mp3", Some("Song"), "1234")]);
    assert!(parse_item("safe-id", &item).is_empty());
    assert!(parse_item("../unsafe", &item).is_empty());
}

#[test]
fn archive_result_fields_and_ids() {
    let item = licensed(
        "Kato",
        Some("Album"),
        vec![entry("cover.jpg", None, "10"), entry("disc/02 Song.FLAC", Some("Song"), "2048")],
    );
    let results = parse_item("kato-album", &item);
    assert_eq!(results.len(), 1);
    let r = &results[0].0;
    assert_eq!(r.id, "archive_kato-album_1");
    assert_eq!(r.username, "Kato");
    assert_eq!(r.format, "flac");
    assert_eq!(r.file_size, 2048);
    assert!(results[0].1.url.contains("kato-album/disc/02%20Song.FLAC"));
}

#[test]
fn archive_single_audio_file_takes_item_title() {
    let item = licensed("Kato", Some("Whole Album"), vec![entry("track.ogg", None, "99")]);
    let results = parse_item("x1", &item);
    assert_eq!(results.len(), 1);
    assert_eq!(results[0].0.filename, "Kato - Whole Album.ogg");
}

#[test]
fn archive_rejects_bad_sizes_and_other_licenses() {
    let zero = licensed("Kato", None, vec![entry("a.mp3", Some("A"), "0")]);
    assert!(parse_item("x", &zero).is_empty());
    let huge = licensed("Kato", None, vec![entry("a.mp3", Some("A"), "2000000001")]);
    assert!(parse_item("x", &huge).is_empty());
    let bad = licensed("Kato", None, vec![entry("a.mp3", Some("A"), "abc")]);
    assert!(parse_item("x", &bad).is_empty());
    let mut other = licensed("Kato", None, vec![entry("a.mp3", Some("A"), "5")]);
    other.metadata.licenseurl = text("https://example.org/licenses/by/4.0/");
    assert!(parse_item("x", &other).is_empty());
    let mut listed = licensed("Kato", None, vec![entry("a.mp3", Some("A"), "5")]);
    listed.metadata.licenseurl = Some(MetaValue::List(vec![
        None,
        Some("https://creativecommons.org/publicdomain/zero/1.0/".to_string()),
    ]));
    assert_eq!(parse_item("x", &listed).len(), 1);
}

#[test]
fn archive_caps_results_at_eight() {
    let files: Vec<ArchiveEntry> = (0..12).map(|i| entry(&format!("t{}.mp3", i), Some("T"), "10")).collect();
    let item = licensed("Kato", None, files);
    let results = parse_item("many", &item);
    assert_eq!(results.len(), 8);
    assert_eq!(results[7].0.id, "archive_many_7");
}

#[test]
fn archive_small_rules() {
    assert_eq!(quote_term("a\"b\\c"), "a\\\"b\\\\c");
    assert!(valid_identifier("kato-album_1.0"));
    assert!(!valid_identifier(""));
    assert!(!valid_identifier("bad id"));
    assert!(!valid_identifier(&"a".repeat(101)));
    assert_eq!(audio_extension("x.MP3"), Some("mp3"));
    assert_eq!(audio_extension("x.tar.wav"), Some("wav"));
    assert_eq!(audio_extension("x.txt"), None);
    assert_eq!(safe_name("  a/b\u{7}c  "), "a_b_c");
    assert_eq!(search_query("  ", " "), None);
    assert_eq!(search_query("", "Song").unwrap(), "mediatype:(audio OR etree) AND (title:\"Song\")");
    assert_eq!(
        search_query("Kato", "Song").unwrap(),
        "mediatype:(audio OR etree) AND (creator:\"Kato\" OR title:\"Song\" OR title:\"Kato Song\")"
    );
    assert_eq!(
        search_query("Kato", "").unwrap(),
        "mediatype:(audio OR etree) AND (creator:\"Kato\" OR title:\"Kato\")"
    );
}

fn track(id: &str, title: &str, artist: &str, downloadable: Option<bool>) -> AudiusTrack {
    AudiusTrack {
        id: Some(id.to_string()),
        user_name: Some(artist.to_string()),
        title: Some(title.to_string()),
        downloadable,
        is_download_gated: None,
        is_stream_gated: None,
        is_purchaseable: None,
        is_purchasable: None,
        access_download: None,
        download_conditions: Conditions::Absent,
        stream_conditions: Conditions::Absent,
    }
}

#[test]
fn only_public_downloadable_tracks_are_offered() {
    let good = track("good1", "Pokémon Center", "Kato", Some(true));
    let mut locked = track("bad1", "Locked", "Kato", Some(true));
    locked.download_conditions = Conditions::Object { entries: 1 };
    let mut paid = track("bad2", "Paid", "Kato", Some(true));
    paid.is_purchaseable = Some(true);
    let stream_only = track("bad3", "Stream only", "Kato", Some(false));
    let payload = AudiusPayload { data: Some(vec![good, locked, paid, stream_only]) };
    let results = parse_tracks(&payload);
    assert_eq!(results.len(), 1);
    assert_eq!(results[0].filename, "Kato - Pokémon Center.mp3");
    assert_eq!(results[0].provider, "audius");
}

#[test]
fn rejects_invalid_track_ids_and_names() {
    let payload = AudiusPayload {
        data: Some(vec![track("../bad", "Song", "Artist", Some(true)), track("good", "", "Artist", Some(true))]),
    };
    assert!(parse_tracks(&payload).is_empty());
}

#[test]
fn audius_result_fields() {
    let mut t = track("abc123", "  Song  ", " Artist ", Some(true));
    t.stream_conditions = Conditions::Null;
    t.download_conditions = Conditions::Object { entries: 0 };
    let results = parse_tracks(&AudiusPayload { data: Some(vec![t]) });
    assert_eq!(results.len(), 1);
    assert_eq!(results[0].id, "audius_abc123");
    assert_eq!(results[0].username, "Artist");
    assert_eq!(results[0].format, "mp3");
    assert!(parse_tracks(&AudiusPayload { data: None }).is_empty());
    let mut gated = track("abc", "S", "A", Some(true));
    gated.access_download = Some(false);
    assert!(parse_tracks(&AudiusPayload { data: Some(vec![gated]) }).is_empty());
    let missing = track("abc", "S", "A", None);
    assert!(parse_tracks(&AudiusPayload { data: Some(vec![missing]) }).is_empty());
}

fn fields(parts: &[&str]) -> Vec<String> {
    parts.iter().map(|s| s.to_string()).collect()
}

#[test]
fn resolved_video_keeps_its_real_title_and_stable_id() {
    let lines = fields(&["https://audio.example/stream", "180", "aB0_-123456", "Littleroot Town (Piano)", "Kato"]);
    let result = playback_download_result(&lines, 180_000).expect("video metadata");
    assert_eq!(result.id, "ytdlp_stream_mp3_aB0_-123456");
    assert_eq!(result.filename, "Kato - Littleroot Town (Piano).mp3");
    assert!(playback_download_result(&lines[..2].to_vec(), 180_000).is_none());
    let invalid = fields(&[&lines[0], &lines[1], "../bad-id", &lines[3], &lines[4]]);
    assert!(playback_download_result(&invalid, 180_000).is_none());
}

#[test]
fn stream_offer_sizes_and_placeholders() {
    let lines = fields(&["u", "d", "abcdefghijk", "Song", "Artist"]);
    assert_eq!(playback_download_result(&lines, 220_000).unwrap().file_size, 8_800_000);
    assert_eq!(playback_download_result(&lines, 9_000_000).unwrap().file_size, 288_000_000);
    let na = fields(&["u", "d", "abcdefghijk", "NA", "Artist"]);
    assert!(playback_download_result(&na, 1000).is_none());
    let slash = fields(&["u", "d", "abcdefghijk", "A/B", "C:D"]);
    assert_eq!(playback_download_result(&slash, 1000).unwrap().filename, "C_D - A_B.mp3");
}

#[test]
fn resolver_line_fields() {
    let full = candidate_fields("  https://example.com/full.m4a\t220\tabcdefghijk\tSong\tArtist\textra ").unwrap();
    assert_eq!(full, fields(&["https://example.com/full.m4a", "220", "abcdefghijk", "Song", "Artist\textra"]));
    assert!(candidate_fields("ftp://x\t1\t2\t3\t4").is_none());
    assert!(candidate_fields("https://x\t1\t2").is_none());
}

fn hit(id: Option<&str>, title: Option<&str>, duration: i64) -> YtSearchEntry {
    YtSearchEntry {
        id: id.map(|s| s.to_string()),
        title: title.map(|s| s.to_string()),
        uploader: Some("Up/Loader".to_string()),
        duration_secs: duration,
    }
}

#[test]
fn ytdlp_search_hits() {
    let r = search_entry_results(&hit(Some("vid1"), Some("Song"), 200));
    assert_eq!(r.len(), 2);
    assert_eq!(r[0].id, "ytdlp_flac_vid1");
    assert_eq!(r[0].file_size, 24_000_000);
    assert_eq!(r[0].filename, "Up_Loader - Song.flac");
    assert_eq!(r[1].id, "ytdlp_mp3_vid1");
    assert_eq!(r[1].file_size, 8_000_000);
    assert_eq!(r[1].bitrate, Some(320));
    assert!(search_entry_results(&hit(Some("v"), Some("Song"), 29)).is_empty());
    assert!(search_entry_results(&hit(Some("v"), Some("Song"), 721)).is_empty());
    assert!(search_entry_results(&hit(Some("v"), Some("City TOUR 2020"), 200)).is_empty());
    assert!(search_entry_results(&hit(None, Some("Song"), 200)).is_empty());
    let untitled = search_entry_results(&hit(Some("v"), None, 100));
    assert_eq!(untitled[1].filename, "Up_Loader - Unknown Title.mp3");
}

#[test]
fn ytdlp_naming_rules() {
    assert_eq!(video_id("ytdlp_stream_mp3_abc"), "abc");
    assert_eq!(video_id("ytdlp_flac_abc"), "abc");
    assert_eq!(video_id("ytdlp_mp3_abc"), "abc");
    assert_eq!(video_id("ytdlp_abc"), "abc");
    assert_eq!(video_id("other"), "other");
    assert!(is_flac("ytdlp_flac_x", "mp3"));
    assert!(is_flac("x", "FLAC"));
    assert!(!is_flac("x", "mp3"));
    assert_eq!(destination_stem("Artist - Song.mp3"), "Artist - Song");
    assert_eq!(destination_stem("a/b.mp3"), "a_b");
    assert_eq!(destination_stem(".."), "track");
    assert_eq!(download_search_term("  q  ").unwrap(), "ytsearch30:q");
    assert_eq!(stream_search_term("q").unwrap(), "ytsearch5:q");
    assert!(download_search_term("   ").is_none());
}
