use music_player_backend::cloud::{CloudPlaylist, CloudPlaylistSong};
use music_player_backend::library::{
    fts_query, is_in_scan_scope, is_onboarding_completed, is_supported_audio_format, is_unchanged_on_disk,
    is_within_boundary, normalized_name, path_starts_with_exec, pruned_paths, track_labels, track_order,
};
use music_player_backend::models::{
    new_wishlist_item, normalize_wishlist_status, DownloadConfig, MetadataConfig, RepeatMode, WishlistStatus,
};
use music_player_backend::error::AppError;
use music_player_backend::stats::{available_years, date_string, days_in_month, month_days, stats_period};
use music_player_backend::sync::{
    local_memberships, memberships_to_apply, playlists_to_apply, removed_memberships, synced_song_ids,
    tombstoned_ids, Tombstone,
};

fn s(v: &str) -> String {
    v.to_string()
}

#[test]
fn audio_formats() {
    assert!(is_supported_audio_format("/music/a.MP3"));
    assert!(is_supported_audio_format("b.opus"));
    assert!(!is_supported_audio_format("c.txt"));
    assert!(!is_supported_audio_format("noext"));
    assert!(!is_supported_audio_format(".mp3"));
    assert!(!is_supported_audio_format("/music/dir.mp3/.."));
}

#[test]
fn path_containment() {
    assert!(path_starts_with_exec("/home/u/Music/a.mp3", "/home/u/Music"));
    assert!(path_starts_with_exec("/home/u/Music", "/home/u/Music/"));
    assert!(!path_starts_with_exec("/home/u/Music2/a.mp3", "/home/u/Music"));
    assert!(!path_starts_with_exec("/home/u", "/home/u/Music"));
    assert!(is_within_boundary(Some(s("/m")), Some(s("/m/x.mp3")), None));
    assert!(!is_within_boundary(None, Some(s("/m/x.mp3")), None));
    assert!(is_within_boundary(Some(s("/m")), None, Some(s("/m/sub"))));
    assert!(!is_within_boundary(Some(s("/m")), None, Some(s("/other"))));
    assert!(!is_within_boundary(Some(s("/m")), None, None));
}

#[test]
fn scan_rules() {
    assert!(is_in_scan_scope("/m", "/m/a/b.flac", true, "/m/a/b.flac"));
    assert!(!is_in_scan_scope("/m", "/m/a/b.flac", false, "/m/a/b.flac"));
    assert!(!is_in_scan_scope("/m", "/m/a/b.flac", true, "/elsewhere/b.flac"));
    assert!(!is_in_scan_scope("/m", "/m/a/b.jpg", true, "/m/a/b.jpg"));
    assert!(is_unchanged_on_disk(true, Some((10, 20)), 10, 20));
    assert!(!is_unchanged_on_disk(false, Some((10, 20)), 10, 20));
    assert!(!is_unchanged_on_disk(true, Some((10, 21)), 10, 20));
    assert!(!is_unchanged_on_disk(true, None, 10, 20));
    let pruned = pruned_paths(&vec![s("/a"), s("/b"), s("/c")], &vec![s("/b")]);
    assert_eq!(pruned, vec![s("/a"), s("/c")]);
}

#[test]
fn scanned_labels() {
    let l = track_labels("/m/Artist - Song.MP3", Some(s("  ")), Some(s("A")), Some(s("")), None);
    assert_eq!(l.title, "Artist - Song");
    assert_eq!(l.artist.as_deref(), Some("A"));
    assert!(l.album.is_none());
    assert!(l.genre.is_none());
    assert_eq!(l.format, "mp3");
    let t = track_labels("/m/noext", Some(s("Real")), None, None, Some(s("Rock")));
    assert_eq!(t.title, "Real");
    assert_eq!(t.format, "unknown");
    assert_eq!(t.genre.as_deref(), Some("Rock"));
    let u = track_labels("/", None, None, None, None);
    assert_eq!(u.title, "Unknown Title");
}

#[test]
fn library_queries() {
    assert_eq!(normalized_name("  The BEATLES "), "the beatles");
    assert_eq!(track_order(&Some(s("artist")), true), (s("artist_name"), s("ASC")));
    assert_eq!(track_order(&Some(s("year")), false), (s("t.year"), s("DESC")));
    assert_eq!(track_order(&Some(s("; DROP TABLE")), true), (s("t.title"), s("ASC")));
    assert_eq!(track_order(&None, true).0, "t.title");
    assert_eq!(fts_query(" hey \"jude\" ").unwrap(), "\"hey jude\"*");
    assert!(fts_query("\"\" ").is_none());
    assert!(is_onboarding_completed(&Some(s("true"))));
    assert!(!is_onboarding_completed(&Some(s("TRUE"))));
    assert!(!is_onboarding_completed(&None));
}

#[test]
fn settings_and_statuses() {
    let m = MetadataConfig::default_config();
    assert_eq!(m.provider_priority, vec![s("embedded"), s("musicbrainz"), s("spotify")]);
    assert!(m.enable_musicbrainz && !m.enable_spotify);
    let d = DownloadConfig::default_config();
    assert_eq!(d.slskd_host, "localhost");
    assert_eq!(d.slskd_port, 5030);
    assert_eq!(d.max_concurrent_downloads, 2);
    assert!(d.download_dir.is_none());
    assert_eq!(RepeatMode::default_mode(), RepeatMode::Off);
    assert_eq!(normalize_wishlist_status("want").unwrap(), WishlistStatus::Want);
    assert_eq!(normalize_wishlist_status("AlreadyOwn").unwrap(), WishlistStatus::AlreadyOwn);
    assert_eq!(normalize_wishlist_status("already_own").unwrap(), WishlistStatus::AlreadyOwn);
    match normalize_wishlist_status("maybe") {
        Err(AppError::Validation(m)) => assert_eq!(m, "Invalid wishlist status: MAYBE"),
        other => panic!("unexpected {:?}", other),
    }
    assert_eq!(WishlistStatus::Downloaded.as_str(), "DOWNLOADED");
    let w = new_wishlist_item(s("wl_1"), s("T"), s("A"), None, Some(s("itunes:1")), None, 42);
    assert_eq!(w.status, "WANT");
    assert_eq!(w.created_at, 42);
    assert_eq!(w.updated_at, 42);
}

fn playlist(id: &str) -> CloudPlaylist {
    CloudPlaylist {
        id: s(id),
        user_id: s("u"),
        name: s("n"),
        description: None,
        is_smart_mix: 0,
        mix_type: None,
        created_at: 1,
        updated_at: 2,
    }
}

fn membership(p: &str, song: &str) -> CloudPlaylistSong {
    CloudPlaylistSong {
        id: format!("{}:{}", p, song),
        user_id: s("u"),
        playlist_id: s(p),
        song_id: s(song),
        position: 0,
        added_at: 0,
    }
}

fn tomb(kind: &str, id: &str) -> Tombstone {
    Tombstone { entity_type: s(kind), entity_id: s(id) }
}

#[test]
fn deletions_are_never_reapplied() {
    let ts = vec![tomb("playlist", "p2"), tomb("playlist_song", "p1:s2"), tomb("other", "p3")];
    assert_eq!(tombstoned_ids(&ts, "playlist"), vec![s("p2")]);
    assert_eq!(playlists_to_apply(&vec![playlist("p1"), playlist("p2"), playlist("p3")], &ts), vec![0, 2]);
    let remote = vec![membership("p1", "s1"), membership("p1", "s2"), membership("p2", "s1"), membership("p3", "s9")];
    assert_eq!(memberships_to_apply(&remote, &ts), vec![0, 3]);
}

#[test]
fn push_payload_parts() {
    let rows = vec![(s("p1"), s("s1"), 0i64, 10i64), (s("p1"), s("s2"), 1, 11)];
    let ms = local_memberships("u", &rows);
    assert_eq!(ms.len(), 2);
    assert_eq!(ms[1].id, "p1:s2");
    assert_eq!(ms[1].position, 1);
    assert_eq!(ms[0].user_id, "u");
    let ids = synced_song_ids(&vec![s("s1"), s("s2"), s("s1")], &vec![s("s3"), s("s2")]);
    assert_eq!(ids, vec![s("s1"), s("s2"), s("s3")]);
    let refs = removed_memberships(&vec![
        tomb("playlist_song", "p1:s2:x"),
        tomb("playlist_song", "nocolon"),
        tomb("playlist", "p1:s1"),
    ]);
    assert_eq!(refs.len(), 1);
    assert_eq!(refs[0].playlist_id, "p1");
    assert_eq!(refs[0].song_id, "s2:x");
}

#[test]
fn statistics_calendar() {
    assert_eq!(stats_period(None, None, 2025, 6), (2025, 6));
    assert_eq!(stats_period(Some(2023), None, 2025, 6), (2023, 12));
    assert_eq!(stats_period(Some(2025), Some(2), 2025, 6), (2025, 2));
    assert_eq!(days_in_month(2024, 2), 29);
    assert_eq!(days_in_month(1900, 2), 28);
    assert_eq!(days_in_month(2000, 2), 29);
    assert_eq!(days_in_month(2023, 4), 30);
    assert_eq!(days_in_month(2023, 13), 30);
    assert_eq!(date_string(2024, 3, 5), "2024-03-05");
    assert_eq!(date_string(7, 12, 31), "0007-12-31");
    assert_eq!(date_string(-5, 1, 1), "-005-01-01");
    let days = month_days(2023, 2);
    assert_eq!(days.len(), 28);
    assert_eq!(days[27], (28, s("2023-02-28")));
    assert_eq!(available_years(&vec![2021, 2024, 2022], 2025), vec![2025, 2024, 2022, 2021]);
    assert_eq!(available_years(&vec![2025, 2020], 2025), vec![2025, 2020]);
}
