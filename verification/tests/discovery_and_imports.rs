use music_player_backend::charts::{
    chart_entry_record, chart_urls, regional_item_record, regional_search_url, ChartEntry, ChartLink, RegionalItem,
};
use music_player_backend::commands::{
    duplicate_playlist_error, is_clean_title, is_local_file_track, needs_online_ensure, playlist_song_entity_id,
    top_up_online_results,
};
use music_player_backend::discovery::DiscoveryRecommendation;
use music_player_backend::downloads::DownloadSearchResult;
use music_player_backend::error::AppError;
use music_player_backend::genre::{genre_matches, map_genre_to_itunes_genre_id, url_encode};
use music_player_backend::imports::{
    device_name_for_os, get_client_version, marks_downloaded, match_counts, playlist_track, spotify_embed_url,
    spotify_page_data, spotify_playlist_id, wishlist_entry,
};
use music_player_backend::matcher::{FuzzyTrackMatcher, LocalTrackCandidate, MatchStatus};
use music_player_backend::media::{cover_candidates, image_data_url, image_mime, picture_mime, split_lyrics};
use music_player_backend::models::wishlist_stub_track;

fn s(v: &str) -> String {
    v.to_string()
}

#[test]
fn normalization_strips_noise() {
    assert_eq!(FuzzyTrackMatcher::normalize_string("Pokémon Center (Remastered 2011)"), "pokemon center");
    assert_eq!(FuzzyTrackMatcher::normalize_string("The Song [Deluxe]"), "song");
    assert_eq!(FuzzyTrackMatcher::normalize_string("Hello feat. Someone"), "hello");
    assert_eq!(FuzzyTrackMatcher::normalize_string("  Rock   &  Roll!! "), "rock roll");
    assert_eq!(FuzzyTrackMatcher::normalize_string("An Apple"), "apple");
    assert_eq!(MatchStatus::LikelyMatch.as_str(), "LIKELY_MATCH");
}

#[test]
fn lofi_and_name_matching() {
    assert!(FuzzyTrackMatcher::is_lofi_indicator("Chill LoFi beats"));
    assert!(FuzzyTrackMatcher::is_lofi_indicator("lo-fi"));
    assert!(!FuzzyTrackMatcher::is_lofi_indicator("Rock"));
    assert!(FuzzyTrackMatcher::artists_match("Eminem", "Eminem, Nate Dogg"));
    assert!(FuzzyTrackMatcher::artists_match("The Beatles", "beatles"));
    assert!(!FuzzyTrackMatcher::artists_match("", "x"));
    assert!(!FuzzyTrackMatcher::artists_match("Adele", "Drake"));
    assert!(FuzzyTrackMatcher::titles_match("Pokémon Center", "pokemon center"));
    assert!(!FuzzyTrackMatcher::titles_match("Pokemon Center", "Pokemon Theme"));
    assert!(!FuzzyTrackMatcher::titles_match("Hello", "Goodbye"));
}

fn cand(id: &str, title: &str, artist: &str, ms: u64, lofi: bool) -> LocalTrackCandidate {
    LocalTrackCandidate { id: s(id), title: s(title), artist: s(artist), duration_ms: ms, is_lofi: lofi }
}

#[test]
fn best_match_rules() {
    let cands = vec![cand("1", "Song", "Other", 200_000, false), cand("2", "Song", "Artist", 200_000, false)];
    let m = FuzzyTrackMatcher::find_best_match("Song", "Artist", Some(205_000), false, &cands);
    assert_eq!(m.status, MatchStatus::ExactMatch);
    assert_eq!(m.matched_track_id.as_deref(), Some("2"));
    let far = FuzzyTrackMatcher::find_best_match("Song", "Artist", Some(260_000), false, &cands);
    assert_eq!(far.status, MatchStatus::ExactMatch);
    let none = FuzzyTrackMatcher::find_best_match("Song", "Nobody", None, false, &cands);
    assert_eq!(none.status, MatchStatus::NotFound);
    assert!(none.matched_track_id.is_none());
    let lofi = vec![cand("9", "Rain", "Someone", 100_000, true)];
    let l = FuzzyTrackMatcher::find_best_match("Rain", "Other", None, true, &lofi);
    assert_eq!(l.status, MatchStatus::LikelyMatch);
    assert_eq!(l.matched_track_id.as_deref(), Some("9"));
}

#[test]
fn genre_rules() {
    assert_eq!(map_genre_to_itunes_genre_id("Hip-Hop/Rap"), Some(18));
    assert_eq!(map_genre_to_itunes_genre_id("zzz"), None);
    assert!(genre_matches("Rap", "hip hop"));
    assert!(!genre_matches("Classical", "metal"));
    assert_eq!(url_encode("a b&c/é"), "a%20b%26c%2F%C3%A9");
    assert_eq!(url_encode("A-z_0.~"), "A-z_0.~");
    assert_eq!(url_encode(""), "");
}

#[test]
fn chart_feeds() {
    let urls = chart_urls(&vec![s("us"), s("jp")], &vec![18, 14, 7, 21]);
    assert_eq!(
        urls,
        vec![
            s("https://itunes.apple.com/us/rss/topsongs/limit=25/json"),
            s("https://itunes.apple.com/jp/rss/topsongs/limit=25/json"),
            s("https://itunes.apple.com/us/rss/topsongs/limit=25/genre=18/json"),
            s("https://itunes.apple.com/us/rss/topsongs/limit=25/genre=14/json"),
            s("https://itunes.apple.com/us/rss/topsongs/limit=25/genre=7/json"),
        ]
    );
    assert_eq!(
        regional_search_url("malayalam hits"),
        "https://itunes.apple.com/search?term=malayalam+hits&country=in&media=music&entity=song&limit=25"
    );
}

#[test]
fn chart_entries_become_records() {
    let e = ChartEntry {
        name: Some(s(" Song ")),
        artist: Some(s("Artist")),
        collection: None,
        images: Some(vec![Some(s("small")), Some(s("large"))]),
        itunes_id: None,
        category: Some(s("Pop")),
        links: Some(vec![
            ChartLink { rel: Some(s("alternate")), href: Some(s("page")) },
            ChartLink { rel: Some(s("enclosure")), href: None },
            ChartLink { rel: Some(s("enclosure")), href: Some(s("preview.m4a")) },
        ]),
    };
    let r = chart_entry_record(&e, 9).unwrap();
    assert_eq!(r.id, "itunes:Artist:Song");
    assert_eq!(r.provider_id, "Song");
    assert_eq!(r.album.as_deref(), Some("Pop"));
    assert_eq!(r.cover_art_url.as_deref(), Some("large"));
    assert_eq!(r.preview_url.as_deref(), Some("preview.m4a"));
    assert_eq!(r.match_status, "NOT_FOUND");
    assert_eq!(r.duration_ms, Some(30_000));
    let blank = ChartEntry { name: Some(s("  ")), ..e };
    assert!(chart_entry_record(&blank, 9).is_none());
    let it = RegionalItem {
        track_name: Some(s("Paattu")),
        artist_name: Some(s("Singer")),
        collection_name: None,
        artwork_url: None,
        preview_url: None,
        track_id: Some(s("123")),
        primary_genre_name: None,
    };
    let rr = regional_item_record(&it, 1).unwrap();
    assert_eq!(rr.id, "itunes:123");
    assert_eq!(rr.provider_id, "123");
    assert_eq!(rr.genre.as_deref(), Some("Malayalam"));
}

fn rec(title: &str, artist: &str) -> DiscoveryRecommendation {
    DiscoveryRecommendation {
        external_track_id: format!("itunes:{}", title),
        provider: s("itunes"),
        provider_id: s(title),
        title: s(title),
        artist: s(artist),
        album: None,
        duration_ms: None,
        cover_art_url: None,
        preview_url: None,
        genre: None,
        match_status: MatchStatus::NotFound,
        matched_local_track_id: None,
        recommendation_reason: s("r"),
        in_wishlist: false,
    }
}

fn dl(id: &str, filename: &str, user: &str) -> DownloadSearchResult {
    DownloadSearchResult {
        id: s(id),
        provider: s("yt-dlp"),
        username: s(user),
        filename: s(filename),
        file_size: 0,
        bitrate: None,
        sample_rate: None,
        format: s("mp3"),
        slots_free: true,
        speed_bps: 0,
    }
}

#[test]
fn online_search_is_topped_up_with_stream_sources() {
    let results = vec![rec("Song", "Artist")];
    let downloads = vec![
        dl("a", "Artist - Song.mp3", "u"),
        dl("b", "Other - Tune.flac.mp3", "u"),
        dl("c", "Loose Name.mp3", "Uploader"),
        dl("d", "More - Stuff.mp3", "u"),
    ];
    let wishlist = vec![(s("OTHER"), s("tune"))];
    let cands = vec![cand("L1", "Tune", "Other", 1, false)];
    let out = top_up_online_results(results, Some(downloads), &cands, &wishlist, "  q ", 3);
    assert_eq!(out.len(), 3);
    assert_eq!(out[1].title, "Tune");
    assert_eq!(out[1].artist, "Other");
    assert_eq!(out[1].external_track_id, "download:b");
    assert!(out[1].in_wishlist);
    assert_eq!(out[1].match_status, MatchStatus::ExactMatch);
    assert_eq!(out[1].recommendation_reason, "Stream source for \"q\"");
    assert_eq!(out[2].artist, "Uploader");
    assert_eq!(out[2].title, "Loose Name");
    assert_eq!(out[2].duration_ms, Some(210_000));
    let many: Vec<DiscoveryRecommendation> = (0..5).map(|i| rec(&format!("S{}", i), "A")).collect();
    assert_eq!(top_up_online_results(many, Some(vec![dl("x", "A - B.mp3", "u")]), &cands, &wishlist, "q", 30).len(), 5);
    assert_eq!(top_up_online_results(vec![], None, &cands, &wishlist, "q", 30).len(), 0);
}

#[test]
fn playlist_request_rules() {
    assert!(needs_online_ensure(&None));
    assert!(needs_online_ensure(&Some((s("itunes:123"), s("mp3")))));
    assert!(needs_online_ensure(&Some((s("Song"), s("online")))));
    assert!(!needs_online_ensure(&Some((s("Song"), s("flac")))));
    assert!(is_clean_title(&Some(s("Song"))));
    assert!(!is_clean_title(&Some(s("  "))));
    assert!(!is_clean_title(&Some(s("online:1"))));
    assert!(!is_clean_title(&None));
    assert!(is_local_file_track("t1", "mp3", "/m/a.mp3"));
    assert!(!is_local_file_track("itunes:1", "mp3", "/m/a.mp3"));
    assert!(!is_local_file_track("t1", "online", "/m/a.mp3"));
    assert!(!is_local_file_track("t1", "mp3", "online://x"));
    assert_eq!(playlist_song_entity_id("p", "t"), "p:t");
    match duplicate_playlist_error("Mix") {
        AppError::Validation(m) => assert_eq!(m, "A playlist named 'Mix' already exists"),
        other => panic!("unexpected {:?}", other),
    }
}

#[test]
fn spotify_import_parts() {
    assert_eq!(spotify_playlist_id("https://open.spotify.com/playlist/37i9dQ?si=abc"), "37i9dQ");
    assert_eq!(spotify_playlist_id(" 37i9dQ "), "37i9dQ");
    assert_eq!(spotify_embed_url("x"), "https://open.spotify.com/embed/playlist/x");
    let html = "<html><script id=\"__NEXT_DATA__\" type=\"application/json\">{\"a\":1}</script></html>";
    assert_eq!(spotify_page_data(html).unwrap(), "{\"a\":1}");
    match spotify_page_data("<html></html>") {
        Err(AppError::ExternalApi { provider, message }) => {
            assert_eq!(provider, "spotify");
            assert_eq!(message, "Unable to parse Spotify playlist payload");
        }
        other => panic!("unexpected {:?}", other),
    }
    match spotify_page_data("<script id=\"__NEXT_DATA__\" type=\"application/json\">{") {
        Err(AppError::ExternalApi { message, .. }) => assert_eq!(message, "Invalid Spotify response format"),
        other => panic!("unexpected {:?}", other),
    }
    assert_eq!(playlist_track(&Some(s(" T ")), &None), Some((s("T"), s("Unknown Artist"))));
    assert_eq!(playlist_track(&Some(s("  ")), &Some(s("A"))), None);
    assert_eq!(
        match_counts(&vec![MatchStatus::ExactMatch, MatchStatus::PossibleMatch, MatchStatus::LikelyMatch]),
        (2, 1)
    );
    assert_eq!(wishlist_entry(&Some(s(" T ")), &Some(s(" A "))), Some((s("T"), s("A"))));
    assert_eq!(wishlist_entry(&Some(s("T")), &None), None);
    assert!(marks_downloaded("want", MatchStatus::LikelyMatch));
    assert!(!marks_downloaded("WANT", MatchStatus::LikelyMatch));
    assert!(!marks_downloaded("want", MatchStatus::PossibleMatch));
}

#[test]
fn device_identity() {
    assert_eq!(device_name_for_os("linux"), "Linux Desktop");
    assert_eq!(device_name_for_os("windows"), "Windows PC");
    assert_eq!(device_name_for_os("macos"), "macOS Desktop");
    assert_eq!(device_name_for_os("freebsd"), "freebsd Desktop");
    assert_eq!(get_client_version(), "0.1.0");
}

#[test]
fn cover_art_and_lyrics() {
    assert_eq!(cover_candidates()[0], "cover.jpg");
    assert_eq!(cover_candidates().len(), 7);
    assert_eq!(image_mime("folder.png"), "image/png");
    assert_eq!(image_mime("cover.jpg"), "image/jpeg");
    assert_eq!(picture_mime(&None), "image/jpeg");
    assert_eq!(picture_mime(&Some(s("image/gif"))), "image/gif");
    assert_eq!(image_data_url("image/png", &b"hello".to_vec()), "data:image/png;base64,aGVsbG8=");
    assert_eq!(image_data_url("image/png", &vec![]), "data:image/png;base64,");
    assert_eq!(split_lyrics(s("[00:01] la")), (None, Some(s("[00:01] la"))));
    assert_eq!(split_lyrics(s("plain [words")), (Some(s("plain [words")), None));
}

#[test]
fn wishlist_placeholder_track() {
    let t = wishlist_stub_track(&s("ext1"), &s("T"), &s("A"), &Some(s("Al")), 5);
    assert_eq!(t.provider, "custom");
    assert_eq!(t.provider_id, "ext1");
    assert_eq!(t.match_status, "NOT_FOUND");
    assert_eq!(t.album.as_deref(), Some("Al"));
    assert_eq!(t.created_at, 5);
}
