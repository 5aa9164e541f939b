use music_player_backend::archive::is_license_location;
use music_player_backend::downloads::DownloadStatus;
use music_player_backend::genre::{
    genre_id_for_lowercase, genre_matches, genres_match_lowercase, map_genre_to_itunes_genre_id,
};
use music_player_backend::matcher::{normalize_lowercase, FuzzyTrackMatcher};
use music_player_backend::sync::{merge_song_counters, stat_user_id, SongCounters};
use music_player_backend::taste::{needs_refresh, taste_signals};
use music_player_backend::text::{char_is_control, char_is_whitespace, trim_str};

#[test]
fn character_classes_agree_with_std() {
    for n in 0u32..0x11_0000 {
        if let Some(c) = char::from_u32(n) {
            assert_eq!(char_is_whitespace(c), c.is_whitespace(), "whitespace {:#x}", n);
            assert_eq!(char_is_control(c), c.is_control(), "control {:#x}", n);
        }
    }
}

#[test]
fn trim_removes_all_unicode_whitespace() {
    let t: String = trim_str("\u{3000}\t Song \u{a0}\n").into_iter().collect();
    assert_eq!(t, "Song");
}

#[test]
fn normalisation_removes_diacritics() {
    assert_eq!(FuzzyTrackMatcher::normalize_string("Dvořák"), "dvorak");
    assert_eq!(FuzzyTrackMatcher::normalize_string("Pokémon"), "pokemon");
    assert_eq!(FuzzyTrackMatcher::normalize_string("Nausicaä"), "nausicaa");
    assert_eq!(FuzzyTrackMatcher::normalize_string("Dvor\u{30c}a\u{301}k"), "dvorak");
    assert_eq!(FuzzyTrackMatcher::normalize_string("Sigur Rós (Live) feat. X"), "sigur ros");
    assert_eq!(FuzzyTrackMatcher::normalize_string("Łódź Ţară Việt"), "lodz tara viet");
    assert_eq!(normalize_lowercase("the ćwiczenie"), "cwiczenie");
}

#[test]
fn lofi_on_lowercase_text() {
    assert!(FuzzyTrackMatcher::is_lofi_lowercase("chill beats to study"));
    assert!(!FuzzyTrackMatcher::is_lofi_lowercase("LOFI"));
    assert!(FuzzyTrackMatcher::is_lofi_indicator("LOFI"));
}

#[test]
fn genre_rules_ignore_ascii_case() {
    assert_eq!(genre_id_for_lowercase("hip-hop/rap"), Some(18));
    assert_eq!(genre_id_for_lowercase("JAZZ"), None);
    assert_eq!(map_genre_to_itunes_genre_id("JAZZ"), Some(11));
    assert_eq!(map_genre_to_itunes_genre_id("jazz"), map_genre_to_itunes_genre_id("JaZz"));
    assert_eq!(map_genre_to_itunes_genre_id("Trap"), Some(18));
    assert!(genres_match_lowercase("rap", "hip hop"));
    assert!(!genre_matches("", "rock"));
    assert!(!genre_matches("rock", ""));
    assert!(genre_matches("Ümlaut", "Ümlaut"));
    assert_eq!(genre_matches("INDIAN", "soundtrack"), genre_matches("indian", "SOUNDTRACK"));
}

#[test]
fn license_location_rules() {
    let cc = Some("creativecommons.org".to_string());
    assert!(is_license_location(&cc, "/licenses/by/4.0/"));
    assert!(is_license_location(&cc, "/publicdomain/zero/1.0/"));
    assert!(!is_license_location(&cc, "/about/"));
    assert!(!is_license_location(&None, "/licenses/by/4.0/"));
    assert!(!is_license_location(&Some("example.org".to_string()), "/licenses/by/4.0/"));
}

#[test]
fn status_names_read_back_in_any_case() {
    for st in [
        DownloadStatus::Queued,
        DownloadStatus::Downloading,
        DownloadStatus::Completed,
        DownloadStatus::Failed,
        DownloadStatus::Cancelled,
    ] {
        assert_eq!(DownloadStatus::from_str(st.as_str()), st);
        assert_eq!(DownloadStatus::from_str(&st.as_str().to_lowercase()), st);
    }
}

#[test]
fn synced_counters_keep_the_larger_counts() {
    let local = SongCounters {
        play_count: 5,
        completion_count: 1,
        skip_count: 7,
        last_played_at: None,
        manual_like: 1,
    };
    let remote = SongCounters {
        play_count: 3,
        completion_count: 4,
        skip_count: 2,
        last_played_at: Some(1_700),
        manual_like: -1,
    };
    let m = merge_song_counters(Some(local), remote);
    assert_eq!(
        m,
        SongCounters { play_count: 5, completion_count: 4, skip_count: 7, last_played_at: Some(1_700), manual_like: -1 }
    );
    assert_eq!(merge_song_counters(Some(m), remote), m);
    assert_eq!(merge_song_counters(None, remote), remote);
    let other = merge_song_counters(Some(remote), local);
    assert_eq!(other.play_count, m.play_count);
    assert_eq!(other.last_played_at, m.last_played_at);
    assert_eq!(stat_user_id("", "me"), "me");
    assert_eq!(stat_user_id("you", "me"), "you");
}

fn so(v: &str) -> Option<String> {
    Some(v.to_string())
}

fn strs(v: &[&str]) -> Vec<String> {
    v.iter().map(|x| x.to_string()).collect()
}

#[test]
fn taste_signals_rank_genres_and_pick_storefronts() {
    let genres = vec![so("Rock"), so(" rock "), so("Jazz"), None, so("")];
    let artists = vec![so("YOASOBI"), so("yoasobi"), None, so(" ")];
    let titles = strs(&["Malare", "x"]);
    let t = taste_signals(&genres, &artists, &titles, &strs(&[" Queen ", "queen"]), &strs(&["Anime"]));
    assert_eq!(t.ranked_genres, strs(&["anime", "rock", "jazz"]));
    assert_eq!(t.genre_ids, vec![21, 11]);
    assert_eq!(t.library_artists, strs(&["yoasobi"]));
    assert_eq!(t.listened_artists, strs(&["queen"]));
    assert!(t.has_malayalam);
    assert_eq!(t.storefronts, strs(&["us", "jp", "in"]));
    assert_eq!(t.regional_queries, strs(&["malayalam", "malayalam hits"]));
}

#[test]
fn taste_signals_keep_three_genre_ids_and_first_occurrence_on_ties() {
    let genres = vec![so("Rock"), so("Jazz"), so("Country"), so("Reggae"), so("Pop")];
    let t = taste_signals(&genres, &vec![], &vec![], &vec![], &vec![]);
    assert_eq!(t.ranked_genres, strs(&["rock", "jazz", "country", "reggae", "pop"]));
    assert_eq!(t.genre_ids, vec![21, 11, 6]);
    assert_eq!(t.storefronts, strs(&["us"]));
    assert!(t.regional_queries.is_empty());
    let latin = taste_signals(&vec![so("Reggaeton")], &vec![], &vec![], &vec![], &vec![]);
    assert_eq!(latin.storefronts, strs(&["us", "br"]));
}

#[test]
fn pool_refresh_rules() {
    assert!(!needs_refresh(false, true, 0, 0, 10, false));
    assert!(needs_refresh(true, true, 50, 300, 10, true));
    assert!(needs_refresh(true, false, 9, 300, 10, true));
    assert!(needs_refresh(true, false, 50, 5, 10, true));
    assert!(needs_refresh(true, false, 50, 300, 10, false));
    assert!(!needs_refresh(true, false, 10, 10, 10, true));
}

#[test]
fn normal_forms_are_tidy() {
    let r = FuzzyTrackMatcher::normalize_string("  ÉCOLE -- Über\tDie  BRÜCKE!! ");
    assert_eq!(r, "ecole uber die brucke");
    assert!(r.chars().all(|c| c.is_alphanumeric() || c == ' '));
    assert!(!r.starts_with(' ') && !r.ends_with(' ') && !r.contains("  "));
    assert!(!r.chars().any(|c| c.is_ascii_uppercase()));
}
