use music_player_backend::discovery::{
    pick_diverse, rank_discovery_candidates, score_candidate, ExternalTrackRecord, TasteContext,
};
use music_player_backend::history::{
    on_playback_event, play_outcome, recovered_play_meaningful, ActiveSession, HistoryAction, HistoryConfig,
    PlaybackEvent,
};
use music_player_backend::matcher::LocalTrackCandidate;
use music_player_backend::ranking::rank_positions;
use music_player_backend::search::{rank_online_results, LibraryTrack, OnlineSearchItem};

fn s(v: &str) -> String {
    v.to_string()
}

#[test]
fn ranking_is_stable_by_group_then_score() {
    assert_eq!(rank_positions(&vec![(1, 5), (0, 3), (0, 7), (0, 7)]), vec![2, 3, 1, 0]);
    assert_eq!(rank_positions(&vec![]), Vec::<usize>::new());
}

fn keys(names: &[&str]) -> Vec<Vec<char>> {
    names.iter().map(|n| n.chars().collect()).collect()
}

#[test]
fn at_most_two_per_artist() {
    let k = keys(&["a", "a", "a", "b", "b", "c"]);
    assert_eq!(pick_diverse(&vec![0, 1, 2, 3, 4, 5], &k, 10), vec![0, 1, 3, 4, 5]);
    assert_eq!(pick_diverse(&vec![0, 1, 2, 3, 4, 5], &k, 3), vec![0, 1, 3]);
    assert_eq!(pick_diverse(&vec![2, 0, 1], &k, 0), vec![2]);
}

fn ext(id: &str, title: &str, artist: &str, genre: Option<&str>) -> ExternalTrackRecord {
    ExternalTrackRecord {
        id: s(id),
        provider: s("itunes"),
        provider_id: s(id),
        title: s(title),
        artist: s(artist),
        album: None,
        duration_ms: Some(30_000),
        cover_art_url: None,
        preview_url: Some(s("p")),
        genre: genre.map(s),
        match_status: s("NOT_FOUND"),
        matched_local_track_id: None,
        created_at: 0,
    }
}

fn taste() -> TasteContext {
    TasteContext {
        ranked_genres: vec![s("rock")],
        listened_artists: vec![s("queen")],
        library_artists: vec![s("abba")],
        has_malayalam: false,
        force_refresh: false,
        now_millis: 0,
    }
}

#[test]
fn discovery_scores() {
    let plain = score_candidate(&ext("1", "T", "Nobody", None), &taste());
    let listened = score_candidate(&ext("2", "T", "Queen", None), &taste());
    let library = score_candidate(&ext("3", "T", "ABBA", None), &taste());
    assert_eq!(listened - plain, 90);
    assert_eq!(library - plain, 70);
    assert!(score_candidate(&ext("4", "T", "Nobody", Some("Rock")), &taste()) > plain);
}

#[test]
fn discovery_ranking_keeps_artists_diverse() {
    let tracks = vec![
        ext("1", "A1", "Queen", Some("Rock")),
        ext("2", "A2", "Queen", Some("Rock")),
        ext("3", "A3", "Queen", Some("Rock")),
        ext("4", "B1", "Nobody", None),
    ];
    let local: Vec<LocalTrackCandidate> = Vec::new();
    let (evals, recs) = rank_discovery_candidates(tracks, &local, &taste(), &vec![], &vec![], 10);
    assert_eq!(evals.len(), 4);
    assert_eq!(recs.len(), 3);
    assert_eq!(recs.iter().filter(|r| r.artist == "Queen").count(), 2);
    assert_eq!(recs[2].artist, "Nobody");
    let (_, one) = rank_discovery_candidates(vec![ext("9", "X", "Y", None)], &local, &taste(), &vec![], &vec![], 0);
    assert_eq!(one.len(), 1);
}

#[test]
fn blank_online_search_gives_nothing() {
    let items = vec![OnlineSearchItem {
        title: s("Song"),
        artist: s("Artist"),
        album: None,
        genre: None,
        track_id: Some(s("1")),
        artwork_url: None,
        preview_url: None,
        duration_ms: None,
    }];
    let local: Vec<LibraryTrack> = Vec::new();
    assert!(rank_online_results(&items, &local, "   ", &vec![], &vec![], 10).is_empty());
    let found = rank_online_results(&items, &local, "song", &vec![], &vec![], 10);
    assert_eq!(found.len(), 1);
    assert_eq!(found[0].title, "Song");
}

fn item(title: &str, artist: &str, id: &str) -> OnlineSearchItem {
    OnlineSearchItem {
        title: s(title),
        artist: s(artist),
        album: None,
        genre: None,
        track_id: Some(s(id)),
        artwork_url: None,
        preview_url: None,
        duration_ms: Some(200_000),
    }
}

#[test]
fn search_results_never_repeat_an_artist_and_title() {
    let items = vec![item("Song", "Artist", "1"), item(" song ", "ARTIST", "2"), item("Other", "Artist", "3")];
    let local = vec![LibraryTrack {
        id: s("t1"),
        title: s("Song"),
        artist: Some(s("Artist")),
        album: None,
        genre: None,
        duration_ms: 200_000,
    }];
    let found = rank_online_results(&items, &local, "artist", &vec![], &vec![], 10);
    assert_eq!(found.len(), 2);
    let mut keys: Vec<String> =
        found.iter().map(|r| format!("{}:{}", r.artist.to_lowercase(), r.title.to_lowercase())).collect();
    keys.sort();
    keys.dedup();
    assert_eq!(keys.len(), 2);
}

fn started(id: &str, track: &str, duration_ms: u64) -> PlaybackEvent {
    PlaybackEvent::Started {
        session_id: s(id),
        track_id: s(track),
        duration_ms,
        source: s("library"),
        user_id: s("u"),
        stat_date: s("2025-01-01"),
        started_at: 0,
    }
}

fn finalized(actions: &[HistoryAction]) -> Option<(u64, bool, bool)> {
    actions.iter().find_map(|a| match a {
        HistoryAction::Finalize { listened_ms, completed, skipped_hint, .. } => {
            Some((*listened_ms, *completed, *skipped_hint))
        }
        _ => None,
    })
}

#[test]
fn paused_time_is_not_counted() {
    let (cur, actions) = on_playback_event(None, started("s1", "t1", 200_000), 1_000);
    assert_eq!(actions.len(), 1);
    let (cur, _) = on_playback_event(cur, PlaybackEvent::Paused { session_id: s("s1") }, 11_000);
    let paused: &ActiveSession = cur.as_ref().unwrap();
    assert_eq!(paused.listened_ms, 10_000);
    assert!(paused.playing_since_ms.is_none());
    let (cur, _) = on_playback_event(cur, PlaybackEvent::Buffering { session_id: s(""), track_id: s("t1") }, 50_000);
    assert_eq!(cur.as_ref().unwrap().listened_ms, 10_000);
    let (cur, _) = on_playback_event(cur, PlaybackEvent::Resumed { session_id: s("s1"), track_id: s("t1") }, 60_000);
    let (cur, actions) = on_playback_event(
        cur,
        PlaybackEvent::Finished { session_id: s("s1"), listened_ms: 5_000, completed: false },
        65_000,
    );
    assert!(cur.is_none());
    assert_eq!(finalized(&actions), Some((15_000, false, false)));
}

#[test]
fn completed_play_counts_whole_track_and_stale_events_are_ignored() {
    let (cur, _) = on_playback_event(None, started("s1", "t1", 200_000), 0);
    let (cur, actions) = on_playback_event(
        cur,
        PlaybackEvent::Finished { session_id: s("other"), listened_ms: 1, completed: true },
        10_000,
    );
    assert!(actions.is_empty());
    assert!(cur.is_some());
    let (cur, actions) = on_playback_event(
        cur,
        PlaybackEvent::Finished { session_id: s("s1"), listened_ms: 1, completed: true },
        10_000,
    );
    assert!(cur.is_none());
    assert_eq!(finalized(&actions), Some((200_000, true, false)));
}

#[test]
fn a_new_start_finalizes_the_previous_play_as_skipped() {
    let (cur, _) = on_playback_event(None, started("s1", "t1", 200_000), 0);
    let (cur, actions) = on_playback_event(cur, started("s2", "t2", 100_000), 4_000);
    assert_eq!(cur.as_ref().unwrap().id, "s2");
    assert_eq!(actions.len(), 2);
    assert_eq!(finalized(&actions), Some((4_000, false, true)));
    let (_, stop) = on_playback_event(cur, PlaybackEvent::Stopped { session_id: s("") }, 6_000);
    assert_eq!(finalized(&stop), Some((2_000, false, true)));
}

#[test]
fn meaningful_plays() {
    let cfg = HistoryConfig::default_config();
    let short = play_outcome(10_000, 200_000, false, true, cfg);
    assert!(!short.meaningful);
    assert!(short.skipped);
    assert_eq!(short.share_permille, 50);
    let long = play_outcome(30_000, 200_000, false, true, cfg);
    assert!(long.meaningful);
    assert!(!long.skipped);
    let half = play_outcome(20_000, 40_000, false, false, cfg);
    assert!(half.meaningful);
    assert_eq!(half.share_permille, 500);
    let done = play_outcome(1, 0, true, true, cfg);
    assert!(done.meaningful);
    assert_eq!(done.share_permille, 0);
    assert!(recovered_play_meaningful(30_000, 0));
    assert!(recovered_play_meaningful(8_000, 10_000));
    assert!(!recovered_play_meaningful(7_999, 10_000));
}
