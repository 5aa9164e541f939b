use music_player_backend::downloads::{
    parse_artist_title_from_filename, safe_file_name, sanitize_filename, DownloadSearchResult, DownloadStatus,
};
use music_player_backend::providers::{
    cancel_username, find_transfer_progress, is_pollable, merge_search_results, new_download_task, poll_step,
    route_download, soulseek_result, transfer_status, PollStep, ProviderRoute, SoulseekFile, Transfer,
    TransferDirectory, TransferFile,
};

fn result(id: &str, provider: &str, filename: &str) -> DownloadSearchResult {
    DownloadSearchResult {
        id: id.to_string(),
        provider: provider.to_string(),
        username: "user".to_string(),
        filename: filename.to_string(),
        file_size: 100,
        bitrate: None,
        sample_rate: None,
        format: "mp3".to_string(),
        slots_free: true,
        speed_bps: 0,
    }
}

#[test]
fn status_names_round_trip() {
    for st in [
        DownloadStatus::Queued,
        DownloadStatus::Downloading,
        DownloadStatus::Completed,
        DownloadStatus::Failed,
        DownloadStatus::Cancelled,
    ] {
        assert_eq!(DownloadStatus::from_str(st.as_str()), st);
    }
    assert_eq!(DownloadStatus::from_str("completed"), DownloadStatus::Completed);
    assert_eq!(DownloadStatus::from_str("Failed"), DownloadStatus::Failed);
    assert_eq!(DownloadStatus::from_str("whatever"), DownloadStatus::Queued);
    assert_eq!(DownloadStatus::Cancelled.as_str(), "CANCELLED");
}

#[test]
fn file_name_rules() {
    assert_eq!(sanitize_filename("a/b\\c:d*e?f\"g<h>i|j"), "a_b_c_d_e_f_g_h_i_j");
    assert_eq!(sanitize_filename("  keep  "), "  keep  ");
    assert_eq!(safe_file_name("  x\ty\u{1}z  "), "x_y_z");
    assert_eq!(
        parse_artist_title_from_filename("Music/Artist - Title.mp3"),
        ("Artist".to_string(), "Title".to_string())
    );
    assert_eq!(
        parse_artist_title_from_filename("song.flac"),
        ("Unknown Artist".to_string(), "song".to_string())
    );
    assert_eq!(
        parse_artist_title_from_filename(" A  -  B - C .mp3"),
        ("A".to_string(), "B - C".to_string())
    );
    assert_eq!(
        parse_artist_title_from_filename(".hidden"),
        ("Unknown Artist".to_string(), ".hidden".to_string())
    );
}

#[test]
fn downloads_are_routed_by_provider() {
    assert_eq!(route_download(&result("a", "internet-archive", "f")), ProviderRoute::InternetArchive);
    assert_eq!(route_download(&result("a", "audius", "f")), ProviderRoute::Audius);
    assert_eq!(route_download(&result("a", "yt-dlp", "f")), ProviderRoute::YtDlp);
    assert_eq!(route_download(&result("ytdlp_x", "other", "f")), ProviderRoute::YtDlp);
    assert_eq!(route_download(&result("u:f", "soulseek", "f")), ProviderRoute::Soulseek);
}

#[test]
fn merged_search_keeps_order_and_dedups_stream_source() {
    let merged = merge_search_results(
        vec![Some(vec![result("1", "yt-dlp", "a")]), None, Some(vec![result("2", "audius", "b")])],
        Some(result("1", "yt-dlp", "dup")),
    );
    assert_eq!(merged.iter().map(|r| r.id.clone()).collect::<Vec<_>>(), vec!["1", "2"]);
    let added = merge_search_results(vec![Some(vec![result("1", "yt-dlp", "a")])], Some(result("9", "yt-dlp", "s")));
    assert_eq!(added.len(), 2);
    assert_eq!(added[1].id, "9");
}

#[test]
fn soulseek_reports() {
    let f = SoulseekFile {
        username: "bob".to_string(),
        filename: "Music/Song.FLAC".to_string(),
        size: 10,
        bit_rate: Some(900),
        sample_rate: None,
        has_free_upload_slot: None,
        upload_speed: Some(5),
    };
    let r = soulseek_result(&f);
    assert_eq!(r.id, "bob:Music/Song.FLAC");
    assert_eq!(r.format, "flac");
    assert!(!r.slots_free);
    let bare = SoulseekFile { filename: "noext".to_string(), ..f };
    assert_eq!(soulseek_result(&bare).format, "mp3");

    assert_eq!(transfer_status("Succeeded"), DownloadStatus::Completed);
    assert_eq!(transfer_status("aborted"), DownloadStatus::Cancelled);
    assert_eq!(transfer_status("ERRORED"), DownloadStatus::Failed);
    assert_eq!(transfer_status("in_progress"), DownloadStatus::Downloading);
    assert_eq!(transfer_status("Requested"), DownloadStatus::Queued);

    let transfers = vec![
        Transfer { username: None, directories: None },
        Transfer {
            username: Some("bob".to_string()),
            directories: Some(vec![
                TransferDirectory { files: None },
                TransferDirectory {
                    files: Some(vec![
                        TransferFile {
                            filename: Some("other".to_string()),
                            bytes_transferred: Some(1),
                            size: Some(2),
                            average_speed: None,
                            state: None,
                        },
                        TransferFile {
                            filename: Some("song.mp3".to_string()),
                            bytes_transferred: Some(40),
                            size: None,
                            average_speed: Some(7),
                            state: Some("Completed".to_string()),
                        },
                    ]),
                },
            ]),
        },
    ];
    let p = find_transfer_progress(&transfers, "bob:song.mp3").unwrap();
    assert_eq!(p.bytes_downloaded, 40);
    assert_eq!(p.total_bytes, 1);
    assert_eq!(p.speed_bps, 7);
    assert_eq!(p.status, DownloadStatus::Completed);
    assert!(find_transfer_progress(&transfers, "bob:missing").is_none());

    assert_eq!(cancel_username("bob:a:b").unwrap(), "bob");
    assert!(cancel_username("nocolon").is_none());
}

#[test]
fn task_bookkeeping() {
    let r = result("x", "yt-dlp", "Artist - Song.mp3");
    let t = new_download_task(
        "dl_1".to_string(),
        "composite".to_string(),
        "task9".to_string(),
        &r,
        "/music/Artist - Song.mp3".to_string(),
        Some("wl_1".to_string()),
        77,
    );
    assert_eq!(t.artist, "Artist");
    assert_eq!(t.title, "Song");
    assert_eq!(t.status, "DOWNLOADING");
    assert_eq!(t.provider_task_id.as_deref(), Some("task9"));
    assert_eq!(t.file_size, Some(100));
    assert_eq!(t.created_at, 77);
    assert!(is_pollable("QUEUED"));
    assert!(is_pollable("DOWNLOADING"));
    assert!(!is_pollable("COMPLETED"));
    assert_eq!(poll_step(DownloadStatus::Completed), PollStep::Complete);
    assert_eq!(poll_step(DownloadStatus::Failed), PollStep::Fail);
    assert_eq!(poll_step(DownloadStatus::Cancelled), PollStep::Continue);
}
