//! Stored records, settings, and the small enumerations of the application's
//! requests, with the rules that read and name them.
use vstd::prelude::*;
use crate::text;
use crate::error::AppError;
use crate::discovery::ExternalTrackRecord;
use crate::matcher::{self, opt_view, MatchStatus};

verus! {

// ---------------------------------------------------------------- records

#[derive(Debug)]
pub struct LibraryFolderRecord {
    pub id: String,
    pub path: String,
    pub added_at: i64,
    pub last_scanned_at: Option<i64>,
    pub enabled: i64,
}

#[derive(Debug)]
pub struct ArtistRecord {
    pub id: String,
    pub name: String,
    pub normalized_name: String,
    pub musicbrainz_id: Option<String>,
    pub bio: Option<String>,
    pub image_url: Option<String>,
    pub created_at: i64,
}

#[derive(Debug)]
pub struct AlbumRecord {
    pub id: String,
    pub title: String,
    pub normalized_title: String,
    pub artist_id: Option<String>,
    pub album_artist: Option<String>,
    pub release_year: Option<i64>,
    pub total_tracks: Option<i64>,
    pub cover_art_path: Option<String>,
    pub musicbrainz_id: Option<String>,
    pub created_at: i64,
}

#[derive(Debug)]
pub struct GenreRecord {
    pub id: String,
    pub name: String,
    pub normalized_name: String,
}

#[derive(Debug)]
pub struct PlaylistRecord {
    pub id: String,
    pub name: String,
    pub description: Option<String>,
    pub is_smart_mix: i64,
    pub mix_type: Option<String>,
    pub generation_reason: Option<String>,
    pub expires_at: Option<i64>,
    pub created_at: i64,
    pub updated_at: i64,
}

#[derive(Debug)]
pub struct WishlistItemRecord {
    pub id: String,
    pub title: String,
    pub artist: String,
    pub album: Option<String>,
    pub external_track_id: Option<String>,
    pub status: String,
    pub notes: Option<String>,
    pub created_at: i64,
    pub updated_at: i64,
}

#[derive(Debug)]
pub struct AlbumSummary {
    pub id: String,
    pub title: String,
    pub artist_name: Option<String>,
    pub release_year: Option<i64>,
    pub cover_art_path: Option<String>,
    pub track_count: i64,
    pub first_track_id: Option<String>,
}

#[derive(Debug)]
pub struct ArtistSummary {
    pub id: String,
    pub name: String,
    pub bio: Option<String>,
    pub image_url: Option<String>,
    pub track_count: i64,
    pub album_count: i64,
}

// ---------------------------------------------------------------- settings

/// Metadata provider priority and toggles.
#[derive(Debug)]
pub struct MetadataConfig {
    pub provider_priority: Vec<String>,
    pub enable_musicbrainz: bool,
    pub enable_spotify: bool,
    pub spotify_client_id: Option<String>,
    pub spotify_client_secret: Option<String>,
}

impl MetadataConfig {
    /// Embedded tags first, then MusicBrainz, then Spotify; MusicBrainz on,
    /// Spotify off, no Spotify credentials.
    pub fn default_config() -> (c: MetadataConfig)
        ensures
            c.provider_priority@.map_values(|s: String| s@) == seq!["embedded"@, "musicbrainz"@, "spotify"@],
            c.enable_musicbrainz,
            !c.enable_spotify,
            c.spotify_client_id is None,
            c.spotify_client_secret is None,
    {
        let mut p: Vec<String> = Vec::new();
        p.push("embedded".to_string());
        p.push("musicbrainz".to_string());
        p.push("spotify".to_string());
        assert(p@.map_values(|s: String| s@) =~= seq!["embedded"@, "musicbrainz"@, "spotify"@]);
        MetadataConfig {
            provider_priority: p,
            enable_musicbrainz: true,
            enable_spotify: false,
            spotify_client_id: None,
            spotify_client_secret: None,
        }
    }
}

/// Soulseek and download configuration.
#[derive(Debug)]
pub struct DownloadConfig {
    /// The download folder, when one is chosen.
    pub download_dir: Option<String>,
    pub slskd_host: String,
    pub slskd_port: u16,
    pub slskd_api_key: Option<String>,
    pub auto_import: bool,
    pub max_concurrent_downloads: usize,
}

impl DownloadConfig {
    /// No download folder, the daemon at localhost:5030 without key, auto
    /// import on, two concurrent downloads.
    pub fn default_config() -> (c: DownloadConfig)
        ensures
            c.download_dir is None,
            c.slskd_host@ == "localhost"@,
            c.slskd_port == 5030,
            c.slskd_api_key is None,
            c.auto_import,
            c.max_concurrent_downloads == 2,
    {
        DownloadConfig {
            download_dir: None,
            slskd_host: "localhost".to_string(),
            slskd_port: 5030,
            slskd_api_key: None,
            auto_import: true,
            max_concurrent_downloads: 2,
        }
    }
}

// ---------------------------------------------------------------- enumerations

/// Repeat behaviour of the play queue.
#[derive(Clone, Copy, PartialEq, Eq, Debug, Structural)]
pub enum RepeatMode {
    Off,
    One,
    All,
}

impl RepeatMode {
    /// Repeat is off unless asked for.
    pub fn default_mode() -> (m: RepeatMode)
        ensures
            m == RepeatMode::Off,
    {
        RepeatMode::Off
    }
}

/// Smart mix categories.
#[derive(Debug)]
pub enum SmartMixType {
    Daily,
    OnRepeat,
    Genre(String),
    Artist(String),
    ForgottenFavorites,
    LateNight,
    Discovery,
}

/// Time windows of the rankings.
#[derive(Clone, Copy, PartialEq, Eq, Debug, Structural)]
pub enum TimeWindow {
    Today,
    Last7Days,
    Last30Days,
    Last6Months,
    LastYear,
    AllTime,
}

/// Entities that can be ranked.
#[derive(Clone, Copy, PartialEq, Eq, Debug, Structural)]
pub enum RankingEntity {
    Tracks,
    Artists,
    Albums,
    Genres,
}

/// Status markers of wishlist items.
#[derive(Clone, Copy, PartialEq, Eq, Debug, Structural)]
pub enum WishlistStatus {
    Want,
    Ignore,
    AlreadyOwn,
    Downloaded,
}

impl WishlistStatus {
    /// The stored name of the status.
    pub open spec fn name(self) -> Seq<char> {
        match self {
            WishlistStatus::Want => "WANT"@,
            WishlistStatus::Ignore => "IGNORE"@,
            WishlistStatus::AlreadyOwn => "ALREADY_OWN"@,
            WishlistStatus::Downloaded => "DOWNLOADED"@,
        }
    }

    /// The stored name of the status.
    pub fn as_str(&self) -> (s: &'static str)
        ensures
            s@ == self.name(),
    {
        match self {
            WishlistStatus::Want => "WANT",
            WishlistStatus::Ignore => "IGNORE",
            WishlistStatus::AlreadyOwn => "ALREADY_OWN",
            WishlistStatus::Downloaded => "DOWNLOADED",
        }
    }
}

/// The stored wishlist status an uppercased name stands for, if any.
pub open spec fn wishlist_status_named(u: Seq<char>) -> Option<WishlistStatus> {
    if u == "WANT"@ {
        Some(WishlistStatus::Want)
    } else if u == "IGNORE"@ {
        Some(WishlistStatus::Ignore)
    } else if u == "ALREADY_OWN"@ || u == "ALREADYOWN"@ {
        Some(WishlistStatus::AlreadyOwn)
    } else if u == "DOWNLOADED"@ {
        Some(WishlistStatus::Downloaded)
    } else {
        None
    }
}

/// Reads a wishlist status name case-insensitively (by `str::to_uppercase`);
/// an unknown one is a validation error naming the uppercased text.
pub fn normalize_wishlist_status(status: &str) -> (r: Result<WishlistStatus, AppError>)
    ensures
        match r {
            Ok(s) => wishlist_status_named(text::spec_str_uppercase(status@)) == Some(s),
            Err(e) => wishlist_status_named(text::spec_str_uppercase(status@)) is None && (e matches AppError::Validation(
                m,
            ) && m@ == "Invalid wishlist status: "@ + text::spec_str_uppercase(status@)),
        },
{
    let u = text::str_to_uppercase(status);
    let us = u.as_str();
    if text::str_eq(us, "WANT") {
        Ok(WishlistStatus::Want)
    } else if text::str_eq(us, "IGNORE") {
        Ok(WishlistStatus::Ignore)
    } else if text::str_eq(us, "ALREADY_OWN") || text::str_eq(us, "ALREADYOWN") {
        Ok(WishlistStatus::AlreadyOwn)
    } else if text::str_eq(us, "DOWNLOADED") {
        Ok(WishlistStatus::Downloaded)
    } else {
        Err(AppError::Validation(text::concat2("Invalid wishlist status: ", us)))
    }
}

/// The wishlist item recorded for a new entry: wanted, created and updated now.
pub fn new_wishlist_item(
    id: String,
    title: String,
    artist: String,
    album: Option<String>,
    external_track_id: Option<String>,
    notes: Option<String>,
    now: i64,
) -> (w: WishlistItemRecord)
    ensures
        w.id == id,
        w.title == title,
        w.artist == artist,
        w.album == album,
        w.external_track_id == external_track_id,
        w.status@ == WishlistStatus::Want.name(),
        w.notes == notes,
        w.created_at == now,
        w.updated_at == now,
{
    WishlistItemRecord {
        id,
        title,
        artist,
        album,
        external_track_id,
        status: "WANT".to_string(),
        notes,
        created_at: now,
        updated_at: now,
    }
}


/// The placeholder catalog entry recorded for a wishlist item whose external
/// track is not known yet: provider "custom", not found in the library.
pub fn wishlist_stub_track(
    ext_id: &String,
    title: &String,
    artist: &String,
    album: &Option<String>,
    now: i64,
) -> (t: ExternalTrackRecord)
    ensures
        t.id@ == ext_id@,
        t.provider@ == "custom"@,
        t.provider_id@ == ext_id@,
        t.title@ == title@,
        t.artist@ == artist@,
        opt_view(t.album) == opt_view(*album),
        t.duration_ms is None,
        t.cover_art_url is None,
        t.preview_url is None,
        t.genre is None,
        t.match_status@ == matcher::match_status_name(MatchStatus::NotFound),
        t.matched_local_track_id is None,
        t.created_at == now,
{
    ExternalTrackRecord {
        id: ext_id.clone(),
        provider: "custom".to_string(),
        provider_id: ext_id.clone(),
        title: title.clone(),
        artist: artist.clone(),
        album: match album {
            Some(a) => Some(a.clone()),
            None => None,
        },
        duration_ms: None,
        cover_art_url: None,
        preview_url: None,
        genre: None,
        match_status: MatchStatus::NotFound.as_str().to_string(),
        matched_local_track_id: None,
        created_at: now,
    }
}

} // verus!
