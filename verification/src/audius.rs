//! Audius search responses: which tracks may be offered for download
//! (public, downloadable, ungated, with a safe identifier and a name).
//!
//! The fields of a search response that are read arrive as plain values
//! (`AudiusPayload`).
use vstd::prelude::*;
use crate::text;
use crate::downloads;
use crate::downloads::{DownloadSearchResult, SearchResultView};

verus! {

/// A gating field (`download_conditions`, `stream_conditions`): absent,
/// null, an object with some number of entries, or anything else.
#[derive(Debug)]
pub enum Conditions {
    Absent,
    Null,
    Object { entries: usize },
    Other,
}

/// A track of a search response, as far as it is read.
#[derive(Debug)]
pub struct AudiusTrack {
    /// `id`, when a string.
    pub id: Option<String>,
    /// `user.name`, when a string.
    pub user_name: Option<String>,
    /// `title`, when a string.
    pub title: Option<String>,
    /// `downloadable`, when a boolean.
    pub downloadable: Option<bool>,
    pub is_download_gated: Option<bool>,
    pub is_stream_gated: Option<bool>,
    pub is_purchaseable: Option<bool>,
    pub is_purchasable: Option<bool>,
    /// `access.download`, when a boolean.
    pub access_download: Option<bool>,
    pub download_conditions: Conditions,
    pub stream_conditions: Conditions,
}

/// A search response: its `data` list, when it has one.
#[derive(Debug)]
pub struct AudiusPayload {
    pub data: Option<Vec<AudiusTrack>>,
}

/// Whether a gating field gates nothing: absent, null or an empty object.
pub open spec fn ungated(c: Conditions) -> bool {
    match c {
        Conditions::Absent => true,
        Conditions::Null => true,
        Conditions::Object { entries } => entries == 0,
        Conditions::Other => false,
    }
}

/// Whether the track is gated behind a follow, purchase or tier.
pub open spec fn gated(t: AudiusTrack) -> bool {
    t.is_download_gated == Some(true) || t.is_stream_gated == Some(true) || t.is_purchaseable == Some(
        true,
    ) || t.is_purchasable == Some(true) || t.access_download == Some(false) || !ungated(
        t.download_conditions,
    ) || !ungated(t.stream_conditions)
}

/// Whether `id` is a safe track identifier: 1 to 80 bytes of ASCII letters
/// and digits.
pub open spec fn track_id_ok(id: Seq<char>) -> bool {
    id.len() > 0 && text::utf8_byte_len(id) <= 80 && forall|i: int|
        0 <= i < id.len() ==> text::is_ascii_alnum(#[trigger] id[i])
}

/// The result offered for a track, if it is offered.
pub open spec fn track_result(t: AudiusTrack) -> Option<SearchResultView> {
    match t.id {
        None => None,
        Some(id) => match t.user_name {
            None => None,
            Some(a) => match t.title {
                None => None,
                Some(ti) => {
                    let artist = text::trim(a@);
                    let title = text::trim(ti@);
                    if !track_id_ok(id@) || artist.len() == 0 || title.len() == 0 || t.downloadable != Some(
                        true,
                    ) || gated(t) {
                        None
                    } else {
                        Some(
                            SearchResultView {
                                id: "audius_"@ + id@,
                                provider: "audius"@,
                                username: artist,
                                filename: downloads::safe_named(artist + " - "@ + title + ".mp3"@),
                                file_size: 0,
                                bitrate: None,
                                sample_rate: None,
                                format: "mp3"@,
                                slots_free: true,
                                speed_bps: 0,
                            },
                        )
                    }
                },
            },
        },
    }
}

/// The results offered for the tracks `s`, in order.
pub open spec fn tracks_results(s: Seq<AudiusTrack>) -> Seq<SearchResultView>
    decreases s.len(),
{
    if s.len() == 0 {
        Seq::empty()
    } else {
        let prev = tracks_results(s.drop_last());
        match track_result(s.last()) {
            Some(r) => prev.push(r),
            None => prev,
        }
    }
}

/// What a search response offers.
pub open spec fn payload_results(p: AudiusPayload) -> Seq<SearchResultView> {
    match p.data {
        Some(d) => tracks_results(d@),
        None => Seq::empty(),
    }
}

/// A file name made safe (unsafe and control characters to `_`, trimmed).
pub fn safe_name(value: &str) -> (r: String)
    ensures
        r@ == downloads::safe_named(value@),
{
    downloads::safe_file_name(value)
}

fn ungated_exec(c: &Conditions) -> (b: bool)
    ensures
        b == ungated(*c),
{
    match c {
        Conditions::Absent => true,
        Conditions::Null => true,
        Conditions::Object { entries } => *entries == 0,
        Conditions::Other => false,
    }
}

fn is_true(o: Option<bool>) -> (b: bool)
    ensures
        b == (o == Some(true)),
{
    match o {
        Some(v) => v,
        None => false,
    }
}

fn is_false(o: Option<bool>) -> (b: bool)
    ensures
        b == (o == Some(false)),
{
    match o {
        Some(v) => !v,
        None => false,
    }
}

fn track_id_ok_exec(id: &str) -> (b: bool)
    ensures
        b == track_id_ok(id@),
{
    let v = text::chars_of(id);
    if v.len() == 0 || text::utf8_byte_len_exec(&v) > 80 {
        return false;
    }
    let mut i: usize = 0;
    while i < v.len()
        invariant
            i <= v.len(),
            v@ == id@,
            forall|k: int| 0 <= k < i ==> text::is_ascii_alnum(#[trigger] v@[k]),
        decreases v.len() - i,
    {
        let c = v[i];
        if !(('a' <= c && c <= 'z') || ('A' <= c && c <= 'Z') || ('0' <= c && c <= '9')) {
            return false;
        }
        i = i + 1;
    }
    true
}

/// The result offered for one track, if it is offered.
pub fn track_result_exec(t: &AudiusTrack) -> (r: Option<DownloadSearchResult>)
    ensures
        match r {
            Some(x) => track_result(*t) == Some(x@),
            None => track_result(*t) is None,
        },
{
    let id = match &t.id {
        Some(id) => id,
        None => return None,
    };
    let a = match &t.user_name {
        Some(a) => a,
        None => return None,
    };
    let ti = match &t.title {
        Some(ti) => ti,
        None => return None,
    };
    let artist = text::trim_str(a.as_str());
    let title = text::trim_str(ti.as_str());
    if !track_id_ok_exec(id.as_str()) || artist.len() == 0 || title.len() == 0 || !is_true(
        t.downloadable,
    ) {
        return None;
    }
    if is_true(t.is_download_gated) || is_true(t.is_stream_gated) || is_true(t.is_purchaseable)
        || is_true(t.is_purchasable) || is_false(t.access_download) || !ungated_exec(
        &t.download_conditions,
    ) || !ungated_exec(&t.stream_conditions) {
        return None;
    }
    let artist_s = text::string_of(&artist);
    let title_s = text::string_of(&title);
    let joined = text::concat3(artist_s.as_str(), " - ", title_s.as_str());
    let joined2 = text::concat2(joined.as_str(), ".mp3");
    let filename = safe_name(joined2.as_str());
    Some(
        DownloadSearchResult {
            id: text::concat2("audius_", id.as_str()),
            provider: "audius".to_string(),
            username: artist_s,
            filename,
            file_size: 0,
            bitrate: None,
            sample_rate: None,
            format: "mp3".to_string(),
            slots_free: true,
            speed_bps: 0,
        },
    )
}

/// The tracks of a search response that may be offered, in response order.
pub fn parse_tracks(payload: &AudiusPayload) -> (r: Vec<DownloadSearchResult>)
    ensures
        downloads::result_views(r@) == payload_results(*payload),
{
    let tracks = match &payload.data {
        Some(d) => d,
        None => {
            let r: Vec<DownloadSearchResult> = Vec::new();
            assert(downloads::result_views(r@) =~= Seq::empty());
            return r;
        },
    };
    let mut out: Vec<DownloadSearchResult> = Vec::new();
    let mut i: usize = 0;
    while i < tracks.len()
        invariant
            i <= tracks.len(),
            downloads::result_views(out@) == tracks_results(tracks@.take(i as int)),
        decreases tracks.len() - i,
    {
        assert(tracks@.take(i + 1).drop_last() =~= tracks@.take(i as int));
        assert(tracks@.take(i + 1).last() == tracks@[i as int]);
        let ghost before = out@;
        match track_result_exec(&tracks[i]) {
            Some(x) => {
                out.push(x);
                assert(downloads::result_views(out@) =~= downloads::result_views(before).push(x@));
            },
            None => {},
        }
        i = i + 1;
    }
    assert(tracks@.take(tracks.len() as int) =~= tracks@);
    out
}

/// Only public, downloadable tracks with a safe id and a name are offered:
/// a track that is offered is marked downloadable, gated in no way, and has
/// an id of 1 to 80 ASCII letters and digits.
pub proof fn law_offered_tracks_are_public(t: AudiusTrack)
    ensures
        track_result(t) is Some ==> t.downloadable == Some(true) && !gated(t) && (t.id matches Some(id)
            && track_id_ok(id@)),
{
}

} // verus!
