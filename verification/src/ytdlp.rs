//! yt-dlp: which search hits become download offers, how a resolved stream
//! line is read, and how a result names the video and format to fetch.
//!
//! Durations that yt-dlp reports as decimals reach this module as whole
//! seconds or milliseconds.
use vstd::prelude::*;
use crate::text;
use crate::downloads;
use crate::downloads::{DownloadSearchResult, SearchResultView};
use crate::matcher::opt_view;

verus! {

/// A search hit, as far as it is read.
#[derive(Debug)]
pub struct YtSearchEntry {
    /// `id`, when a string.
    pub id: Option<String>,
    /// `title`, when a string.
    pub title: Option<String>,
    /// `uploader`, when a string.
    pub uploader: Option<String>,
    /// `duration` in whole seconds (180 when the hit has none).
    pub duration_secs: i64,
}

/// The words that mark a hit as something other than a song.
pub open spec fn non_song_words() -> Seq<Seq<char>> {
    seq!["tour"@, "vlog"@, "unboxing"@, "reaction"@, "podcast"@, "gameplay"@, "figure"@]
}

/// Whether the lowercased title holds one of the non-song words.
pub open spec fn looks_like_non_song(lower_title: Seq<char>) -> bool {
    exists|i: int| 0 <= i < non_song_words().len() && text::contains(lower_title, #[trigger] non_song_words()[i])
}

/// The offers for a search hit: none without an id, for clips shorter than
/// 30 s or longer than 12 min, or for titles that look like something other
/// than a song; else a FLAC and an MP3 offer.
pub open spec fn entry_offers(e: YtSearchEntry) -> Seq<SearchResultView> {
    match e.id {
        None => Seq::empty(),
        Some(id) => {
            let title = match e.title {
                Some(t) => t@,
                None => "Unknown Title"@,
            };
            let uploader = match e.uploader {
                Some(u) => u@,
                None => "Unknown Artist"@,
            };
            let d = e.duration_secs;
            if d > 720 || d < 30 || looks_like_non_song(text::spec_str_lowercase(title)) {
                Seq::empty()
            } else {
                seq![
                    SearchResultView {
                        id: "ytdlp_flac_"@ + id@,
                        provider: "yt-dlp"@,
                        username: uploader,
                        filename: downloads::sanitized(uploader + " - "@ + title + ".flac"@),
                        file_size: (d * 120000) as i64,
                        bitrate: None,
                        sample_rate: Some(48000),
                        format: "flac"@,
                        slots_free: true,
                        speed_bps: 20000000,
                    },
                    SearchResultView {
                        id: "ytdlp_mp3_"@ + id@,
                        provider: "yt-dlp"@,
                        username: uploader,
                        filename: downloads::sanitized(uploader + " - "@ + title + ".mp3"@),
                        file_size: (d * 40000) as i64,
                        bitrate: Some(320),
                        sample_rate: Some(44100),
                        format: "mp3"@,
                        slots_free: true,
                        speed_bps: 15000000,
                    },
                ]
            }
        },
    }
}

fn title_marks_non_song(lower: &Vec<char>) -> (b: bool)
    ensures
        b == looks_like_non_song(lower@),
{
    let words: [&str; 7] = ["tour", "vlog", "unboxing", "reaction", "podcast", "gameplay", "figure"];
    let mut i: usize = 0;
    while i < 7
        invariant
            i <= 7,
            forall|k: int| 0 <= k < 7 ==> (#[trigger] words@[k])@ == non_song_words()[k],
            forall|k: int| 0 <= k < i ==> !text::contains(lower@, #[trigger] non_song_words()[k]),
        decreases 7 - i,
    {
        if text::contains_str(lower, words[i]) {
            assert(text::contains(lower@, non_song_words()[i as int]));
            return true;
        }
        i = i + 1;
    }
    false
}

/// The offers for one search hit.
pub fn search_entry_results(e: &YtSearchEntry) -> (r: Vec<DownloadSearchResult>)
    ensures
        downloads::result_views(r@) == entry_offers(*e),
{
    let mut out: Vec<DownloadSearchResult> = Vec::new();
    let id = match &e.id {
        Some(id) => id,
        None => {
            assert(downloads::result_views(out@) =~= Seq::empty());
            return out;
        },
    };
    let title: String = match &e.title {
        Some(t) => t.clone(),
        None => "Unknown Title".to_string(),
    };
    let uploader: String = match &e.uploader {
        Some(u) => u.clone(),
        None => "Unknown Artist".to_string(),
    };
    let d = e.duration_secs;
    if d > 720 || d < 30 {
        assert(downloads::result_views(out@) =~= Seq::empty());
        return out;
    }
    let lower = text::lower_chars(title.as_str());
    if title_marks_non_song(&lower) {
        assert(downloads::result_views(out@) =~= Seq::empty());
        return out;
    }
    let base = text::concat3(uploader.as_str(), " - ", title.as_str());
    let flac_name = text::concat2(base.as_str(), ".flac");
    let mp3_name = text::concat2(base.as_str(), ".mp3");
    out.push(
        DownloadSearchResult {
            id: text::concat2("ytdlp_flac_", id.as_str()),
            provider: "yt-dlp".to_string(),
            username: uploader.clone(),
            filename: downloads::sanitize_filename(flac_name.as_str()),
            file_size: d * 120000,
            bitrate: None,
            sample_rate: Some(48000),
            format: "flac".to_string(),
            slots_free: true,
            speed_bps: 20000000,
        },
    );
    out.push(
        DownloadSearchResult {
            id: text::concat2("ytdlp_mp3_", id.as_str()),
            provider: "yt-dlp".to_string(),
            username: uploader,
            filename: downloads::sanitize_filename(mp3_name.as_str()),
            file_size: d * 40000,
            bitrate: Some(320),
            sample_rate: Some(44100),
            format: "mp3".to_string(),
            slots_free: true,
            speed_bps: 15000000,
        },
    );
    assert(downloads::result_views(out@) =~= entry_offers(*e));
    out
}

/// The characters allowed in a video id.
pub open spec fn video_id_char(c: char) -> bool {
    text::is_ascii_alnum(c) || c == '-' || c == '_'
}

/// The stream offer for a resolved video, from the fields of its line (URL,
/// duration, id, title, uploader) and its duration in milliseconds: none
/// unless the id is 11 id characters and title and uploader are given.
pub open spec fn stream_offer(fields: Seq<Seq<char>>, duration_ms: u64) -> Option<SearchResultView> {
    if fields.len() < 5 {
        None
    } else {
        let id = fields[2];
        let title = text::trim(fields[3]);
        let uploader = text::trim(fields[4]);
        if id.len() != 11 || !(forall|i: int| 0 <= i < id.len() ==> video_id_char(#[trigger] id[i]))
            || title.len() == 0 || uploader.len() == 0 || title == "NA"@ || uploader == "NA"@ {
            None
        } else {
            let ms: int = if duration_ms > 7200000 {
                7200000
            } else {
                duration_ms as int
            };
            Some(
                SearchResultView {
                    id: "ytdlp_stream_mp3_"@ + id,
                    provider: "yt-dlp"@,
                    username: uploader,
                    filename: downloads::sanitized(uploader + " - "@ + title + ".mp3"@),
                    file_size: (ms * 40) as i64,
                    bitrate: None,
                    sample_rate: None,
                    format: "mp3"@,
                    slots_free: true,
                    speed_bps: 0,
                },
            )
        }
    }
}

/// The stream offer for a resolved video (duration capped at two hours).
pub fn playback_download_result(fields: &Vec<String>, duration_ms: u64) -> (r: Option<DownloadSearchResult>)
    ensures
        match r {
            Some(x) => stream_offer(fields@.map_values(|s: String| s@), duration_ms) == Some(x@),
            None => stream_offer(fields@.map_values(|s: String| s@), duration_ms) is None,
        },
{
    let ghost fv = fields@.map_values(|s: String| s@);
    if fields.len() < 5 {
        return None;
    }
    assert(fv[2] == fields@[2]@ && fv[3] == fields@[3]@ && fv[4] == fields@[4]@);
    let idv = text::chars_of(fields[2].as_str());
    if idv.len() != 11 {
        return None;
    }
    let mut i: usize = 0;
    while i < idv.len()
        invariant
            i <= idv.len(),
            fields.len() >= 5,
            idv@ == fields@.map_values(|s: String| s@)[2],
            forall|k: int| 0 <= k < i ==> video_id_char(#[trigger] idv@[k]),
        decreases idv.len() - i,
    {
        let c = idv[i];
        if !(('a' <= c && c <= 'z') || ('A' <= c && c <= 'Z') || ('0' <= c && c <= '9') || c == '-'
            || c == '_') {
            assert(!video_id_char(idv@[i as int]));
            return None;
        }
        i = i + 1;
    }
    let title = text::trim_str(fields[3].as_str());
    let uploader = text::trim_str(fields[4].as_str());
    let ts = text::string_of(&title);
    let us = text::string_of(&uploader);
    if title.len() == 0 || uploader.len() == 0 || text::str_eq(ts.as_str(), "NA") || text::str_eq(
        us.as_str(),
        "NA",
    ) {
        return None;
    }
    let ms: u64 = if duration_ms > 7200000 {
        7200000
    } else {
        duration_ms
    };
    let base = text::concat3(us.as_str(), " - ", ts.as_str());
    let name = text::concat2(base.as_str(), ".mp3");
    Some(
        DownloadSearchResult {
            id: text::concat2("ytdlp_stream_mp3_", fields[2].as_str()),
            provider: "yt-dlp".to_string(),
            username: us,
            filename: downloads::sanitize_filename(name.as_str()),
            file_size: (ms * 40) as i64,
            bitrate: None,
            sample_rate: None,
            format: "mp3".to_string(),
            slots_free: true,
            speed_bps: 0,
        },
    )
}

/// `s` split at the first `n - 1` occurrences of `d` (`str::splitn`).
pub open spec fn split_n(s: Seq<char>, d: char, n: nat) -> Seq<Seq<char>>
    decreases n,
{
    if n <= 1 {
        seq![s]
    } else {
        match text::find(s, seq![d]) {
            Some(p) => {
                proof {
                    text::lemma_find_bounds(s, seq![d], 0);
                }
                seq![s.take(p)] + split_n(s.skip(p + 1), d, (n - 1) as nat)
            },
            None => seq![s],
        }
    }
}

fn split_n_exec(s: &Vec<char>, d: char, n: usize) -> (r: Vec<Vec<char>>)
    ensures
        text::views(r@) == split_n(s@, d, n as nat),
    decreases n,
{
    let mut out: Vec<Vec<char>> = Vec::new();
    if n <= 1 {
        out.push(s.clone());
        assert(text::views(out@) =~= seq![s@]);
        return out;
    }
    let dv: Vec<char> = vec![d];
    assert(dv@ =~= seq![d]);
    match text::find_exec(s, &dv) {
        Some(p) => {
            proof {
                text::lemma_find_bounds(s@, seq![d], 0);
                assert(seq![d].len() == 1);
                assert(text::find_from(s@, seq![d], 0) == Some(p as int));
            }
            assert(p + 1 <= s.len());
            let head = text::slice_chars(s, 0, p);
            let tail = text::slice_chars(s, p + 1, s.len());
            assert(tail@ =~= s@.skip(p + 1));
            let rest = split_n_exec(&tail, d, n - 1);
            out.push(head);
            let mut i: usize = 0;
            while i < rest.len()
                invariant
                    i <= rest.len(),
                    out.len() == i + 1,
                    out@[0]@ == s@.take(p as int),
                    forall|k: int| 1 <= k < i + 1 ==> (#[trigger] out@[k])@ == rest@[k - 1]@,
                decreases rest.len() - i,
            {
                out.push(rest[i].clone());
                i = i + 1;
            }
            let ghost want = seq![s@.take(p as int)] + text::views(rest@);
            assert forall|k: int| 0 <= k < out.len() implies #[trigger] text::views(out@)[k] == want[k] by {
                if k > 0 {
                    assert(out@[k]@ == rest@[k - 1]@);
                }
            }
            assert(text::views(out@) =~= want);
            out
        },
        None => {
            out.push(s.clone());
            assert(text::views(out@) =~= seq![s@]);
            out
        },
    }
}

/// The five fields of a resolver line whose URL is http(s): the trimmed line
/// split at its first four tabs, the URL trimmed.
pub open spec fn candidate_fields_of(line: Seq<char>) -> Option<Seq<Seq<char>>> {
    let parts = split_n(text::trim(line), '\t', 5);
    if parts.len() != 5 {
        None
    } else {
        let url = text::trim(parts[0]);
        if !text::starts_with(url, "https://"@) && !text::starts_with(url, "http://"@) {
            None
        } else {
            Some(parts.update(0, url))
        }
    }
}

/// The fields of a resolver line, if it has five and an http(s) URL.
pub fn candidate_fields(line: &str) -> (r: Option<Vec<String>>)
    ensures
        match r {
            Some(f) => candidate_fields_of(line@) == Some(f@.map_values(|s: String| s@)),
            None => candidate_fields_of(line@) is None,
        },
{
    let t = text::trim_str(line);
    let parts = split_n_exec(&t, '\t', 5);
    if parts.len() != 5 {
        return None;
    }
    assert(text::views(parts@)[0] == parts@[0]@);
    let url = text::trim_chars(&parts[0]);
    let https = text::chars_of("https://");
    let http = text::chars_of("http://");
    if !text::starts_with_exec(&url, &https) && !text::starts_with_exec(&url, &http) {
        return None;
    }
    let mut out: Vec<String> = Vec::new();
    out.push(text::string_of(&url));
    let mut i: usize = 1;
    while i < 5
        invariant
            1 <= i <= 5,
            parts.len() == 5,
            out.len() == i,
            out@[0]@ == url@,
            forall|k: int| 1 <= k < i ==> (#[trigger] out@[k])@ == parts@[k]@,
        decreases 5 - i,
    {
        out.push(text::string_of(&parts[i]));
        i = i + 1;
    }
    let ghost want = text::views(parts@).update(0, url@);
    let ghost got = out@.map_values(|s: String| s@);
    assert forall|k: int| 0 <= k < 5 implies #[trigger] got[k] == want[k] by {
        if k > 0 {
            assert(text::views(parts@)[k] == parts@[k]@);
        }
    }
    assert(got =~= want);
    Some(out)
}

/// The video a result names: its id without the provider's prefixes.
pub open spec fn video_id_of(id: Seq<char>) -> Seq<char> {
    if text::starts_with(id, "ytdlp_stream_mp3_"@) {
        id.skip(17)
    } else if text::starts_with(id, "ytdlp_flac_"@) {
        id.skip(11)
    } else if text::starts_with(id, "ytdlp_mp3_"@) {
        id.skip(10)
    } else if text::starts_with(id, "ytdlp_"@) {
        id.skip(6)
    } else {
        id
    }
}

fn strip_prefix(v: &Vec<char>, prefix: &str) -> (r: Option<Vec<char>>)
    ensures
        match r {
            Some(rest) => text::starts_with(v@, prefix@) && rest@ == v@.skip(prefix@.len() as int),
            None => !text::starts_with(v@, prefix@),
        },
{
    let p = text::chars_of(prefix);
    if text::starts_with_exec(v, &p) {
        Some(text::slice_chars(v, p.len(), v.len()))
    } else {
        None
    }
}

/// The video a result names.
pub fn video_id(id: &str) -> (r: String)
    ensures
        r@ == video_id_of(id@),
{
    let v = text::chars_of(id);
    proof {
        reveal_strlit("ytdlp_stream_mp3_");
        reveal_strlit("ytdlp_flac_");
        reveal_strlit("ytdlp_mp3_");
        reveal_strlit("ytdlp_");
    }
    let rest = if let Some(r) = strip_prefix(&v, "ytdlp_stream_mp3_") {
        r
    } else if let Some(r) = strip_prefix(&v, "ytdlp_flac_") {
        r
    } else if let Some(r) = strip_prefix(&v, "ytdlp_mp3_") {
        r
    } else if let Some(r) = strip_prefix(&v, "ytdlp_") {
        r
    } else {
        v
    };
    text::string_of(&rest)
}

/// Whether a result asks for FLAC: by its id or (case-insensitively) its format.
pub open spec fn wants_flac(id: Seq<char>, format: Seq<char>) -> bool {
    text::starts_with(id, "ytdlp_flac_"@) || text::spec_str_lowercase(format) == "flac"@
}

/// Whether a result asks for FLAC.
pub fn is_flac(id: &str, format: &str) -> (b: bool)
    ensures
        b == wants_flac(id@, format@),
{
    let v = text::chars_of(id);
    let p = text::chars_of("ytdlp_flac_");
    if text::starts_with_exec(&v, &p) {
        return true;
    }
    let l = text::str_to_lowercase(format);
    text::str_eq(l.as_str(), "flac")
}

/// The stem under which a result is saved: that of its sanitized file name,
/// or "track".
pub open spec fn output_stem(filename: Seq<char>) -> Seq<char> {
    match downloads::path_file_stem(downloads::sanitized(filename)) {
        Some(s) => s,
        None => "track"@,
    }
}

/// The stem under which a result is saved.
pub fn destination_stem(filename: &str) -> (r: String)
    ensures
        r@ == output_stem(filename@),
{
    let clean = downloads::sanitize_filename(filename);
    let cv = text::chars_of(clean.as_str());
    match downloads::file_name_of(&cv) {
        Some(n) => {
            let s = downloads::stem_of(&n);
            text::string_of(&s)
        },
        None => "track".to_string(),
    }
}

/// The search term handed to yt-dlp for a query with `n` hits, or `None` for
/// a blank query.
pub open spec fn search_term(prefix: Seq<char>, query: Seq<char>) -> Option<Seq<char>> {
    let q = text::trim(query);
    if q.len() == 0 {
        None
    } else {
        Some(prefix + q)
    }
}

/// The term for a download search (30 hits).
pub fn download_search_term(query: &str) -> (r: Option<String>)
    ensures
        opt_view(r) == search_term("ytsearch30:"@, query@),
{
    let q = text::trim_str(query);
    if q.len() == 0 {
        return None;
    }
    let qs = text::string_of(&q);
    Some(text::concat2("ytsearch30:", qs.as_str()))
}

/// The term for resolving full-song streams (5 hits).
pub fn stream_search_term(query: &str) -> (r: Option<String>)
    ensures
        opt_view(r) == search_term("ytsearch5:"@, query@),
{
    let q = text::trim_str(query);
    if q.len() == 0 {
        return None;
    }
    let qs = text::string_of(&q);
    Some(text::concat2("ytsearch5:", qs.as_str()))
}

/// Clips shorter than 30 seconds and uploads longer than 12 minutes are
/// never offered; a hit that is offered gives exactly two offers.
pub proof fn law_only_song_length_hits_are_offered(e: YtSearchEntry)
    ensures
        e.duration_secs < 30 || e.duration_secs > 720 ==> entry_offers(e).len() == 0,
        entry_offers(e).len() == 0 || entry_offers(e).len() == 2,
{
}

} // verus!
