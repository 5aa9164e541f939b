//! Internet Archive items: which files of an item may be offered for download
//! (openly licensed audio with a safe path), and the search query sent for a
//! track.
//!
//! An item's metadata arrives as JSON; the fields read here are held in
//! plain values (`ArchiveItem`). URL parsing and encoding are those of the
//! `url` crate, reached through two small wrappers.
use vstd::prelude::*;
use crate::text;
use crate::downloads;
use crate::downloads::{DownloadSearchResult, SearchResultView};
use crate::matcher::opt_view;

verus! {

/// A metadata value: a string, a list (each element a string or not), or
/// anything else.
#[derive(Debug)]
pub enum MetaValue {
    Text(String),
    List(Vec<Option<String>>),
    Other,
}

/// The metadata fields of an item that are read.
#[derive(Debug)]
pub struct ArchiveMetadata {
    pub licenseurl: Option<MetaValue>,
    pub creator: Option<MetaValue>,
    pub title: Option<MetaValue>,
}

/// The `size` field of a file: a string, an integer that fits `i64`, or
/// anything else (absent included).
#[derive(Debug)]
pub enum ArchiveSize {
    Text(String),
    Integer(i64),
    Absent,
}

/// A file entry of an item.
#[derive(Debug)]
pub struct ArchiveEntry {
    /// The file's path within the item, when it is a string.
    pub name: Option<String>,
    pub size: ArchiveSize,
    pub artist: Option<MetaValue>,
    pub title: Option<MetaValue>,
}

/// An item's metadata document.
#[derive(Debug)]
pub struct ArchiveItem {
    pub metadata: ArchiveMetadata,
    /// The file list, when the document has one.
    pub files: Option<Vec<ArchiveEntry>>,
}

/// Where a result's file is downloaded from.
#[derive(Debug)]
pub struct ArchiveFile {
    pub url: String,
}

/// The host and path of the URL `s` as the `url` crate parses it, or `None`
/// when it does not parse.
pub uninterp spec fn url_host_path(s: Seq<char>) -> Option<(Option<Seq<char>>, Seq<char>)>;

/// The URL that the `url` crate makes of `base` with `segments` appended as
/// path segments, or `None` when `base` does not parse or cannot be a base.
pub uninterp spec fn url_extended(base: Seq<char>, segments: Seq<Seq<char>>) -> Option<Seq<char>>;

/// Calls `url::Url::parse` (as `reqwest::Url`) and reads `host_str` and
/// `path` of the result. Claimed: the outcome depends on `s` alone.
#[verifier::external_body]
fn parse_url_host_path(s: &str) -> (r: Option<(Option<String>, String)>)
    ensures
        match r {
            Some(hp) => url_host_path(s@) == Some((opt_view(hp.0), hp.1@)),
            None => url_host_path(s@) is None,
        },
{
    match reqwest::Url::parse(s) {
        Ok(u) => Some((u.host_str().map(|h| h.to_string()), u.path().to_string())),
        Err(_) => None,
    }
}

/// Parses `base` with `url::Url::parse` and appends `segments` through
/// `PathSegmentsMut::extend` (which percent-encodes each segment and skips
/// `.` and `..`), giving the serialization. Claimed: the outcome depends on
/// the arguments alone.
#[verifier::external_body]
fn url_with_segments(base: &str, segments: &Vec<String>) -> (r: Option<String>)
    ensures
        opt_view(r) == url_extended(base@, segments@.map_values(|s: String| s@)),
{
    let mut url = match reqwest::Url::parse(base) {
        Ok(u) => u,
        Err(_) => return None,
    };
    match url.path_segments_mut() {
        Ok(mut path) => {
            path.extend(segments.iter());
        },
        Err(_) => return None,
    }
    Some(url.as_str().to_string())
}

// ---------------------------------------------------------------- small rules

/// `value` with `\` and `"` escaped by a backslash, for a quoted search term.
pub open spec fn quoted(value: Seq<char>) -> Seq<char> {
    text::replace_all(text::replace_all(value, seq!['\\'], seq!['\\', '\\']), seq!['"'], seq!['\\', '"'])
}

/// Escapes a search term for use inside double quotes.
pub fn quote_term(value: &str) -> (r: String)
    ensures
        r@ == quoted(value@),
{
    let v = text::chars_of(value);
    let bs: Vec<char> = vec!['\\'];
    let bs2: Vec<char> = vec!['\\', '\\'];
    let q: Vec<char> = vec!['"'];
    let bq: Vec<char> = vec!['\\', '"'];
    assert(bs@ =~= seq!['\\']);
    assert(bs2@ =~= seq!['\\', '\\']);
    assert(q@ =~= seq!['"']);
    assert(bq@ =~= seq!['\\', '"']);
    let a = text::replace_all_exec(&v, &bs, &bs2);
    let b = text::replace_all_exec(&a, &q, &bq);
    text::string_of(&b)
}

/// The characters allowed in an item identifier.
pub open spec fn identifier_char(c: char) -> bool {
    text::is_ascii_alnum(c) || c == '_' || c == '-' || c == '.'
}

/// Whether `id` is a plausible item identifier: nonempty, at most 100 bytes,
/// of ASCII letters, digits, `_`, `-` and `.` only.
pub open spec fn identifier_ok(id: Seq<char>) -> bool {
    id.len() > 0 && text::utf8_byte_len(id) <= 100 && forall|i: int|
        0 <= i < id.len() ==> identifier_char(#[trigger] id[i])
}

fn is_identifier_char(c: char) -> (b: bool)
    ensures
        b == identifier_char(c),
{
    ('a' <= c && c <= 'z') || ('A' <= c && c <= 'Z') || ('0' <= c && c <= '9') || c == '_' || c
        == '-' || c == '.'
}

/// Whether `id` is a plausible item identifier.
pub fn valid_identifier(id: &str) -> (b: bool)
    ensures
        b == identifier_ok(id@),
{
    let v = text::chars_of(id);
    if v.len() == 0 {
        return false;
    }
    if text::utf8_byte_len_exec(&v) > 100 {
        return false;
    }
    let mut i: usize = 0;
    while i < v.len()
        invariant
            i <= v.len(),
            v@ == id@,
            forall|k: int| 0 <= k < i ==> identifier_char(#[trigger] v@[k]),
        decreases v.len() - i,
    {
        if !is_identifier_char(v[i]) {
            return false;
        }
        i = i + 1;
    }
    true
}

/// The audio format of a file name, by its extension lowered as ASCII.
pub open spec fn audio_ext_of(name: Seq<char>) -> Option<Seq<char>> {
    let e = text::after_last(name, '.').map_values(|c: char| text::ascii_lower(c));
    if e == "mp3"@ {
        Some("mp3"@)
    } else if e == "flac"@ {
        Some("flac"@)
    } else if e == "ogg"@ {
        Some("ogg"@)
    } else if e == "m4a"@ {
        Some("m4a"@)
    } else if e == "wav"@ {
        Some("wav"@)
    } else {
        None
    }
}

fn ascii_lower_exec(c: char) -> (r: char)
    ensures
        r == text::ascii_lower(c),
{
    if 'A' <= c && c <= 'Z' {
        let lowered: u8 = (c as u8) + 32;
        lowered as char
    } else {
        c
    }
}

/// The audio format of a file name, if it is one of mp3, flac, ogg, m4a, wav.
pub fn audio_extension(name: &str) -> (r: Option<&'static str>)
    ensures
        match r {
            Some(e) => audio_ext_of(name@) == Some(e@),
            None => audio_ext_of(name@) is None,
        },
{
    let v = text::chars_of(name);
    let e = text::after_last_exec(&v, '.');
    let mut low: Vec<char> = Vec::new();
    let mut i: usize = 0;
    while i < e.len()
        invariant
            i <= e.len(),
            low.len() == i,
            forall|k: int| 0 <= k < i ==> low@[k] == text::ascii_lower(#[trigger] e@[k]),
        decreases e.len() - i,
    {
        low.push(ascii_lower_exec(e[i]));
        i = i + 1;
    }
    assert(low@ =~= text::after_last(name@, '.').map_values(|c: char| text::ascii_lower(c)));
    let ls = text::string_of(&low);
    let l = ls.as_str();
    if text::str_eq(l, "mp3") {
        Some("mp3")
    } else if text::str_eq(l, "flac") {
        Some("flac")
    } else if text::str_eq(l, "ogg") {
        Some("ogg")
    } else if text::str_eq(l, "m4a") {
        Some("m4a")
    } else if text::str_eq(l, "wav") {
        Some("wav")
    } else {
        None
    }
}

/// A file name made safe (unsafe and control characters to `_`, trimmed).
pub fn safe_name(value: &str) -> (r: String)
    ensures
        r@ == downloads::safe_named(value@),
{
    downloads::safe_file_name(value)
}

// ---------------------------------------------------------------- metadata

/// The first string of a list.
pub open spec fn first_text(items: Seq<Option<String>>) -> Option<Seq<char>>
    decreases items.len(),
{
    if items.len() == 0 {
        None
    } else {
        match items[0] {
            Some(s) => Some(s@),
            None => first_text(items.skip(1)),
        }
    }
}

/// A metadata value read as a string: the string itself, or the first
/// string of a list.
pub open spec fn meta_string(v: MetaValue) -> Option<Seq<char>> {
    match v {
        MetaValue::Text(s) => Some(s@),
        MetaValue::List(items) => first_text(items@),
        MetaValue::Other => None,
    }
}

/// An optional metadata field read as a string.
pub open spec fn field_string(o: Option<MetaValue>) -> Option<Seq<char>> {
    match o {
        Some(v) => meta_string(v),
        None => None,
    }
}

/// A metadata value read as a string.
pub fn metadata_string(v: &MetaValue) -> (r: Option<String>)
    ensures
        opt_view(r) == meta_string(*v),
{
    match v {
        MetaValue::Text(s) => Some(s.clone()),
        MetaValue::List(items) => {
            let mut i: usize = 0;
            assert(items@.skip(0) =~= items@);
            while i < items.len()
                invariant
                    i <= items.len(),
                    meta_string(*v) == first_text(items@),
                    first_text(items@) == first_text(items@.skip(i as int)),
                decreases items.len() - i,
            {
                assert(items@.skip(i as int).skip(1) =~= items@.skip(i + 1));
                assert(items@.skip(i as int)[0] == items@[i as int]);
                match &items[i] {
                    Some(s) => {
                        assert(first_text(items@.skip(i as int)) == Some(s@));
                        return Some(s.clone());
                    },
                    None => {},
                }
                i = i + 1;
            }
            None
        },
        MetaValue::Other => None,
    }
}

fn field_string_exec(o: &Option<MetaValue>) -> (r: Option<String>)
    ensures
        opt_view(r) == field_string(*o),
{
    match o {
        Some(v) => metadata_string(v),
        None => None,
    }
}

/// Whether the metadata carries a Creative Commons license or public-domain
/// mark: a `licenseurl` on host creativecommons.org under `/licenses/` or
/// `/publicdomain/`.
pub open spec fn license_allowed(m: ArchiveMetadata) -> bool {
    match field_string(m.licenseurl) {
        None => false,
        Some(u) => match url_host_path(u) {
            None => false,
            Some(hp) => license_location_allowed(hp.0, hp.1),
        },
    }
}

/// Whether a parsed license URL (its host, if any, and its path) is a
/// Creative Commons license or public-domain mark.
pub open spec fn license_location_allowed(host: Option<Seq<char>>, path: Seq<char>) -> bool {
    host == Some("creativecommons.org"@) && (text::starts_with(path, "/licenses/"@) || text::starts_with(
        path,
        "/publicdomain/"@,
    ))
}

/// Whether the metadata carries an allowed license.
pub fn allowed_license(m: &ArchiveMetadata) -> (b: bool)
    ensures
        b == license_allowed(*m),
{
    let u = match field_string_exec(&m.licenseurl) {
        Some(u) => u,
        None => return false,
    };
    match parse_url_host_path(u.as_str()) {
        None => false,
        Some(hp) => is_license_location(&hp.0, hp.1.as_str()),
    }
}

/// Whether a parsed license URL (its host, if any, and its path) is a
/// Creative Commons license or public-domain mark.
pub fn is_license_location(host: &Option<String>, path: &str) -> (b: bool)
    ensures
        b == license_location_allowed(
            match host {
                Some(h) => Some(h@),
                None => None,
            },
            path@,
        ),
{
    let host_ok = match host {
        Some(h) => text::str_eq(h.as_str(), "creativecommons.org"),
        None => false,
    };
    let pv = text::chars_of(path);
    let l = text::chars_of("/licenses/");
    let d = text::chars_of("/publicdomain/");
    host_ok && (text::starts_with_exec(&pv, &l) || text::starts_with_exec(&pv, &d))
}

// ---------------------------------------------------------------- items

/// The size a file entry declares: a string parsed as `i64`, an integer,
/// else 0.
pub open spec fn size_value(s: ArchiveSize) -> i64 {
    match s {
        ArchiveSize::Text(t) => match text::parse_i64(t@) {
            Some(v) => v,
            None => 0,
        },
        ArchiveSize::Integer(n) => n,
        ArchiveSize::Absent => 0,
    }
}

/// The stem of the last path segment of `name` (empty when it has no `.`).
pub open spec fn entry_stem(name: Seq<char>) -> Seq<char> {
    match text::before_last(text::after_last(name, '/'), '.') {
        Some(b) => b,
        None => Seq::empty(),
    }
}

/// The title of a file: its own title, else the item's title when the item
/// holds a single audio file; an empty one gives way to the file's stem.
pub open spec fn entry_title(e: ArchiveEntry, name: Seq<char>, item_title: Seq<char>, audio_count: nat) -> Seq<char> {
    let own = field_string(e.title);
    let t = if own is Some {
        own
    } else if audio_count == 1 {
        Some(item_title)
    } else {
        None
    };
    match t {
        Some(x) => if x.len() > 0 {
            x
        } else {
            entry_stem(name)
        },
        None => entry_stem(name),
    }
}

/// Whether every `/`-separated segment of `name` is a plain name (not empty,
/// `.` or `..`).
pub open spec fn segments_ok(name: Seq<char>) -> bool {
    forall|i: int|
        0 <= i < text::split_on(name, seq!['/']).len() ==> {
            let g = #[trigger] text::split_on(name, seq!['/'])[i];
            g.len() > 0 && g != seq!['.'] && g != seq!['.', '.']
        }
}

/// The base of every download URL.
pub open spec fn download_base() -> Seq<char> {
    "https://archive.org/download/"@
}

/// The result for the file at `index` of an item, with its download URL, if
/// the file is offered.
pub open spec fn entry_result(
    identifier: Seq<char>,
    index: nat,
    e: ArchiveEntry,
    creator: Seq<char>,
    item_title: Seq<char>,
    audio_count: nat,
) -> Option<(SearchResultView, Seq<char>)> {
    match e.name {
        None => None,
        Some(n) => {
            let name = n@;
            match audio_ext_of(name) {
                None => None,
                Some(ext) => {
                    let size = size_value(e.size);
                    let artist = match field_string(e.artist) {
                        Some(a) => a,
                        None => creator,
                    };
                    let title = entry_title(e, name, item_title, audio_count);
                    let filename = downloads::safe_named(artist + " - "@ + title + "."@ + ext);
                    if size <= 0 || size > 2_000_000_000 || artist.len() == 0 || title.len() == 0
                        || filename.len() == 0 || !segments_ok(name) {
                        None
                    } else {
                        match url_extended(download_base(), seq![identifier] + text::split_on(name, seq!['/'])) {
                            None => None,
                            Some(url) => Some(
                                (
                                    SearchResultView {
                                        id: "archive_"@ + identifier + "_"@ + text::decimal(index),
                                        provider: "internet-archive"@,
                                        username: artist,
                                        filename,
                                        file_size: size,
                                        bitrate: None,
                                        sample_rate: None,
                                        format: ext,
                                        slots_free: true,
                                        speed_bps: 0,
                                    },
                                    url,
                                ),
                            ),
                        }
                    }
                },
            }
        },
    }
}

/// The number of audio files among the first `n` entries.
pub open spec fn audio_count(files: Seq<ArchiveEntry>, n: nat) -> nat
    decreases n,
{
    if n == 0 || n > files.len() {
        0
    } else {
        audio_count(files, (n - 1) as nat) + match files[n - 1].name {
            Some(s) => if audio_ext_of(s@) is Some {
                1nat
            } else {
                0nat
            },
            None => 0nat,
        }
    }
}

/// The results offered among the first `n` entries, in entry order.
pub open spec fn entry_results(
    identifier: Seq<char>,
    files: Seq<ArchiveEntry>,
    n: nat,
    creator: Seq<char>,
    item_title: Seq<char>,
    count: nat,
) -> Seq<(SearchResultView, Seq<char>)>
    decreases n,
{
    if n == 0 || n > files.len() {
        Seq::empty()
    } else {
        let prev = entry_results(identifier, files, (n - 1) as nat, creator, item_title, count);
        match entry_result(identifier, (n - 1) as nat, files[n - 1], creator, item_title, count) {
            Some(r) => prev.push(r),
            None => prev,
        }
    }
}

/// What an item offers: nothing unless the identifier is valid and the item
/// openly licensed; else the first 8 results of its files.
pub open spec fn item_results(identifier: Seq<char>, item: ArchiveItem) -> Seq<(SearchResultView, Seq<char>)> {
    if !identifier_ok(identifier) || !license_allowed(item.metadata) {
        Seq::empty()
    } else {
        match item.files {
            None => Seq::empty(),
            Some(files) => {
                let creator = match field_string(item.metadata.creator) {
                    Some(c) => c,
                    None => Seq::empty(),
                };
                let item_title = match field_string(item.metadata.title) {
                    Some(t) => t,
                    None => Seq::empty(),
                };
                let all = entry_results(
                    identifier,
                    files@,
                    files@.len(),
                    creator,
                    item_title,
                    audio_count(files@, files@.len()),
                );
                if all.len() > 8 {
                    all.take(8)
                } else {
                    all
                }
            },
        }
    }
}

/// The views of results paired with their download URLs.
pub open spec fn paired_views(r: Seq<(DownloadSearchResult, ArchiveFile)>) -> Seq<(SearchResultView, Seq<char>)> {
    r.map_values(|p: (DownloadSearchResult, ArchiveFile)| (p.0@, p.1.url@))
}

proof fn lemma_results_prefix(
    identifier: Seq<char>,
    files: Seq<ArchiveEntry>,
    n: nat,
    m: nat,
    creator: Seq<char>,
    item_title: Seq<char>,
    count: nat,
)
    requires
        n <= m <= files.len(),
    ensures
        entry_results(identifier, files, n, creator, item_title, count).len() <= entry_results(
            identifier,
            files,
            m,
            creator,
            item_title,
            count,
        ).len(),
        entry_results(identifier, files, m, creator, item_title, count).take(
            entry_results(identifier, files, n, creator, item_title, count).len() as int,
        ) == entry_results(identifier, files, n, creator, item_title, count),
    decreases m,
{
    let a = entry_results(identifier, files, n, creator, item_title, count);
    if n == m {
        assert(a.take(a.len() as int) =~= a);
    } else {
        lemma_results_prefix(identifier, files, n, (m - 1) as nat, creator, item_title, count);
        let b = entry_results(identifier, files, (m - 1) as nat, creator, item_title, count);
        let c = entry_results(identifier, files, m, creator, item_title, count);
        assert(c.take(b.len() as int) =~= b);
        assert(c.take(a.len() as int) =~= b.take(a.len() as int));
    }
}

fn count_audio(files: &Vec<ArchiveEntry>) -> (n: usize)
    ensures
        n == audio_count(files@, files@.len()),
{
    let mut n: usize = 0;
    let mut i: usize = 0;
    while i < files.len()
        invariant
            i <= files.len(),
            n == audio_count(files@, i as nat),
            n <= i,
        decreases files.len() - i,
    {
        match &files[i].name {
            Some(s) => {
                if audio_extension(s.as_str()).is_some() {
                    n = n + 1;
                }
            },
            None => {},
        }
        i = i + 1;
    }
    n
}

fn segments_of(name: &Vec<char>) -> (r: Option<Vec<Vec<char>>>)
    ensures
        match r {
            Some(g) => segments_ok(name@) && text::views(g@) == text::split_on(name@, seq!['/']),
            None => !segments_ok(name@),
        },
{
    let slash: Vec<char> = vec!['/'];
    assert(slash@ =~= seq!['/']);
    let parts = text::split_on_exec(name, &slash);
    let mut i: usize = 0;
    while i < parts.len()
        invariant
            i <= parts.len(),
            text::views(parts@) == text::split_on(name@, seq!['/']),
            forall|k: int|
                0 <= k < i ==> {
                    let g = #[trigger] text::split_on(name@, seq!['/'])[k];
                    g.len() > 0 && g != seq!['.'] && g != seq!['.', '.']
                },
        decreases parts.len() - i,
    {
        let g = &parts[i];
        assert(text::split_on(name@, seq!['/'])[i as int] == g@);
        let dot = g.len() == 1 && g[0] == '.';
        let dotdot = g.len() == 2 && g[0] == '.' && g[1] == '.';
        if g.len() == 0 || dot || dotdot {
            proof {
                if dot {
                    assert(g@ =~= seq!['.']);
                }
                if dotdot {
                    assert(g@ =~= seq!['.', '.']);
                }
                let gg = text::split_on(name@, seq!['/'])[i as int];
                assert(!(gg.len() > 0 && gg != seq!['.'] && gg != seq!['.', '.']));
            }
            return None;
        }
        proof {
            if g@ == seq!['.'] {
                assert(g@[0] == '.');
            }
            if g@ == seq!['.', '.'] {
                assert(g@[1] == '.');
            }
        }
        i = i + 1;
    }
    Some(parts)
}

fn strings_of(parts: &Vec<Vec<char>>) -> (r: Vec<String>)
    ensures
        r@.map_values(|s: String| s@) == text::views(parts@),
{
    let mut r: Vec<String> = Vec::new();
    let mut i: usize = 0;
    while i < parts.len()
        invariant
            i <= parts.len(),
            r.len() == i,
            forall|k: int| 0 <= k < i ==> (#[trigger] r@[k])@ == parts@[k]@,
        decreases parts.len() - i,
    {
        r.push(text::string_of(&parts[i]));
        i = i + 1;
    }
    assert(r@.map_values(|s: String| s@) =~= text::views(parts@));
    r
}

fn entry_title_exec(e: &ArchiveEntry, name: &Vec<char>, item_title: &Vec<char>, count: usize) -> (r: Vec<char>)
    ensures
        r@ == entry_title(*e, name@, item_title@, count as nat),
{
    let own = field_string_exec(&e.title);
    let t: Option<Vec<char>> = match own {
        Some(x) => Some(text::chars_of(x.as_str())),
        None => if count == 1 {
            Some(item_title.clone())
        } else {
            None
        },
    };
    let last = text::after_last_exec(name, '/');
    let stem = match text::before_last_exec(&last, '.') {
        Some(b) => b,
        None => Vec::new(),
    };
    proof {
        if text::before_last(text::after_last(name@, '/'), '.') is None {
            assert(stem@ =~= Seq::<char>::empty());
        }
    }
    match t {
        Some(x) => if x.len() > 0 {
            x
        } else {
            stem
        },
        None => stem,
    }
}

/// The result for the file at `index` of an item, if the file is offered.
fn entry_result_exec(
    identifier: &str,
    index: usize,
    e: &ArchiveEntry,
    creator: &Vec<char>,
    item_title: &Vec<char>,
    count: usize,
) -> (r: Option<(DownloadSearchResult, ArchiveFile)>)
    ensures
        match r {
            Some(p) => entry_result(identifier@, index as nat, *e, creator@, item_title@, count as nat)
                == Some((p.0@, p.1.url@)),
            None => entry_result(identifier@, index as nat, *e, creator@, item_title@, count as nat) is None,
        },
{
    let n = match &e.name {
        Some(n) => n,
        None => return None,
    };
    let ext = match audio_extension(n.as_str()) {
        Some(x) => x,
        None => return None,
    };
    let size: i64 = match &e.size {
        ArchiveSize::Text(t) => match text::parse_i64_exec(t.as_str()) {
            Some(v) => v,
            None => 0,
        },
        ArchiveSize::Integer(k) => *k,
        ArchiveSize::Absent => 0,
    };
    let name = text::chars_of(n.as_str());
    let artist: Vec<char> = match field_string_exec(&e.artist) {
        Some(a) => text::chars_of(a.as_str()),
        None => creator.clone(),
    };
    let title = entry_title_exec(e, &name, item_title, count);
    let artist_s = text::string_of(&artist);
    let title_s = text::string_of(&title);
    let joined = text::concat5(artist_s.as_str(), " - ", title_s.as_str(), ".", ext);
    let filename = safe_name(joined.as_str());
    if size <= 0 || size > 2_000_000_000 || artist.len() == 0 || title.len() == 0 {
        return None;
    }
    let fnv = text::chars_of(filename.as_str());
    if fnv.len() == 0 {
        return None;
    }
    let parts = match segments_of(&name) {
        Some(p) => p,
        None => return None,
    };
    let mut segs: Vec<String> = Vec::new();
    segs.push(identifier.to_string());
    let rest = strings_of(&parts);
    let mut k: usize = 0;
    while k < rest.len()
        invariant
            k <= rest.len(),
            segs.len() == k + 1,
            segs@[0]@ == identifier@,
            forall|j: int| 1 <= j < k + 1 ==> (#[trigger] segs@[j])@ == rest@[j - 1]@,
        decreases rest.len() - k,
    {
        segs.push(rest[k].clone());
        k = k + 1;
    }
    let ghost want = seq![identifier@] + rest@.map_values(|s: String| s@);
    let ghost got = segs@.map_values(|s: String| s@);
    assert forall|j: int| 0 <= j < segs.len() implies #[trigger] got[j] == want[j] by {
        if j > 0 {
            assert(segs@[j]@ == rest@[j - 1]@);
        }
    }
    assert(got =~= want);
    let url = match url_with_segments("https://archive.org/download/", &segs) {
        Some(u) => u,
        None => return None,
    };
    let idx = text::decimal_chars(index as u64);
    let idx_s = text::string_of(&idx);
    let id = text::concat5("archive_", identifier, "_", idx_s.as_str(), "");
    assert(id@ =~= "archive_"@ + identifier@ + "_"@ + text::decimal(index as nat)) by {
        reveal_strlit("");
    }
    let result = DownloadSearchResult {
        id,
        provider: "internet-archive".to_string(),
        username: artist_s,
        filename,
        file_size: size,
        bitrate: None,
        sample_rate: None,
        format: ext.to_string(),
        slots_free: true,
        speed_bps: 0,
    };
    Some((result, ArchiveFile { url }))
}

/// The files of an Internet Archive item that may be offered, with their
/// download URLs: at most 8, in file order.
pub fn parse_item(identifier: &str, item: &ArchiveItem) -> (r: Vec<(DownloadSearchResult, ArchiveFile)>)
    ensures
        paired_views(r@) == item_results(identifier@, *item),
{
    if !valid_identifier(identifier) || !allowed_license(&item.metadata) {
        let r: Vec<(DownloadSearchResult, ArchiveFile)> = Vec::new();
        assert(paired_views(r@) =~= Seq::empty());
        return r;
    }
    let files = match &item.files {
        Some(f) => f,
        None => {
            let r: Vec<(DownloadSearchResult, ArchiveFile)> = Vec::new();
            assert(paired_views(r@) =~= Seq::empty());
            return r;
        },
    };
    let creator: Vec<char> = match field_string_exec(&item.metadata.creator) {
        Some(c) => text::chars_of(c.as_str()),
        None => Vec::new(),
    };
    let item_title: Vec<char> = match field_string_exec(&item.metadata.title) {
        Some(t) => text::chars_of(t.as_str()),
        None => Vec::new(),
    };
    proof {
        if field_string(item.metadata.creator) is None {
            assert(creator@ =~= Seq::<char>::empty());
        }
        if field_string(item.metadata.title) is None {
            assert(item_title@ =~= Seq::<char>::empty());
        }
    }
    let count = count_audio(files);
    let ghost all = entry_results(identifier@, files@, files@.len(), creator@, item_title@, count as nat);
    assert(item_results(identifier@, *item) == (if all.len() > 8 {
        all.take(8)
    } else {
        all
    }));
    let mut out: Vec<(DownloadSearchResult, ArchiveFile)> = Vec::new();
    let mut i: usize = 0;
    while i < files.len()
        invariant
            i <= files.len(),
            all == entry_results(identifier@, files@, files@.len(), creator@, item_title@, count as nat),
            item_results(identifier@, *item) == (if all.len() > 8 {
                all.take(8)
            } else {
                all
            }),
            paired_views(out@) == entry_results(identifier@, files@, i as nat, creator@, item_title@, count as nat),
            out.len() < 8,
        decreases files.len() - i,
    {
        let ghost before = out@;
        match entry_result_exec(identifier, i, &files[i], &creator, &item_title, count) {
            Some(p) => {
                out.push(p);
                assert(paired_views(out@) =~= paired_views(before).push(
                    (out@[out.len() - 1].0@, out@[out.len() - 1].1.url@),
                ));
            },
            None => {},
        }
        i = i + 1;
        if out.len() >= 8 {
            proof {
                lemma_results_prefix(identifier@, files@, i as nat, files@.len(), creator@, item_title@, count as nat);
                assert(out.len() == 8);
                assert(all.take(8) == paired_views(out@));
                if all.len() == 8 {
                    assert(all.take(8) =~= all);
                }
            }
            return out;
        }
    }
    out
}

// ---------------------------------------------------------------- search

/// The search query for a track, or `None` when artist and title are both
/// blank. The terms are matched against creators and titles.
pub open spec fn archive_query(artist: Seq<char>, title: Seq<char>) -> Option<Seq<char>> {
    let a = text::trim(artist);
    let t = text::trim(title);
    if a.len() == 0 && t.len() == 0 {
        None
    } else {
        let terms = if a.len() == 0 {
            "title:\""@ + quoted(t) + "\""@
        } else if t.len() == 0 {
            "creator:\""@ + quoted(a) + "\" OR title:\""@ + quoted(a) + "\""@
        } else {
            "creator:\""@ + quoted(a) + "\" OR title:\""@ + quoted(t) + "\" OR title:\""@ + quoted(
                a + " "@ + t,
            ) + "\""@
        };
        Some("mediatype:(audio OR etree) AND ("@ + terms + ")"@)
    }
}

/// The advanced-search query for a track.
pub fn search_query(artist: &str, title: &str) -> (r: Option<String>)
    ensures
        opt_view(r) == archive_query(artist@, title@),
{
    let av = text::trim_str(artist);
    let tv = text::trim_str(title);
    if av.len() == 0 && tv.len() == 0 {
        return None;
    }
    let a = text::string_of(&av);
    let t = text::string_of(&tv);
    let terms = if av.len() == 0 {
        let qt = quote_term(t.as_str());
        text::concat3("title:\"", qt.as_str(), "\"")
    } else if tv.len() == 0 {
        let qa = quote_term(a.as_str());
        text::concat5("creator:\"", qa.as_str(), "\" OR title:\"", qa.as_str(), "\"")
    } else {
        let qa = quote_term(a.as_str());
        let qt = quote_term(t.as_str());
        let both = text::concat3(a.as_str(), " ", t.as_str());
        let qb = quote_term(both.as_str());
        text::concat7(
            "creator:\"",
            qa.as_str(),
            "\" OR title:\"",
            qt.as_str(),
            "\" OR title:\"",
            qb.as_str(),
            "\"",
        )
    };
    Some(text::concat3("mediatype:(audio OR etree) AND (", terms.as_str(), ")"))
}

/// An item without an allowed license, or under an invalid identifier,
/// offers nothing; any item offers at most 8 files.
pub proof fn law_only_licensed_items_offer_files(identifier: Seq<char>, item: ArchiveItem)
    ensures
        !license_allowed(item.metadata) ==> item_results(identifier, item).len() == 0,
        !identifier_ok(identifier) ==> item_results(identifier, item).len() == 0,
        item_results(identifier, item).len() <= 8,
{
}

proof fn lemma_entry_results_checked(
    identifier: Seq<char>,
    files: Seq<ArchiveEntry>,
    n: nat,
    creator: Seq<char>,
    item_title: Seq<char>,
    count: nat,
)
    ensures
        forall|k: int|
            0 <= k < entry_results(identifier, files, n, creator, item_title, count).len() ==> exists|j: int|
                0 <= j < n && j < files.len() && entry_result(identifier, j as nat, files[j], creator, item_title, count)
                    == Some(#[trigger] entry_results(identifier, files, n, creator, item_title, count)[k]),
    decreases n,
{
    if n > 0 && n <= files.len() {
        lemma_entry_results_checked(identifier, files, (n - 1) as nat, creator, item_title, count);
        let prev = entry_results(identifier, files, (n - 1) as nat, creator, item_title, count);
        let cur = entry_results(identifier, files, n, creator, item_title, count);
        assert forall|k: int| 0 <= k < cur.len() implies exists|j: int|
            0 <= j < n && j < files.len() && entry_result(identifier, j as nat, files[j], creator, item_title, count)
                == Some(#[trigger] cur[k]) by {
            if k < prev.len() {
                assert(cur[k] == prev[k]);
                let j = choose|j: int|
                    0 <= j < n - 1 && j < files.len() && entry_result(identifier, j as nat, files[j], creator, item_title, count)
                        == Some(prev[k]);
                assert(entry_result(identifier, j as nat, files[j], creator, item_title, count) == Some(cur[k]));
            } else {
                assert(entry_result(identifier, (n - 1) as nat, files[n - 1], creator, item_title, count) == Some(cur[k]));
            }
        }
    }
}

/// Every file offered has an audio extension, a size of 1 byte to 2 GB, and
/// a path whose every segment is a plain name (no `..` and no `.`).
pub proof fn law_offered_files_are_safe_audio(identifier: Seq<char>, item: ArchiveItem, k: int)
    requires
        0 <= k < item_results(identifier, item).len(),
    ensures
        item.files matches Some(files) && exists|j: int|
            0 <= j < files@.len() && ((#[trigger] files@[j]).name matches Some(n) && audio_ext_of(n@) is Some
                && segments_ok(n@)) && 0 < size_value(files@[j].size) <= 2_000_000_000,
{
    let files = item.files->0;
    let creator = match field_string(item.metadata.creator) {
        Some(c) => c,
        None => Seq::empty(),
    };
    let item_title = match field_string(item.metadata.title) {
        Some(t) => t,
        None => Seq::empty(),
    };
    let count = audio_count(files@, files@.len());
    let all = entry_results(identifier, files@, files@.len(), creator, item_title, count);
    lemma_entry_results_checked(identifier, files@, files@.len(), creator, item_title, count);
    assert(item_results(identifier, item)[k] == all[k]);
    let j = choose|j: int|
        0 <= j < files@.len() && j < files@.len() && entry_result(identifier, j as nat, files@[j], creator, item_title, count)
            == Some(all[k]);
    assert(files@[j].name is Some);
}

/// An offered file is credited to its own artist when its entry names one,
/// and to the item's creator only when it does not.
pub proof fn law_offered_file_credits_its_own_artist(
    identifier: Seq<char>,
    index: nat,
    e: ArchiveEntry,
    creator: Seq<char>,
    item_title: Seq<char>,
    audio_count: nat,
)
    ensures
        entry_result(identifier, index, e, creator, item_title, audio_count) matches Some(r) ==> {
            &&& field_string(e.artist) matches Some(a) ==> r.0.username == a
            &&& field_string(e.artist) is None ==> r.0.username == creator
            &&& r.0.username.len() > 0
        },
{
}

} // verus!
