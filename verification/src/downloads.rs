//! The model shared by the download providers: task states, search results,
//! progress reports, and the file-name rules they all apply.
//!
//! Paths follow Unix `std::path::Path` semantics: `/` separates components.
use vstd::prelude::*;
use crate::text;

verus! {

/// Lifecycle states of a download task.
#[derive(Clone, Copy, PartialEq, Eq, Debug, Structural)]
pub enum DownloadStatus {
    Queued,
    Downloading,
    Completed,
    Failed,
    Cancelled,
}

/// The status a name stands for once uppercased; unknown names are `Queued`.
pub open spec fn status_named(u: Seq<char>) -> DownloadStatus {
    if u == "QUEUED"@ {
        DownloadStatus::Queued
    } else if u == "DOWNLOADING"@ {
        DownloadStatus::Downloading
    } else if u == "COMPLETED"@ {
        DownloadStatus::Completed
    } else if u == "FAILED"@ {
        DownloadStatus::Failed
    } else if u == "CANCELLED"@ {
        DownloadStatus::Cancelled
    } else {
        DownloadStatus::Queued
    }
}

impl DownloadStatus {
    /// The stored name of the status.
    pub open spec fn name(self) -> Seq<char> {
        match self {
            DownloadStatus::Queued => "QUEUED"@,
            DownloadStatus::Downloading => "DOWNLOADING"@,
            DownloadStatus::Completed => "COMPLETED"@,
            DownloadStatus::Failed => "FAILED"@,
            DownloadStatus::Cancelled => "CANCELLED"@,
        }
    }

    pub fn as_str(&self) -> (s: &'static str)
        ensures
            s@ == self.name(),
    {
        match self {
            DownloadStatus::Queued => "QUEUED",
            DownloadStatus::Downloading => "DOWNLOADING",
            DownloadStatus::Completed => "COMPLETED",
            DownloadStatus::Failed => "FAILED",
            DownloadStatus::Cancelled => "CANCELLED",
        }
    }

    /// Reads a status name case-insensitively (by `str::to_uppercase`);
    /// anything else reads as `Queued`.
    pub fn from_str(s: &str) -> (r: DownloadStatus)
        ensures
            r == status_named(text::spec_str_uppercase(s@)),
            text::all_ascii(s@) ==> r == status_named(text::raised(s@)),
    {
        let u = text::str_to_uppercase(s);
        let us = u.as_str();
        if text::str_eq(us, "QUEUED") {
            DownloadStatus::Queued
        } else if text::str_eq(us, "DOWNLOADING") {
            DownloadStatus::Downloading
        } else if text::str_eq(us, "COMPLETED") {
            DownloadStatus::Completed
        } else if text::str_eq(us, "FAILED") {
            DownloadStatus::Failed
        } else if text::str_eq(us, "CANCELLED") {
            DownloadStatus::Cancelled
        } else {
            DownloadStatus::Queued
        }
    }
}

/// Reading back the name of a status gives the status, and so does reading
/// back its lowercase form: the names are ASCII capitals, which `from_str`
/// raises to themselves, and their ASCII lowercase forms raise back to them.
pub proof fn law_status_name_round_trip(st: DownloadStatus)
    ensures
        text::all_ascii(st.name()),
        status_named(text::raised(st.name())) == st,
        text::all_ascii(text::lowered(st.name())),
        status_named(text::raised(text::lowered(st.name()))) == st,
{
    reveal_strlit("QUEUED");
    reveal_strlit("DOWNLOADING");
    reveal_strlit("COMPLETED");
    reveal_strlit("FAILED");
    reveal_strlit("CANCELLED");
    let n = st.name();
    assert forall|i: int| 0 <= i < n.len() implies 'A' <= #[trigger] n[i] && n[i] <= 'Z' by {}
    assert(text::raised(n) =~= n);
    text::lemma_ascii_case(n);
    assert("DOWNLOADING"@[0] != "QUEUED"@[0]);
    assert("COMPLETED"@[0] != "QUEUED"@[0]);
    assert("COMPLETED"@[0] != "DOWNLOADING"@[0]);
    assert("FAILED"@[0] != "QUEUED"@[0]);
    assert("FAILED"@[0] != "DOWNLOADING"@[0]);
    assert("FAILED"@[0] != "COMPLETED"@[0]);
    assert("CANCELLED"@[1] != "QUEUED"@[1]);
    assert("CANCELLED"@[0] != "DOWNLOADING"@[0]);
    assert("CANCELLED"@[1] != "COMPLETED"@[1]);
    assert("CANCELLED"@[0] != "FAILED"@[0]);
}

/// A search result returned by a download provider.
#[derive(Debug)]
pub struct DownloadSearchResult {
    pub id: String,
    pub provider: String,
    pub username: String,
    pub filename: String,
    pub file_size: i64,
    pub bitrate: Option<u32>,
    pub sample_rate: Option<u32>,
    pub format: String,
    pub slots_free: bool,
    pub speed_bps: u64,
}

pub struct SearchResultView {
    pub id: Seq<char>,
    pub provider: Seq<char>,
    pub username: Seq<char>,
    pub filename: Seq<char>,
    pub file_size: i64,
    pub bitrate: Option<u32>,
    pub sample_rate: Option<u32>,
    pub format: Seq<char>,
    pub slots_free: bool,
    pub speed_bps: u64,
}

impl View for DownloadSearchResult {
    type V = SearchResultView;

    open spec fn view(&self) -> SearchResultView {
        SearchResultView {
            id: self.id@,
            provider: self.provider@,
            username: self.username@,
            filename: self.filename@,
            file_size: self.file_size,
            bitrate: self.bitrate,
            sample_rate: self.sample_rate,
            format: self.format@,
            slots_free: self.slots_free,
            speed_bps: self.speed_bps,
        }
    }
}

/// The views of a sequence of results.
pub open spec fn result_views(s: Seq<DownloadSearchResult>) -> Seq<SearchResultView> {
    s.map_values(|r: DownloadSearchResult| r@)
}

impl DownloadSearchResult {
    /// A copy of the result.
    pub fn copy(&self) -> (c: DownloadSearchResult)
        ensures
            c@ == self@,
    {
        DownloadSearchResult {
            id: self.id.clone(),
            provider: self.provider.clone(),
            username: self.username.clone(),
            filename: self.filename.clone(),
            file_size: self.file_size,
            bitrate: self.bitrate,
            sample_rate: self.sample_rate,
            format: self.format.clone(),
            slots_free: self.slots_free,
            speed_bps: self.speed_bps,
        }
    }
}

/// Progress metrics for an active download.
#[derive(Debug)]
pub struct DownloadProgress {
    pub task_id: String,
    pub bytes_downloaded: i64,
    pub total_bytes: i64,
    pub speed_bps: u64,
    pub status: DownloadStatus,
}

// ---------------------------------------------------------------- file names

/// The characters that file names may not hold on common file systems.
pub open spec fn unsafe_name_char(c: char) -> bool {
    c == '/' || c == '\\' || c == ':' || c == '*' || c == '?' || c == '"' || c == '<' || c == '>'
        || c == '|'
}

/// `s` with every unsafe character replaced by `_`.
pub open spec fn sanitized(s: Seq<char>) -> Seq<char> {
    Seq::new(s.len(), |i: int| if unsafe_name_char(s[i]) { '_' } else { s[i] })
}

/// `s` with every unsafe or control character replaced by `_`, then trimmed.
pub open spec fn safe_named(s: Seq<char>) -> Seq<char> {
    text::trim(
        Seq::new(
            s.len(),
            |i: int| if unsafe_name_char(s[i]) || text::control_char(s[i]) { '_' } else { s[i] },
        ),
    )
}

fn is_unsafe_name_char(c: char) -> (b: bool)
    ensures
        b == unsafe_name_char(c),
{
    c == '/' || c == '\\' || c == ':' || c == '*' || c == '?' || c == '"' || c == '<' || c == '>'
        || c == '|'
}

/// Cleans a file name of characters unsafe on file systems.
pub fn sanitize_filename(name: &str) -> (r: String)
    ensures
        r@ == sanitized(name@),
{
    let v = text::chars_of(name);
    let mut out: Vec<char> = Vec::new();
    let mut i: usize = 0;
    while i < v.len()
        invariant
            i <= v.len(),
            v@ == name@,
            out.len() == i,
            forall|k: int| 0 <= k < i ==> out@[k] == (if unsafe_name_char(v@[k]) { '_' } else { v@[k] }),
        decreases v.len() - i,
    {
        let c = v[i];
        if is_unsafe_name_char(c) {
            out.push('_');
        } else {
            out.push(c);
        }
        i = i + 1;
    }
    assert(out@ =~= sanitized(name@));
    text::string_of(&out)
}

/// A file name made safe: unsafe and control characters become `_`, and the
/// result is trimmed.
pub fn safe_file_name(value: &str) -> (r: String)
    ensures
        r@ == safe_named(value@),
{
    let v = text::chars_of(value);
    let mut out: Vec<char> = Vec::new();
    let mut i: usize = 0;
    while i < v.len()
        invariant
            i <= v.len(),
            v@ == value@,
            out.len() == i,
            forall|k: int|
                0 <= k < i ==> out@[k] == (if unsafe_name_char(v@[k]) || text::control_char(v@[k]) {
                    '_'
                } else {
                    v@[k]
                }),
        decreases v.len() - i,
    {
        let c = v[i];
        if is_unsafe_name_char(c) || text::char_is_control(c) {
            out.push('_');
        } else {
            out.push(c);
        }
        i = i + 1;
    }
    assert(out@ =~= Seq::new(
        value@.len(),
        |k: int|
            if unsafe_name_char(value@[k]) || text::control_char(value@[k]) {
                '_'
            } else {
                value@[k]
            },
    ));
    let t = text::trim_chars(&out);
    text::string_of(&t)
}

/// The last normal component of a path (`Path::file_name`): trailing `/` and
/// `.` components are skipped; `..`, the root and an empty path have none.
pub open spec fn path_file_name(p: Seq<char>) -> Option<Seq<char>>
    decreases p.len(),
{
    if p.len() == 0 {
        None
    } else if p.last() == '/' {
        path_file_name(p.drop_last())
    } else {
        let last = text::after_last(p, '/');
        if last == seq!['.', '.'] {
            None
        } else if last == seq!['.'] {
            match text::before_last(p, '/') {
                Some(b) => {
                    proof {
                        text::lemma_last_index(p, '/');
                    }
                    path_file_name(b)
                },
                None => None,
            }
        } else {
            Some(last)
        }
    }
}

/// The stem of a file name (`Path::file_stem` after `file_name`): the part
/// before the last `.`, unless that part is empty or there is no `.`.
pub open spec fn name_stem(name: Seq<char>) -> Seq<char> {
    match text::before_last(name, '.') {
        Some(b) => if b.len() > 0 {
            b
        } else {
            name
        },
        None => name,
    }
}

/// The extension of a file name (`Path::extension` after `file_name`).
pub open spec fn name_extension(name: Seq<char>) -> Option<Seq<char>> {
    match text::before_last(name, '.') {
        Some(b) => if b.len() > 0 {
            Some(text::after_last(name, '.'))
        } else {
            None
        },
        None => None,
    }
}

/// `Path::file_stem` of the path `p`.
pub open spec fn path_file_stem(p: Seq<char>) -> Option<Seq<char>> {
    match path_file_name(p) {
        Some(n) => Some(name_stem(n)),
        None => None,
    }
}

/// `Path::extension` of the path `p`.
pub open spec fn path_extension(p: Seq<char>) -> Option<Seq<char>> {
    match path_file_name(p) {
        Some(n) => name_extension(n),
        None => None,
    }
}

fn is_dot_dot(v: &Vec<char>) -> (b: bool)
    ensures
        b == (v@ == seq!['.', '.']),
{
    if v.len() == 2 && v[0] == '.' && v[1] == '.' {
        assert(v@ =~= seq!['.', '.']);
        true
    } else {
        false
    }
}

fn is_dot(v: &Vec<char>) -> (b: bool)
    ensures
        b == (v@ == seq!['.']),
{
    if v.len() == 1 && v[0] == '.' {
        assert(v@ =~= seq!['.']);
        true
    } else {
        false
    }
}

/// The last normal component of the path `p`.
pub fn file_name_of(p: &Vec<char>) -> (r: Option<Vec<char>>)
    ensures
        match r {
            Some(n) => path_file_name(p@) == Some(n@),
            None => path_file_name(p@) is None,
        },
    decreases p.len(),
{
    if p.len() == 0 {
        None
    } else if p[p.len() - 1] == '/' {
        let q = text::slice_chars(p, 0, p.len() - 1);
        assert(q@ =~= p@.drop_last());
        file_name_of(&q)
    } else {
        let last = text::after_last_exec(p, '/');
        if is_dot_dot(&last) {
            None
        } else if is_dot(&last) {
            proof {
                text::lemma_last_index(p@, '/');
            }
            match text::before_last_exec(p, '/') {
                Some(b) => file_name_of(&b),
                None => None,
            }
        } else {
            Some(last)
        }
    }
}

/// The stem of the file name `n`.
pub fn stem_of(n: &Vec<char>) -> (r: Vec<char>)
    ensures
        r@ == name_stem(n@),
{
    match text::before_last_exec(n, '.') {
        Some(b) => if b.len() > 0 {
            b
        } else {
            n.clone()
        },
        None => n.clone(),
    }
}

/// The extension of the file name `n`.
pub fn extension_of(n: &Vec<char>) -> (r: Option<Vec<char>>)
    ensures
        match r {
            Some(e) => name_extension(n@) == Some(e@),
            None => name_extension(n@) is None,
        },
{
    match text::before_last_exec(n, '.') {
        Some(b) => if b.len() > 0 {
            Some(text::after_last_exec(n, '.'))
        } else {
            None
        },
        None => None,
    }
}

/// The artist and title read from "Artist - Title.ext", trimmed; without the
/// separator, "Unknown Artist" and the whole stem.
pub open spec fn artist_title_of(filename: Seq<char>) -> (Seq<char>, Seq<char>) {
    let clean = match path_file_stem(filename) {
        Some(s) => s,
        None => filename,
    };
    match text::find(clean, seq![' ', '-', ' ']) {
        Some(p) => (text::trim(clean.take(p)), text::trim(clean.skip(p + 3))),
        None => ("Unknown Artist"@, clean),
    }
}

/// Reads "Artist - Title.ext" or "Title.ext" from a file name.
pub fn parse_artist_title_from_filename(filename: &str) -> (r: (String, String))
    ensures
        (r.0@, r.1@) == artist_title_of(filename@),
{
    let fv = text::chars_of(filename);
    let clean = match file_name_of(&fv) {
        Some(n) => stem_of(&n),
        None => fv,
    };
    let sep: Vec<char> = vec![' ', '-', ' '];
    assert(sep@ =~= seq![' ', '-', ' ']);
    match text::find_exec(&clean, &sep) {
        Some(p) => {
            proof {
                text::lemma_find_bounds(clean@, sep@, 0);
            }
            let a = text::slice_chars(&clean, 0, p);
            let t = text::slice_chars(&clean, p + 3, clean.len());
            assert(a@ =~= clean@.take(p as int));
            assert(t@ =~= clean@.skip(p + 3));
            let at = text::trim_chars(&a);
            let tt = text::trim_chars(&t);
            (text::string_of(&at), text::string_of(&tt))
        },
        None => ("Unknown Artist".to_string(), text::string_of(&clean)),
    }
}

/// A sanitized name holds none of the characters unsafe in file names, and a
/// safe name neither those nor control characters (each was replaced by `_`).
pub proof fn law_safe_names_hold_no_unsafe_characters(s: Seq<char>)
    ensures
        forall|i: int| 0 <= i < sanitized(s).len() ==> !unsafe_name_char(#[trigger] sanitized(s)[i]),
        forall|i: int|
            0 <= i < safe_named(s).len() ==> !unsafe_name_char(#[trigger] safe_named(s)[i]) && (safe_named(s)[i]
                == '_' || !text::control_char(safe_named(s)[i])),
{
    let m = Seq::new(
        s.len(),
        |i: int| if unsafe_name_char(s[i]) || text::control_char(s[i]) { '_' } else { s[i] },
    );
    text::lemma_trim_shape_sub(m);
    assert forall|i: int| 0 <= i < safe_named(s).len() implies !unsafe_name_char(#[trigger] safe_named(s)[i])
        && (safe_named(s)[i] == '_' || !text::control_char(safe_named(s)[i])) by {
        let j = choose|j: int| 0 <= j < m.len() && m[j] == #[trigger] text::trim(m)[i];
    }
}

} // verus!
