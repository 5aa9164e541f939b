//! The music library's rules: which files are audio, which paths lie inside a
//! library folder, what a scan leaves unchanged or prunes, and the labels a
//! scanned file gets.
//!
//! Paths follow Unix `std::path::Path` semantics. Canonical paths come from
//! the file system, and tags from the tag reader; both reach this module as
//! plain values.
use vstd::prelude::*;
use crate::text;
use crate::downloads;
use crate::matcher::opt_view;

verus! {

/// The audio formats the library reads, by lowercase extension.
pub open spec fn supported_extensions() -> Seq<Seq<char>> {
    seq!["mp3"@, "flac"@, "ogg"@, "oga"@, "opus"@, "m4a"@, "aac"@, "wav"@]
}

/// Whether the path's extension, lowercased, is a supported audio format.
pub open spec fn supported_audio(path: Seq<char>) -> bool {
    match downloads::path_extension(path) {
        Some(e) => supported_extensions().contains(text::spec_str_lowercase(e)),
        None => false,
    }
}

/// Whether the file at `path` has a supported audio extension.
pub fn is_supported_audio_format(path: &str) -> (b: bool)
    ensures
        b == supported_audio(path@),
{
    let pv = text::chars_of(path);
    let name = match downloads::file_name_of(&pv) {
        Some(n) => n,
        None => return false,
    };
    let ext = match downloads::extension_of(&name) {
        Some(e) => e,
        None => return false,
    };
    let es = text::string_of(&ext);
    let lower = text::str_to_lowercase(es.as_str());
    let l = lower.as_str();
    let exts: [&str; 8] = ["mp3", "flac", "ogg", "oga", "opus", "m4a", "aac", "wav"];
    let mut i: usize = 0;
    while i < 8
        invariant
            i <= 8,
            lower@ == text::spec_str_lowercase(ext@),
            l@ == lower@,
            downloads::path_extension(path@) == Some(ext@),
            forall|k: int| 0 <= k < 8 ==> (#[trigger] exts@[k])@ == supported_extensions()[k],
            forall|k: int| 0 <= k < i ==> supported_extensions()[k] != lower@,
        decreases 8 - i,
    {
        assert(exts@[i as int]@ == supported_extensions()[i as int]);
        if text::str_eq(l, exts[i]) {
            assert(supported_extensions()[i as int] == lower@);
            return true;
        }
        i = i + 1;
    }
    false
}

/// `pieces` without the empty and `.` ones.
pub open spec fn normal_pieces(pieces: Seq<Seq<char>>) -> Seq<Seq<char>>
    decreases pieces.len(),
{
    if pieces.len() == 0 {
        Seq::empty()
    } else {
        let rest = normal_pieces(pieces.drop_last());
        let p = pieces.last();
        if p.len() == 0 || p == seq!['.'] {
            rest
        } else {
            rest.push(p)
        }
    }
}

/// The components of a path (`Path::components`): the root `/` if absolute,
/// a leading `.`, then the nonempty, non-`.` pieces between slashes.
pub open spec fn path_components(p: Seq<char>) -> Seq<Seq<char>> {
    let pieces = text::split_on(p, seq!['/']);
    if p.len() > 0 && p[0] == '/' {
        seq![seq!['/']] + normal_pieces(pieces)
    } else if pieces.len() > 0 && pieces[0] == seq!['.'] {
        seq![seq!['.']] + normal_pieces(pieces.skip(1))
    } else {
        normal_pieces(pieces)
    }
}

/// Whether `base`'s components begin the components of `p` (`Path::starts_with`).
pub open spec fn path_starts_with(p: Seq<char>, base: Seq<char>) -> bool {
    let a = path_components(p);
    let b = path_components(base);
    b.len() <= a.len() && a.take(b.len() as int) == b
}

fn normal_pieces_exec(pieces: &Vec<Vec<char>>, from: usize) -> (r: Vec<Vec<char>>)
    requires
        from <= pieces.len(),
    ensures
        text::views(r@) == normal_pieces(text::views(pieces@).skip(from as int)),
{
    let mut out: Vec<Vec<char>> = Vec::new();
    let mut i: usize = from;
    assert(text::views(pieces@).skip(from as int).take(0) =~= Seq::<Seq<char>>::empty());
    while i < pieces.len()
        invariant
            from <= i <= pieces.len(),
            text::views(out@) == normal_pieces(text::views(pieces@).skip(from as int).take(i - from)),
        decreases pieces.len() - i,
    {
        let ghost s = text::views(pieces@).skip(from as int);
        assert(s.take(i - from + 1).drop_last() =~= s.take(i - from));
        assert(s.take(i - from + 1).last() == pieces@[i as int]@);
        let p = &pieces[i];
        let dot = p.len() == 1 && p[0] == '.';
        proof {
            if p@ == seq!['.'] {
                assert(p@[0] == '.');
            }
            if dot {
                assert(p@ =~= seq!['.']);
            }
        }
        if !(p.len() == 0 || dot) {
            let ghost before = out@;
            out.push(p.clone());
            assert(text::views(out@) =~= text::views(before).push(p@));
        }
        i = i + 1;
    }
    assert(text::views(pieces@).skip(from as int).take(pieces.len() - from) =~= text::views(pieces@).skip(
        from as int,
    ));
    out
}

fn components_exec(p: &Vec<char>) -> (r: Vec<Vec<char>>)
    ensures
        text::views(r@) == path_components(p@),
{
    let slash: Vec<char> = vec!['/'];
    assert(slash@ =~= seq!['/']);
    let pieces = text::split_on_exec(p, &slash);
    assert(text::views(pieces@).skip(0) =~= text::views(pieces@));
    if p.len() > 0 && p[0] == '/' {
        let rest = normal_pieces_exec(&pieces, 0);
        let mut out: Vec<Vec<char>> = Vec::new();
        out.push(slash);
        push_all(&mut out, &rest);
        out
    } else if pieces.len() > 0 && pieces[0].len() == 1 && pieces[0][0] == '.' {
        assert(pieces@[0]@ =~= seq!['.']);
        assert(text::views(pieces@)[0] == pieces@[0]@);
        let rest = normal_pieces_exec(&pieces, 1);
        let mut out: Vec<Vec<char>> = Vec::new();
        let dot: Vec<char> = vec!['.'];
        assert(dot@ =~= seq!['.']);
        out.push(dot);
        push_all(&mut out, &rest);
        out
    } else {
        proof {
            if pieces.len() > 0 && text::views(pieces@)[0] == seq!['.'] {
                assert(text::views(pieces@)[0] == pieces@[0]@);
                assert(pieces@[0]@[0] == '.');
            }
        }
        normal_pieces_exec(&pieces, 0)
    }
}

fn push_all(out: &mut Vec<Vec<char>>, rest: &Vec<Vec<char>>)
    ensures
        text::views(final(out)@) == text::views(old(out)@) + text::views(rest@),
{
    let mut i: usize = 0;
    while i < rest.len()
        invariant
            i <= rest.len(),
            text::views(out@) == text::views(old(out)@) + text::views(rest@).take(i as int),
        decreases rest.len() - i,
    {
        let ghost before = out@;
        out.push(rest[i].clone());
        assert(text::views(out@) =~= text::views(before).push(rest@[i as int]@));
        assert(text::views(rest@).take(i + 1) =~= text::views(rest@).take(i as int).push(rest@[i as int]@));
        i = i + 1;
    }
    assert(text::views(rest@).take(rest.len() as int) =~= text::views(rest@));
}

/// Whether the path `p` lies under `base`, component by component.
pub fn path_starts_with_exec(p: &str, base: &str) -> (b: bool)
    ensures
        b == path_starts_with(p@, base@),
{
    let pv = text::chars_of(p);
    let bv = text::chars_of(base);
    let a = components_exec(&pv);
    let c = components_exec(&bv);
    if c.len() > a.len() {
        return false;
    }
    let mut i: usize = 0;
    while i < c.len()
        invariant
            c.len() <= a.len(),
            i <= c.len(),
            text::views(a@) == path_components(p@),
            text::views(c@) == path_components(base@),
            forall|k: int| 0 <= k < i ==> text::views(a@)[k] == text::views(c@)[k],
        decreases c.len() - i,
    {
        assert(text::views(a@)[i as int] == a@[i as int]@);
        assert(text::views(c@)[i as int] == c@[i as int]@);
        if !text::chars_eq(&a[i], &c[i]) {
            assert(text::views(a@).take(c.len() as int)[i as int] != text::views(c@)[i as int]);
            return false;
        }
        i = i + 1;
    }
    assert(text::views(a@).take(c.len() as int) =~= text::views(c@));
    true
}

/// Whether a path lies inside a library root, judged on canonical paths:
/// never when the root has none; by the candidate's own canonical path when
/// it has one, else by its parent's.
pub open spec fn within_boundary(
    canonical_root: Option<Seq<char>>,
    canonical_candidate: Option<Seq<char>>,
    canonical_parent: Option<Seq<char>>,
) -> bool {
    match canonical_root {
        None => false,
        Some(root) => match canonical_candidate {
            Some(c) => path_starts_with(c, root),
            None => match canonical_parent {
                Some(p) => path_starts_with(p, root),
                None => false,
            },
        },
    }
}

/// Strict path containment on canonical paths (`None` where the file system
/// could not canonicalize).
pub fn is_within_boundary(
    canonical_root: Option<String>,
    canonical_candidate: Option<String>,
    canonical_parent: Option<String>,
) -> (b: bool)
    ensures
        b == within_boundary(opt_view(canonical_root), opt_view(canonical_candidate), opt_view(canonical_parent)),
{
    let root = match canonical_root {
        Some(r) => r,
        None => return false,
    };
    match canonical_candidate {
        Some(c) => path_starts_with_exec(c.as_str(), root.as_str()),
        None => match canonical_parent {
            Some(p) => path_starts_with_exec(p.as_str(), root.as_str()),
            None => false,
        },
    }
}

/// Scanner statistics outcome.
#[derive(Clone, Copy, Debug, Default)]
pub struct ScanSummary {
    pub added_tracks: usize,
    pub updated_tracks: usize,
    pub unchanged_tracks: usize,
    pub removed_tracks: usize,
    pub duration_ms: u64,
}

/// Whether a walked entry is scanned: a file with a supported extension,
/// whose path and canonical path both lie under the canonical root.
pub open spec fn in_scan_scope(root: Seq<char>, path: Seq<char>, is_file: bool, canonical: Seq<char>) -> bool {
    path_starts_with(path, root) && is_file && supported_audio(path) && path_starts_with(canonical, root)
}

/// Whether a walked entry is scanned.
pub fn is_in_scan_scope(root: &str, path: &str, is_file: bool, canonical: &str) -> (b: bool)
    ensures
        b == in_scan_scope(root@, path@, is_file, canonical@),
{
    path_starts_with_exec(path, root) && is_file && is_supported_audio_format(path) && path_starts_with_exec(
        canonical,
        root,
    )
}

/// Whether an incremental scan may skip a file: its stored size and
/// modification time are those on disk.
pub open spec fn unchanged_on_disk(incremental: bool, stored: Option<(i64, i64)>, size: i64, mtime: i64) -> bool {
    incremental && stored == Some((size, mtime))
}

/// Whether an incremental scan may skip a file.
pub fn is_unchanged_on_disk(incremental: bool, stored: Option<(i64, i64)>, size: i64, mtime: i64) -> (b: bool)
    ensures
        b == unchanged_on_disk(incremental, stored, size, mtime),
{
    match stored {
        Some(s) => incremental && s.0 == size && s.1 == mtime,
        None => false,
    }
}

/// The stored paths that the scan did not find, in stored order.
pub open spec fn pruned(existing: Seq<Seq<char>>, found: Seq<Seq<char>>) -> Seq<Seq<char>>
    decreases existing.len(),
{
    if existing.len() == 0 {
        Seq::empty()
    } else {
        let rest = pruned(existing.drop_last(), found);
        if found.contains(existing.last()) {
            rest
        } else {
            rest.push(existing.last())
        }
    }
}

fn found_contains(found: &Vec<String>, p: &String) -> (b: bool)
    ensures
        b == found@.map_values(|s: String| s@).contains(p@),
{
    let ghost fv = found@.map_values(|s: String| s@);
    let mut i: usize = 0;
    while i < found.len()
        invariant
            i <= found.len(),
            fv == found@.map_values(|s: String| s@),
            forall|k: int| 0 <= k < i ==> fv[k] != p@,
        decreases found.len() - i,
    {
        if text::str_eq(found[i].as_str(), p.as_str()) {
            assert(fv[i as int] == p@);
            return true;
        }
        i = i + 1;
    }
    false
}

/// The stored paths of a folder that a scan did not find again.
pub fn pruned_paths(existing: &Vec<String>, found: &Vec<String>) -> (r: Vec<String>)
    ensures
        r@.map_values(|s: String| s@) == pruned(existing@.map_values(|s: String| s@), found@.map_values(
            |s: String| s@,
        )),
{
    let ghost ev = existing@.map_values(|s: String| s@);
    let ghost fv = found@.map_values(|s: String| s@);
    let mut out: Vec<String> = Vec::new();
    let mut i: usize = 0;
    while i < existing.len()
        invariant
            i <= existing.len(),
            ev == existing@.map_values(|s: String| s@),
            fv == found@.map_values(|s: String| s@),
            out@.map_values(|s: String| s@) == pruned(ev.take(i as int), fv),
        decreases existing.len() - i,
    {
        assert(ev.take(i + 1).drop_last() =~= ev.take(i as int));
        assert(ev.take(i + 1).last() == existing@[i as int]@);
        if !found_contains(found, &existing[i]) {
            let ghost before = out@;
            out.push(existing[i].clone());
            assert(out@.map_values(|s: String| s@) =~= before.map_values(|s: String| s@).push(existing@[i as int]@));
        }
        i = i + 1;
    }
    assert(ev.take(existing.len() as int) =~= ev);
    out
}

/// The labels a scanned file gets.
#[derive(Debug)]
pub struct TrackLabels {
    pub title: String,
    pub artist: Option<String>,
    pub album: Option<String>,
    pub genre: Option<String>,
    pub format: String,
}

/// A tag value kept only when it is not blank.
pub open spec fn nonblank(o: Option<String>) -> Option<Seq<char>> {
    match o {
        Some(s) => if text::trim(s@).len() > 0 {
            Some(s@)
        } else {
            None
        },
        None => None,
    }
}

/// The labels of a scanned file from its tags: a blank title gives way to
/// the file stem ("Unknown Title" without one); blank artist, album and
/// genre are dropped; the format is the lowercased extension, or "unknown".
pub open spec fn labels_of(
    path: Seq<char>,
    title: Option<String>,
    artist: Option<String>,
    album: Option<String>,
    genre: Option<String>,
    l: TrackLabels,
) -> bool {
    &&& l.title@ == match nonblank(title) {
        Some(t) => t,
        None => match downloads::path_file_stem(path) {
            Some(s) => s,
            None => "Unknown Title"@,
        },
    }
    &&& opt_view(l.artist) == nonblank(artist)
    &&& opt_view(l.album) == nonblank(album)
    &&& opt_view(l.genre) == nonblank(genre)
    &&& l.format@ == text::spec_str_lowercase(
        match downloads::path_extension(path) {
            Some(e) => e,
            None => "unknown"@,
        },
    )
}

fn nonblank_exec(o: Option<String>) -> (r: Option<String>)
    ensures
        opt_view(r) == nonblank(o),
{
    match o {
        Some(s) => {
            let t = text::trim_str(s.as_str());
            if t.len() > 0 {
                Some(s)
            } else {
                None
            }
        },
        None => None,
    }
}

/// The labels of a scanned file from its path and tags.
pub fn track_labels(
    path: &str,
    title: Option<String>,
    artist: Option<String>,
    album: Option<String>,
    genre: Option<String>,
) -> (l: TrackLabels)
    ensures
        labels_of(path@, title, artist, album, genre, l),
{
    let pv = text::chars_of(path);
    let name = downloads::file_name_of(&pv);
    let t: String = match nonblank_exec(title) {
        Some(t) => t,
        None => match &name {
            Some(n) => {
                let s = downloads::stem_of(n);
                text::string_of(&s)
            },
            None => "Unknown Title".to_string(),
        },
    };
    let ext: String = match &name {
        Some(n) => match downloads::extension_of(n) {
            Some(e) => text::string_of(&e),
            None => "unknown".to_string(),
        },
        None => "unknown".to_string(),
    };
    TrackLabels {
        title: t,
        artist: nonblank_exec(artist),
        album: nonblank_exec(album),
        genre: nonblank_exec(genre),
        format: text::str_to_lowercase(ext.as_str()),
    }
}

/// Whether the stored onboarding flag says onboarding is complete.
pub open spec fn onboarding_done(flag: Option<Seq<char>>) -> bool {
    flag == Some("true"@)
}

/// Whether the stored onboarding flag says onboarding is complete.
pub fn is_onboarding_completed(flag: &Option<String>) -> (b: bool)
    ensures
        b == onboarding_done(opt_view(*flag)),
{
    match flag {
        Some(v) => text::str_eq(v.as_str(), "true"),
        None => false,
    }
}

// ---------------------------------------------------------------- queries

/// The key under which a name is matched: trimmed and lowercased.
pub open spec fn normalized(name: Seq<char>) -> Seq<char> {
    text::spec_str_lowercase(text::trim(name))
}

/// The key under which an artist, album, genre or title is matched.
pub fn normalized_name(name: &str) -> (r: String)
    ensures
        r@ == normalized(name@),
{
    let t = text::trim_str(name);
    let ts = text::string_of(&t);
    text::str_to_lowercase(ts.as_str())
}

/// The column a track listing is ordered by, for a requested sort key.
pub open spec fn order_column(sort_by: Option<Seq<char>>) -> Seq<char> {
    match sort_by {
        Some(k) => if k == "artist"@ {
            "artist_name"@
        } else if k == "album"@ {
            "album_title"@
        } else if k == "duration"@ {
            "t.duration_secs"@
        } else if k == "year"@ {
            "t.year"@
        } else {
            "t.title"@
        },
        None => "t.title"@,
    }
}

/// The ordering clause of a track listing: the column for the requested sort
/// key (the title for any other) and the direction.
pub fn track_order(sort_by: &Option<String>, ascending: bool) -> (r: (String, String))
    ensures
        r.0@ == order_column(opt_view(*sort_by)),
        r.1@ == (if ascending {
            "ASC"@
        } else {
            "DESC"@
        }),
{
    let col: &str = match sort_by {
        Some(k) => {
            let ks = k.as_str();
            if text::str_eq(ks, "artist") {
                "artist_name"
            } else if text::str_eq(ks, "album") {
                "album_title"
            } else if text::str_eq(ks, "duration") {
                "t.duration_secs"
            } else if text::str_eq(ks, "year") {
                "t.year"
            } else {
                "t.title"
            }
        },
        None => "t.title",
    };
    let order = if ascending {
        "ASC"
    } else {
        "DESC"
    };
    (col.to_string(), order.to_string())
}

/// Only the fixed column names can reach the ordering clause, whatever the
/// requested sort key.
pub proof fn law_order_column_is_fixed(sort_by: Option<Seq<char>>)
    ensures
        order_column(sort_by) == "artist_name"@ || order_column(sort_by) == "album_title"@ || order_column(
            sort_by,
        ) == "t.duration_secs"@ || order_column(sort_by) == "t.year"@ || order_column(sort_by) == "t.title"@,
{
}

/// The full-text query for a search: the query without `"`, trimmed, as a
/// quoted prefix match; none when that is empty.
pub open spec fn fts_query_of(query: Seq<char>) -> Option<Seq<char>> {
    let cleaned = text::trim(text::replace_all(query, seq!['"'], Seq::empty()));
    if cleaned.len() == 0 {
        None
    } else {
        Some(seq!['"'] + cleaned + seq!['"', '*'])
    }
}

/// The full-text query for a library search.
pub fn fts_query(query: &str) -> (r: Option<String>)
    ensures
        opt_view(r) == fts_query_of(query@),
{
    let qv = text::chars_of(query);
    let quote: Vec<char> = vec!['"'];
    let none: Vec<char> = Vec::new();
    assert(quote@ =~= seq!['"']);
    assert(none@ =~= Seq::<char>::empty());
    let removed = text::replace_all_exec(&qv, &quote, &none);
    let cleaned = text::trim_chars(&removed);
    if cleaned.len() == 0 {
        return None;
    }
    let close: Vec<char> = vec!['"', '*'];
    assert(close@ =~= seq!['"', '*']);
    let a = text::concat_chars(&quote, &cleaned);
    let b = text::concat_chars(&a, &close);
    Some(text::string_of(&b))
}

proof fn lemma_replace_removes(s: Seq<char>, c: char)
    ensures
        forall|i: int|
            0 <= i < text::replace_all(s, seq![c], Seq::empty()).len() ==> (#[trigger] text::replace_all(
                s,
                seq![c],
                Seq::empty(),
            )[i]) != c,
    decreases s.len(),
{
    let n = seq![c];
    match text::find(s, n) {
        Some(p) => {
            text::lemma_find_bounds(s, n, 0);
            let rest = s.skip(p + 1);
            lemma_replace_removes(rest, c);
            lemma_no_earlier(s, n, 0, p);
            let r = text::replace_all(s, n, Seq::empty());
            assert(r =~= s.take(p) + text::replace_all(rest, n, Seq::empty()));
            assert forall|i: int| 0 <= i < r.len() implies #[trigger] r[i] != c by {
                if i < p {
                    assert(r[i] == s[i]);
                    assert(!text::matches_at(s, n, i));
                    assert(s.subrange(i, i + 1) =~= seq![s[i]]);
                } else {
                    assert(r[i] == text::replace_all(rest, n, Seq::empty())[i - p]);
                }
            }
        },
        None => {
            lemma_none_anywhere(s, n, 0);
            assert forall|i: int| 0 <= i < s.len() implies #[trigger] s[i] != c by {
                assert(!text::matches_at(s, n, i));
                assert(s.subrange(i, i + 1) =~= seq![s[i]]);
            }
        },
    }
}

proof fn lemma_no_earlier(h: Seq<char>, n: Seq<char>, i: int, p: int)
    requires
        0 <= i <= p,
        text::find_from(h, n, i) == Some(p),
    ensures
        forall|j: int| i <= j < p ==> !text::matches_at(h, n, j),
    decreases p - i,
{
    if i < p {
        lemma_no_earlier(h, n, i + 1, p);
    }
}

proof fn lemma_none_anywhere(h: Seq<char>, n: Seq<char>, i: int)
    requires
        0 <= i,
        text::find_from(h, n, i) is None,
    ensures
        forall|j: int| i <= j ==> !text::matches_at(h, n, j),
    decreases h.len() + 1 - i,
{
    if i + n.len() <= h.len() {
        lemma_none_anywhere(h, n, i + 1);
    }
}

/// A full-text query holds no `"` besides the two that quote it.
pub proof fn law_fts_query_is_quoted(query: Seq<char>)
    ensures
        match fts_query_of(query) {
            Some(q) => q.len() >= 3 && q[0] == '"' && q[q.len() - 2] == '"' && q[q.len() - 1] == '*' && forall|
                i: int,
            | 0 < i < q.len() - 2 ==> q[i] != '"',
            None => true,
        },
{
    let removed = text::replace_all(query, seq!['"'], Seq::empty());
    lemma_replace_removes(query, '"');
    let cleaned = text::trim(removed);
    text::lemma_trim_shape_sub(removed);
    if cleaned.len() > 0 {
        let q = seq!['"'] + cleaned + seq!['"', '*'];
        assert forall|i: int| 0 < i < q.len() - 2 implies q[i] != '"' by {
            assert(q[i] == cleaned[i - 1]);
            let j = choose|j: int| 0 <= j < removed.len() && removed[j] == #[trigger] cleaned[i - 1];
            assert(removed[j] != '"');
        }
    }
}

/// Each sort key orders by a column named after it ("album" by the album
/// title, "artist" by the artist name, and so on), different keys by
/// different columns, and any other key (or none) by the title.
pub proof fn law_sort_key_selects_its_own_column(k: Seq<char>, k2: Seq<char>)
    ensures
        (k == "artist"@ || k == "album"@ || k == "duration"@ || k == "year"@) ==> exists|i: int|
            text::matches_at(order_column(Some(k)), k, i),
        (k == "artist"@ || k == "album"@ || k == "duration"@ || k == "year"@) && (k2 == "artist"@ || k2
            == "album"@ || k2 == "duration"@ || k2 == "year"@) && k != k2 ==> order_column(Some(k))
            != order_column(Some(k2)),
        !(k == "artist"@ || k == "album"@ || k == "duration"@ || k == "year"@) ==> order_column(Some(k))
            == order_column(None) && exists|i: int| text::matches_at(order_column(None), "title"@, i),
{
    reveal_strlit("artist");
    reveal_strlit("album");
    reveal_strlit("duration");
    reveal_strlit("year");
    reveal_strlit("title");
    reveal_strlit("artist_name");
    reveal_strlit("album_title");
    reveal_strlit("t.duration_secs");
    reveal_strlit("t.year");
    reveal_strlit("t.title");
    let c1 = "artist_name"@;
    let c2 = "album_title"@;
    let c3 = "t.duration_secs"@;
    let c4 = "t.year"@;
    assert(c1.subrange(0, 6) =~= "artist"@);
    assert(c2.subrange(0, 5) =~= "album"@);
    assert(c3.subrange(2, 10) =~= "duration"@);
    assert(c4.subrange(2, 6) =~= "year"@);
    assert("t.title"@.subrange(2, 7) =~= "title"@);
    assert(text::matches_at("t.title"@, "title"@, 2));
    assert(c1[1] != c2[1]);
    assert(c1 != c2 && c1 != c3 && c1 != c4 && c2 != c3 && c2 != c4 && c3 != c4);
    assert("artist"@ != "album"@ && "artist"@ != "duration"@ && "artist"@ != "year"@);
    assert("album"@ != "duration"@ && "album"@ != "year"@ && "duration"@ != "year"@);
    assert(order_column(Some("artist"@)) == c1);
    assert(order_column(Some("album"@)) == c2);
    assert(order_column(Some("duration"@)) == c3);
    assert(order_column(Some("year"@)) == c4);
    if k == "artist"@ {
        assert(text::matches_at(c1, k, 0));
    } else if k == "album"@ {
        assert(text::matches_at(c2, k, 0));
    } else if k == "duration"@ {
        assert(text::matches_at(c3, k, 2));
    } else if k == "year"@ {
        assert(text::matches_at(c4, k, 2));
    } else {
        assert(order_column(Some(k)) == "t.title"@);
    }
}

} // verus!
