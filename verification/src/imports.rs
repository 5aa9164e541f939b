//! Importing from outside sources (a Spotify playlist page, a list of
//! missing tracks, the Soulseek download folder) and naming this device.
use vstd::prelude::*;
use crate::text;
use crate::error::AppError;
use crate::matcher::{opt_view, MatchStatus};

verus! {

/// The playlist id in a Spotify URL or bare id: what follows "/playlist/"
/// (or the whole text), up to the first `?`, trimmed.
pub open spec fn spotify_id_of(url_or_id: Seq<char>) -> Seq<char> {
    let rest = match text::find(url_or_id, "/playlist/"@) {
        Some(i) => url_or_id.skip(i + 10),
        None => url_or_id,
    };
    let head = match text::find(rest, "?"@) {
        Some(q) => rest.take(q),
        None => rest,
    };
    text::trim(head)
}

/// The playlist id in a Spotify URL or bare id.
pub fn spotify_playlist_id(url_or_id: &str) -> (r: String)
    ensures
        r@ == spotify_id_of(url_or_id@),
{
    let v = text::chars_of(url_or_id);
    let marker = text::chars_of("/playlist/");
    let q = text::chars_of("?");
    proof {
        reveal_strlit("/playlist/");
        reveal_strlit("?");
    }
    let rest = match text::find_exec(&v, &marker) {
        Some(i) => {
            proof {
                text::lemma_find_bounds(v@, marker@, 0);
                assert(text::find_from(v@, marker@, 0) == Some(i as int));
                assert(marker@.len() == 10);
                assert(i + marker@.len() <= v@.len());
            }
            assert(i + 10 <= v.len());
            text::slice_chars(&v, i + 10, v.len())
        },
        None => v,
    };
    let head = match text::find_exec(&rest, &q) {
        Some(k) => {
            proof {
                text::lemma_find_bounds(rest@, q@, 0);
                assert(text::find_from(rest@, q@, 0) == Some(k as int));
            }
            text::slice_chars(&rest, 0, k)
        },
        None => rest,
    };
    let t = text::trim_chars(&head);
    text::string_of(&t)
}

/// The address of a playlist's embed page.
pub fn spotify_embed_url(playlist_id: &str) -> (r: String)
    ensures
        r@ == "https://open.spotify.com/embed/playlist/"@ + playlist_id@,
{
    text::concat2("https://open.spotify.com/embed/playlist/", playlist_id)
}

/// The opening tag of the page's data script.
pub open spec fn data_tag() -> Seq<char> {
    "<script id=\"__NEXT_DATA__\" type=\"application/json\">"@
}

/// The page data embedded in a playlist page: the text between the data
/// script's opening tag and the next "</script>"; else the message of the
/// error (no tag, or no end).
pub open spec fn page_data(html: Seq<char>) -> Result<Seq<char>, Seq<char>> {
    match text::find(html, data_tag()) {
        None => Err("Unable to parse Spotify playlist payload"@),
        Some(s) => {
            let body = html.skip(s + data_tag().len());
            match text::find(body, "</script>"@) {
                None => Err("Invalid Spotify response format"@),
                Some(e) => Ok(body.take(e)),
            }
        },
    }
}

/// The page data embedded in a playlist page, or the Spotify error.
pub fn spotify_page_data(html: &str) -> (r: Result<String, AppError>)
    ensures
        match r {
            Ok(d) => page_data(html@) == Ok::<Seq<char>, Seq<char>>(d@),
            Err(e) => (e matches AppError::ExternalApi { provider, message } && provider@ == "spotify"@
                && page_data(html@) == Err::<Seq<char>, Seq<char>>(message@)),
        },
{
    let hv = text::chars_of(html);
    let tag = text::chars_of("<script id=\"__NEXT_DATA__\" type=\"application/json\">");
    let end = text::chars_of("</script>");
    let s = match text::find_exec(&hv, &tag) {
        Some(s) => s,
        None => {
            return Err(
                AppError::ExternalApi {
                    provider: "spotify".to_string(),
                    message: "Unable to parse Spotify playlist payload".to_string(),
                },
            );
        },
    };
    proof {
        text::lemma_find_bounds(hv@, tag@, 0);
        assert(text::find_from(hv@, tag@, 0) == Some(s as int));
        assert(s + tag@.len() <= hv@.len());
    }
    assert(s + tag.len() <= hv.len());
    let body = text::slice_chars(&hv, s + tag.len(), hv.len());
    assert(body@ =~= hv@.skip(s + tag@.len()));
    match text::find_exec(&body, &end) {
        None => Err(
            AppError::ExternalApi {
                provider: "spotify".to_string(),
                message: "Invalid Spotify response format".to_string(),
            },
        ),
        Some(e) => {
            proof {
                text::lemma_find_bounds(body@, end@, 0);
                assert(text::find_from(body@, end@, 0) == Some(e as int));
            }
            let d = text::slice_chars(&body, 0, e);
            Ok(text::string_of(&d))
        },
    }
}

/// A playlist track as imported: its title and artist, trimmed, the artist
/// "Unknown Artist" when missing; none without a title.
pub open spec fn playlist_track_of(title: Option<Seq<char>>, subtitle: Option<Seq<char>>) -> Option<(Seq<char>, Seq<char>)> {
    let t = text::trim(
        match title {
            Some(x) => x,
            None => Seq::empty(),
        },
    );
    let a = text::trim(
        match subtitle {
            Some(x) => x,
            None => "Unknown Artist"@,
        },
    );
    if t.len() == 0 {
        None
    } else {
        Some((t, a))
    }
}

/// A playlist track as imported.
pub fn playlist_track(title: &Option<String>, subtitle: &Option<String>) -> (r: Option<(String, String)>)
    ensures
        match r {
            Some(p) => playlist_track_of(opt_view(*title), opt_view(*subtitle)) == Some((p.0@, p.1@)),
            None => playlist_track_of(opt_view(*title), opt_view(*subtitle)) is None,
        },
{
    let tv: Vec<char> = match title {
        Some(x) => text::chars_of(x.as_str()),
        None => Vec::new(),
    };
    let av: Vec<char> = match subtitle {
        Some(x) => text::chars_of(x.as_str()),
        None => text::chars_of("Unknown Artist"),
    };
    proof {
        if title is None {
            assert(tv@ =~= Seq::<char>::empty());
        }
    }
    let t = text::trim_chars(&tv);
    let a = text::trim_chars(&av);
    if t.len() == 0 {
        None
    } else {
        Some((text::string_of(&t), text::string_of(&a)))
    }
}

/// Whether a match counts as "in the library".
pub open spec fn in_library(s: MatchStatus) -> bool {
    s == MatchStatus::ExactMatch || s == MatchStatus::LikelyMatch
}

/// Whether a match counts as "in the library".
pub fn is_in_library(s: MatchStatus) -> (b: bool)
    ensures
        b == in_library(s),
{
    match s {
        MatchStatus::ExactMatch => true,
        MatchStatus::LikelyMatch => true,
        _ => false,
    }
}

/// The number of statuses that count as in the library, and of the others.
pub open spec fn library_counts(s: Seq<MatchStatus>) -> (nat, nat)
    decreases s.len(),
{
    if s.len() == 0 {
        (0, 0)
    } else {
        let r = library_counts(s.drop_last());
        if in_library(s.last()) {
            (r.0 + 1, r.1)
        } else {
            (r.0, r.1 + 1)
        }
    }
}

/// How many imported tracks are in the library, and how many are missing.
pub fn match_counts(statuses: &Vec<MatchStatus>) -> (r: (usize, usize))
    ensures
        (r.0 as nat, r.1 as nat) == library_counts(statuses@),
{
    let mut m: usize = 0;
    let mut x: usize = 0;
    let mut i: usize = 0;
    while i < statuses.len()
        invariant
            i <= statuses.len(),
            (m as nat, x as nat) == library_counts(statuses@.take(i as int)),
            m + x == i,
        decreases statuses.len() - i,
    {
        assert(statuses@.take(i + 1).drop_last() =~= statuses@.take(i as int));
        assert(statuses@.take(i + 1).last() == statuses@[i as int]);
        if is_in_library(statuses[i]) {
            m = m + 1;
        } else {
            x = x + 1;
        }
        i = i + 1;
    }
    assert(statuses@.take(statuses.len() as int) =~= statuses@);
    (m, x)
}

/// A missing track handed over for the wishlist, with title and artist
/// trimmed; none unless both are nonblank.
pub open spec fn wishlist_entry_of(title: Option<Seq<char>>, artist: Option<Seq<char>>) -> Option<(Seq<char>, Seq<char>)> {
    let t = text::trim(
        match title {
            Some(x) => x,
            None => Seq::empty(),
        },
    );
    let a = text::trim(
        match artist {
            Some(x) => x,
            None => Seq::empty(),
        },
    );
    if t.len() == 0 || a.len() == 0 {
        None
    } else {
        Some((t, a))
    }
}

/// A missing track handed over for the wishlist.
pub fn wishlist_entry(title: &Option<String>, artist: &Option<String>) -> (r: Option<(String, String)>)
    ensures
        match r {
            Some(p) => wishlist_entry_of(opt_view(*title), opt_view(*artist)) == Some((p.0@, p.1@)),
            None => wishlist_entry_of(opt_view(*title), opt_view(*artist)) is None,
        },
{
    let tv: Vec<char> = match title {
        Some(x) => text::chars_of(x.as_str()),
        None => Vec::new(),
    };
    let av: Vec<char> = match artist {
        Some(x) => text::chars_of(x.as_str()),
        None => Vec::new(),
    };
    proof {
        if title is None {
            assert(tv@ =~= Seq::<char>::empty());
        }
        if artist is None {
            assert(av@ =~= Seq::<char>::empty());
        }
    }
    let t = text::trim_chars(&tv);
    let a = text::trim_chars(&av);
    if t.len() == 0 || a.len() == 0 {
        None
    } else {
        Some((text::string_of(&t), text::string_of(&a)))
    }
}

/// Whether a wishlist item is marked downloaded after an import: it is
/// still wanted (stored as "want") and now found in the library.
pub fn marks_downloaded(stored_status: &str, found: MatchStatus) -> (b: bool)
    ensures
        b == (stored_status@ == "want"@ && in_library(found)),
{
    text::str_eq(stored_status, "want") && is_in_library(found)
}

/// A friendly device name for the operating system `os`.
pub open spec fn device_name_of(os: Seq<char>) -> Seq<char> {
    if os == "linux"@ {
        "Linux Desktop"@
    } else if os == "windows"@ {
        "Windows PC"@
    } else if os == "macos"@ {
        "macOS Desktop"@
    } else {
        os + " Desktop"@
    }
}

/// A friendly device name for the operating system `os`.
pub fn device_name_for_os(os: &str) -> (r: String)
    ensures
        r@ == device_name_of(os@),
{
    if text::str_eq(os, "linux") {
        "Linux Desktop".to_string()
    } else if text::str_eq(os, "windows") {
        "Windows PC".to_string()
    } else if text::str_eq(os, "macos") {
        "macOS Desktop".to_string()
    } else {
        text::concat2(os, " Desktop")
    }
}

/// The version of this client, as this package declares it.
pub fn get_client_version() -> (r: String)
    ensures
        r@ == "0.1.0"@,
{
    "0.1.0".to_string()
}

} // verus!
