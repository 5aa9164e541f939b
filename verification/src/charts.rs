//! Discovery candidates from the catalog's charts and regional searches:
//! which feeds are read, and the record each usable entry becomes.
//!
//! The feeds arrive as JSON; the fields read here are held in plain values.
use vstd::prelude::*;
use crate::text;
use crate::discovery::ExternalTrackRecord;
use crate::matcher::{self, opt_view};

verus! {

/// The chart feed of a storefront.
pub open spec fn storefront_url(sf: Seq<char>) -> Seq<char> {
    "https://itunes.apple.com/"@ + sf + "/rss/topsongs/limit=25/json"@
}

/// The chart feed of a genre.
pub open spec fn genre_url(id: u32) -> Seq<char> {
    "https://itunes.apple.com/us/rss/topsongs/limit=25/genre="@ + text::decimal(id as nat) + "/json"@
}

/// The feeds read for discovery: each storefront's chart, then the charts of
/// the first three taste genres.
pub open spec fn feed_urls(storefronts: Seq<Seq<char>>, genre_ids: Seq<u32>) -> Seq<Seq<char>> {
    let g = if genre_ids.len() > 3 {
        genre_ids.take(3)
    } else {
        genre_ids
    };
    Seq::new(storefronts.len(), |i: int| storefront_url(storefronts[i])) + Seq::new(
        g.len(),
        |i: int| genre_url(g[i]),
    )
}

/// The feeds read for discovery.
pub fn chart_urls(storefronts: &Vec<String>, genre_ids: &Vec<u32>) -> (r: Vec<String>)
    ensures
        r@.map_values(|s: String| s@) == feed_urls(storefronts@.map_values(|s: String| s@), genre_ids@),
{
    let ghost sv = storefronts@.map_values(|s: String| s@);
    let mut out: Vec<String> = Vec::new();
    let mut i: usize = 0;
    while i < storefronts.len()
        invariant
            i <= storefronts.len(),
            sv == storefronts@.map_values(|s: String| s@),
            out.len() == i,
            forall|k: int| 0 <= k < i ==> (#[trigger] out@[k])@ == storefront_url(sv[k]),
        decreases storefronts.len() - i,
    {
        out.push(text::concat3("https://itunes.apple.com/", storefronts[i].as_str(), "/rss/topsongs/limit=25/json"));
        i = i + 1;
    }
    let n: usize = if genre_ids.len() > 3 {
        3
    } else {
        genre_ids.len()
    };
    let ghost g = if genre_ids@.len() > 3 {
        genre_ids@.take(3)
    } else {
        genre_ids@
    };
    let mut j: usize = 0;
    while j < n
        invariant
            j <= n,
            n == g.len(),
            n <= genre_ids.len(),
            g == (if genre_ids@.len() > 3 {
                genre_ids@.take(3)
            } else {
                genre_ids@
            }),
            sv == storefronts@.map_values(|s: String| s@),
            out.len() == storefronts.len() + j,
            forall|k: int| 0 <= k < storefronts.len() ==> (#[trigger] out@[k])@ == storefront_url(sv[k]),
            forall|k: int| 0 <= k < j ==> (#[trigger] out@[storefronts.len() + k])@ == genre_url(g[k]),
        decreases n - j,
    {
        let d = text::decimal_chars(genre_ids[j] as u64);
        let ds = text::string_of(&d);
        assert(g[j as int] == genre_ids@[j as int]);
        out.push(text::concat3("https://itunes.apple.com/us/rss/topsongs/limit=25/genre=", ds.as_str(), "/json"));
        j = j + 1;
    }
    let ghost want = feed_urls(sv, genre_ids@);
    let ghost got = out@.map_values(|s: String| s@);
    assert forall|k: int| 0 <= k < out.len() implies #[trigger] got[k] == want[k] by {
        if k >= storefronts.len() {
            assert(out@[storefronts.len() + (k - storefronts.len())]@ == genre_url(g[k - storefronts.len()]));
        }
    }
    assert(got =~= want);
    out
}

/// A link of a chart entry: its `rel` and `href` attributes, when strings.
#[derive(Debug)]
pub struct ChartLink {
    pub rel: Option<String>,
    pub href: Option<String>,
}

/// A chart entry, as far as it is read.
#[derive(Debug)]
pub struct ChartEntry {
    /// `im:name.label`
    pub name: Option<String>,
    /// `im:artist.label`
    pub artist: Option<String>,
    /// `im:collection.im:name.label`
    pub collection: Option<String>,
    /// The label of each image, in order (`None` for an image without one);
    /// `None` when the entry has no image list.
    pub images: Option<Vec<Option<String>>>,
    /// `id.attributes.im:id`
    pub itunes_id: Option<String>,
    /// `category.attributes.label`
    pub category: Option<String>,
    /// The links, when the entry has a list of them.
    pub links: Option<Vec<ChartLink>>,
}

/// The preview link of an entry: the `href` of the first link whose `rel` is
/// "enclosure" and that has one.
pub open spec fn enclosure(links: Seq<ChartLink>) -> Option<Seq<char>>
    decreases links.len(),
{
    if links.len() == 0 {
        None
    } else {
        let l = links[0];
        match (l.rel, l.href) {
            (Some(r), Some(h)) => if r@ == "enclosure"@ {
                Some(h@)
            } else {
                enclosure(links.skip(1))
            },
            _ => enclosure(links.skip(1)),
        }
    }
}

/// The cover of an entry: the label of its last image.
pub open spec fn last_image(images: Option<Vec<Option<String>>>) -> Option<Seq<char>> {
    match images {
        Some(v) => if v@.len() > 0 {
            opt_view(v@.last())
        } else {
            None
        },
        None => None,
    }
}

/// A string field, empty when absent.
pub open spec fn or_empty(o: Option<String>) -> Seq<char> {
    match o {
        Some(s) => s@,
        None => Seq::empty(),
    }
}

/// What a discovery record holds, given its parts.
pub open spec fn record_is(
    r: ExternalTrackRecord,
    artist: Seq<char>,
    title: Seq<char>,
    catalog_id: Seq<char>,
    album: Option<Seq<char>>,
    cover: Option<Seq<char>>,
    preview: Option<Seq<char>>,
    genre: Option<Seq<char>>,
    now: i64,
) -> bool {
    &&& r.id@ == "itunes:"@ + (if catalog_id.len() == 0 {
        artist + ":"@ + title
    } else {
        catalog_id
    })
    &&& r.provider@ == "itunes"@
    &&& r.provider_id@ == (if catalog_id.len() == 0 {
        title
    } else {
        catalog_id
    })
    &&& r.title@ == title
    &&& r.artist@ == artist
    &&& opt_view(r.album) == album
    &&& r.duration_ms == Some(30000u64)
    &&& opt_view(r.cover_art_url) == cover
    &&& opt_view(r.preview_url) == preview
    &&& opt_view(r.genre) == genre
    &&& r.match_status@ == matcher::match_status_name(matcher::MatchStatus::NotFound)
    &&& r.matched_local_track_id is None
    &&& r.created_at == now
}

/// The record a chart entry becomes, if it has a title and an artist (both
/// trimmed); an album falls back to the genre.
pub open spec fn chart_record(e: ChartEntry, now: i64, r: Option<ExternalTrackRecord>) -> bool {
    let title = text::trim(or_empty(e.name));
    let artist = text::trim(or_empty(e.artist));
    if title.len() == 0 || artist.len() == 0 {
        r is None
    } else {
        r matches Some(x) && record_is(
            x,
            artist,
            title,
            or_empty(e.itunes_id),
            if e.collection is Some {
                opt_view(e.collection)
            } else {
                opt_view(e.category)
            },
            last_image(e.images),
            match e.links {
                Some(ls) => enclosure(ls@),
                None => None,
            },
            opt_view(e.category),
            now,
        )
    }
}

fn enclosure_exec(links: &Vec<ChartLink>) -> (r: Option<String>)
    ensures
        opt_view(r) == enclosure(links@),
{
    let mut i: usize = 0;
    assert(links@.skip(0) =~= links@);
    while i < links.len()
        invariant
            i <= links.len(),
            enclosure(links@) == enclosure(links@.skip(i as int)),
        decreases links.len() - i,
    {
        assert(links@.skip(i as int).skip(1) =~= links@.skip(i + 1));
        assert(links@.skip(i as int)[0] == links@[i as int]);
        let l = &links[i];
        match (&l.rel, &l.href) {
            (Some(r), Some(h)) => {
                if text::str_eq(r.as_str(), "enclosure") {
                    return Some(h.clone());
                }
            },
            _ => {},
        }
        i = i + 1;
    }
    None
}

fn clone_opt(o: &Option<String>) -> (r: Option<String>)
    ensures
        opt_view(r) == opt_view(*o),
{
    match o {
        Some(s) => Some(s.clone()),
        None => None,
    }
}

fn or_empty_exec(o: &Option<String>) -> (r: Vec<char>)
    ensures
        r@ == or_empty(*o),
{
    match o {
        Some(s) => text::chars_of(s.as_str()),
        None => Vec::new(),
    }
}

fn build_record(
    artist: &Vec<char>,
    title: &Vec<char>,
    catalog_id: &Vec<char>,
    album: Option<String>,
    cover: Option<String>,
    preview: Option<String>,
    genre: Option<String>,
    now: i64,
) -> (r: ExternalTrackRecord)
    ensures
        record_is(
            r,
            artist@,
            title@,
            catalog_id@,
            opt_view(album),
            opt_view(cover),
            opt_view(preview),
            opt_view(genre),
            now,
        ),
{
    let a = text::string_of(artist);
    let t = text::string_of(title);
    let c = text::string_of(catalog_id);
    let key = if catalog_id.len() == 0 {
        text::concat3(a.as_str(), ":", t.as_str())
    } else {
        c.clone()
    };
    let provider_id = if catalog_id.len() == 0 {
        t.clone()
    } else {
        c
    };
    ExternalTrackRecord {
        id: text::concat2("itunes:", key.as_str()),
        provider: "itunes".to_string(),
        provider_id,
        title: t,
        artist: a,
        album,
        duration_ms: Some(30000),
        cover_art_url: cover,
        preview_url: preview,
        genre,
        match_status: matcher::MatchStatus::NotFound.as_str().to_string(),
        matched_local_track_id: None,
        created_at: now,
    }
}

/// The record a chart entry becomes, if usable.
pub fn chart_entry_record(e: &ChartEntry, now: i64) -> (r: Option<ExternalTrackRecord>)
    ensures
        chart_record(*e, now, r),
{
    let nv = or_empty_exec(&e.name);
    let av = or_empty_exec(&e.artist);
    let title = text::trim_chars(&nv);
    let artist = text::trim_chars(&av);
    if title.len() == 0 || artist.len() == 0 {
        return None;
    }
    let album = if e.collection.is_some() {
        clone_opt(&e.collection)
    } else {
        clone_opt(&e.category)
    };
    let cover: Option<String> = match &e.images {
        Some(v) => if v.len() > 0 {
            clone_opt(&v[v.len() - 1])
        } else {
            None
        },
        None => None,
    };
    let preview = match &e.links {
        Some(ls) => enclosure_exec(ls),
        None => None,
    };
    let id = or_empty_exec(&e.itunes_id);
    Some(build_record(&artist, &title, &id, album, cover, preview, clone_opt(&e.category), now))
}

/// A regional search result, as far as it is read.
#[derive(Debug)]
pub struct RegionalItem {
    pub track_name: Option<String>,
    pub artist_name: Option<String>,
    pub collection_name: Option<String>,
    pub artwork_url: Option<String>,
    pub preview_url: Option<String>,
    /// The `trackId` value as JSON text, when present.
    pub track_id: Option<String>,
    pub primary_genre_name: Option<String>,
}

/// The record a regional search result becomes, if it has a title and an
/// artist (both trimmed); the genre defaults to "Malayalam".
pub open spec fn regional_record(it: RegionalItem, now: i64, r: Option<ExternalTrackRecord>) -> bool {
    let title = text::trim(or_empty(it.track_name));
    let artist = text::trim(or_empty(it.artist_name));
    if title.len() == 0 || artist.len() == 0 {
        r is None
    } else {
        r matches Some(x) && record_is(
            x,
            artist,
            title,
            or_empty(it.track_id),
            opt_view(it.collection_name),
            opt_view(it.artwork_url),
            opt_view(it.preview_url),
            if it.primary_genre_name is Some {
                opt_view(it.primary_genre_name)
            } else {
                Some("Malayalam"@)
            },
            now,
        )
    }
}

/// The record a regional search result becomes, if usable.
pub fn regional_item_record(it: &RegionalItem, now: i64) -> (r: Option<ExternalTrackRecord>)
    ensures
        regional_record(*it, now, r),
{
    let nv = or_empty_exec(&it.track_name);
    let av = or_empty_exec(&it.artist_name);
    let title = text::trim_chars(&nv);
    let artist = text::trim_chars(&av);
    if title.len() == 0 || artist.len() == 0 {
        return None;
    }
    let genre = if it.primary_genre_name.is_some() {
        clone_opt(&it.primary_genre_name)
    } else {
        Some("Malayalam".to_string())
    };
    let id = or_empty_exec(&it.track_id);
    Some(
        build_record(
            &artist,
            &title,
            &id,
            clone_opt(&it.collection_name),
            clone_opt(&it.artwork_url),
            clone_opt(&it.preview_url),
            genre,
            now,
        ),
    )
}

/// The search URL of a regional query (spaces as `+`).
pub fn regional_search_url(query: &str) -> (r: String)
    ensures
        r@ == "https://itunes.apple.com/search?term="@ + text::replace_all(query@, seq![' '], seq!['+'])
            + "&country=in&media=music&entity=song&limit=25"@,
{
    let qv = text::chars_of(query);
    let sp: Vec<char> = vec![' '];
    let plus: Vec<char> = vec!['+'];
    assert(sp@ =~= seq![' ']);
    assert(plus@ =~= seq!['+']);
    let enc = text::replace_all_exec(&qv, &sp, &plus);
    let es = text::string_of(&enc);
    text::concat3("https://itunes.apple.com/search?term=", es.as_str(), "&country=in&media=music&entity=song&limit=25")
}

} // verus!
