//! Online music search: scoring, de-duplication and merging of catalog results
//! with matching local library tracks.
use vstd::prelude::*;
use crate::text;
use crate::ranking;
use crate::matcher::{self, FuzzyTrackMatcher, LocalTrackCandidate, MatchStatus};
use crate::discovery::{self, DiscoveryRecommendation};

verus! {

/// One catalog result, with the fields the search reads.
/// `title` and `artist` are as the catalog gave them (not yet trimmed);
/// `track_id` is the catalog's numeric track ID in decimal, if any.
#[derive(Clone, Debug)]
pub struct OnlineSearchItem {
    pub title: String,
    pub artist: String,
    pub album: Option<String>,
    pub genre: Option<String>,
    pub track_id: Option<String>,
    pub artwork_url: Option<String>,
    pub preview_url: Option<String>,
    pub duration_ms: Option<u64>,
}

/// A track of the local library, as the search sees it.
#[derive(Clone, Debug)]
pub struct LibraryTrack {
    pub id: String,
    pub title: String,
    pub artist: Option<String>,
    pub album: Option<String>,
    pub genre: Option<String>,
    pub duration_ms: u64,
}

/// The mathematical content of a recommendation.
pub struct RecView {
    pub external_track_id: Seq<char>,
    pub provider: Seq<char>,
    pub provider_id: Seq<char>,
    pub title: Seq<char>,
    pub artist: Seq<char>,
    pub album: Option<Seq<char>>,
    pub duration_ms: Option<u64>,
    pub cover_art_url: Option<Seq<char>>,
    pub preview_url: Option<Seq<char>>,
    pub genre: Option<Seq<char>>,
    pub match_status: MatchStatus,
    pub matched_local_track_id: Option<Seq<char>>,
    pub recommendation_reason: Seq<char>,
    pub in_wishlist: bool,
}

pub open spec fn rec_view(r: DiscoveryRecommendation) -> RecView {
    RecView {
        external_track_id: r.external_track_id@,
        provider: r.provider@,
        provider_id: r.provider_id@,
        title: r.title@,
        artist: r.artist@,
        album: matcher::opt_view(r.album),
        duration_ms: r.duration_ms,
        cover_art_url: matcher::opt_view(r.cover_art_url),
        preview_url: matcher::opt_view(r.preview_url),
        genre: matcher::opt_view(r.genre),
        match_status: r.match_status,
        matched_local_track_id: matcher::opt_view(r.matched_local_track_id),
        recommendation_reason: r.recommendation_reason@,
        in_wishlist: r.in_wishlist,
    }
}

/// What the search knows besides the items.
pub struct SearchContext {
    pub clean_query: Seq<char>,
    pub lower_query: Seq<char>,
    pub tokens: Seq<Seq<char>>,
    pub cands: Seq<matcher::CandidateView>,
    pub ext_ids: Seq<Seq<char>>,
    pub wish_keys: Seq<Seq<char>>,
}

/// The part of the relevance of a field that compares it with the whole query.
pub open spec fn whole_query_part(field: Seq<char>, lq: Seq<char>, exact: int, prefix: int, inner: int) -> int {
    if field == lq {
        exact
    } else if text::starts_with(field, lq) {
        prefix
    } else if text::contains(field, lq) {
        inner
    } else {
        0
    }
}

/// The part of the relevance that comes from the single query words.
pub open spec fn token_part(lt: Seq<char>, la: Seq<char>, toks: Seq<Seq<char>>) -> int
    decreases toks.len(),
{
    if toks.len() == 0 {
        0
    } else {
        token_part(lt, la, toks.drop_last()) + (if text::contains(lt, toks.last()) {
            60int
        } else {
            0int
        }) + (if text::contains(la, toks.last()) {
            40int
        } else {
            0int
        })
    }
}

/// The relevance of a catalog result with lowercase title `lt` and artist `la`.
pub open spec fn online_score(lt: Seq<char>, la: Seq<char>, lq: Seq<char>, toks: Seq<Seq<char>>) -> int {
    whole_query_part(lt, lq, 1000, 500, 250) + whole_query_part(la, lq, 800, 400, 200) + token_part(
        lt,
        la,
        toks,
    )
}

/// Whether every query word occurs in the title or the artist.
pub open spec fn all_tokens_found(lt: Seq<char>, la: Seq<char>, toks: Seq<Seq<char>>) -> bool {
    forall|i: int| 0 <= i < toks.len() ==> text::contains(lt, #[trigger] toks[i]) || text::contains(la, toks[i])
}

/// Whether a library track with lowercase title `lt` and artist `la` answers the query.
pub open spec fn local_included(lt: Seq<char>, la: Seq<char>, lq: Seq<char>, toks: Seq<Seq<char>>) -> bool {
    text::contains(lt, lq) || text::contains(la, lq) || all_tokens_found(lt, la, toks)
}

/// The relevance of an answering library track.
pub open spec fn local_score(lt: Seq<char>, la: Seq<char>, lq: Seq<char>) -> int {
    50 + whole_query_part(lt, lq, 900, 450, 200) + (if la == lq {
        700int
    } else if text::contains(la, lq) {
        150int
    } else {
        0int
    })
}

/// The de-duplication key of a result: lowercase "artist:title".
pub open spec fn result_key(artist: Seq<char>, title: Seq<char>) -> Seq<char> {
    text::spec_str_lowercase(artist) + ":"@ + text::spec_str_lowercase(title)
}

/// An artwork URL enlarged to 600x600.
pub open spec fn enlarged_artwork(u: Seq<char>) -> Seq<char> {
    text::replace_all(text::replace_all(u, "100x100bb.jpg"@, "600x600bb.jpg"@), "60x60bb.jpg"@, "600x600bb.jpg"@)
}

pub open spec fn opt_enlarged(o: Option<String>) -> Option<Seq<char>> {
    match o {
        Some(u) => Some(enlarged_artwork(u@)),
        None => None,
    }
}

/// The recommendation made of a catalog result (title `t` and artist `a` trimmed).
pub open spec fn online_rec(it: OnlineSearchItem, t: Seq<char>, a: Seq<char>, ctx: SearchContext) -> RecView {
    let tid = discovery::or_empty(it.track_id);
    let ext_id = "itunes:"@ + if tid.len() == 0 {
        a + ":"@ + t
    } else {
        tid
    };
    let dur = match it.duration_ms {
        Some(d) => Some(d),
        None => Some(30000u64),
    };
    let m = matcher::best_match(t, a, dur, false, ctx.cands);
    let score = online_score(text::spec_str_lowercase(t), text::spec_str_lowercase(a), ctx.lower_query, ctx.tokens);
    RecView {
        external_track_id: ext_id,
        provider: "itunes"@,
        provider_id: if tid.len() == 0 {
            t
        } else {
            tid
        },
        title: t,
        artist: a,
        album: matcher::opt_view(it.album),
        duration_ms: dur,
        cover_art_url: opt_enlarged(it.artwork_url),
        preview_url: matcher::opt_view(it.preview_url),
        genre: matcher::opt_view(it.genre),
        match_status: m.status,
        matched_local_track_id: m.matched_track_id,
        recommendation_reason: if score >= 500 {
            "Top online match for \""@ + ctx.clean_query + "\""@
        } else {
            "Online result for \""@ + ctx.clean_query + "\""@
        },
        in_wishlist: ctx.ext_ids.contains(ext_id) || ctx.wish_keys.contains(result_key(a, t)),
    }
}

/// The scored recommendations collected so far, and the keys already seen.
pub struct Collected {
    pub recs: Seq<RecView>,
    pub scores: Seq<int>,
    pub seen: Seq<Seq<char>>,
}

/// Catalog results in order, skipping those without title or artist and
/// those whose key was already seen.
pub open spec fn collect_online(items: Seq<OnlineSearchItem>, ctx: SearchContext) -> Collected
    decreases items.len(),
{
    if items.len() == 0 {
        Collected { recs: seq![], scores: seq![], seen: seq![] }
    } else {
        let prev = collect_online(items.drop_last(), ctx);
        let it = items.last();
        let t = text::trim(it.title@);
        let a = text::trim(it.artist@);
        let key = result_key(a, t);
        if t.len() == 0 || a.len() == 0 || prev.seen.contains(key) {
            prev
        } else {
            Collected {
                recs: prev.recs.push(online_rec(it, t, a, ctx)),
                scores: prev.scores.push(
                    online_score(text::spec_str_lowercase(t), text::spec_str_lowercase(a), ctx.lower_query, ctx.tokens),
                ),
                seen: prev.seen.push(key),
            }
        }
    }
}

/// The recommendation made of an answering library track.
pub open spec fn local_rec(lt: LibraryTrack, t: Seq<char>, a: Seq<char>) -> RecView {
    RecView {
        external_track_id: "local:"@ + lt.id@,
        provider: "library"@,
        provider_id: lt.id@,
        title: t,
        artist: a,
        album: matcher::opt_view(lt.album),
        duration_ms: Some(lt.duration_ms),
        cover_art_url: None,
        preview_url: None,
        genre: matcher::opt_view(lt.genre),
        match_status: MatchStatus::ExactMatch,
        matched_local_track_id: Some(lt.id@),
        recommendation_reason: "In your local library"@,
        in_wishlist: false,
    }
}

/// Library tracks that answer the query and are not represented yet, appended to `start`.
pub open spec fn collect_local(tracks: Seq<LibraryTrack>, start: Collected, ctx: SearchContext) -> Collected
    decreases tracks.len(),
{
    if tracks.len() == 0 {
        start
    } else {
        let prev = collect_local(tracks.drop_last(), start, ctx);
        let lt = tracks.last();
        let t = text::trim(lt.title@);
        let a = text::trim(discovery::or_empty(lt.artist));
        let key = result_key(a, t);
        let lo_t = text::spec_str_lowercase(t);
        let lo_a = text::spec_str_lowercase(a);
        if prev.seen.contains(key) || !local_included(lo_t, lo_a, ctx.lower_query, ctx.tokens) {
            prev
        } else {
            Collected {
                recs: prev.recs.push(local_rec(lt, t, a)),
                scores: prev.scores.push(local_score(lo_t, lo_a, ctx.lower_query)),
                seen: prev.seen.push(key),
            }
        }
    }
}

/// The match candidates made of the library tracks (artist "" when unknown).
pub open spec fn library_candidates(tracks: Seq<LibraryTrack>) -> Seq<matcher::CandidateView> {
    Seq::new(
        tracks.len(),
        |i: int|
            matcher::CandidateView {
                id: tracks[i].id@,
                title: tracks[i].title@,
                artist: discovery::or_empty(tracks[i].artist),
                duration_ms: tracks[i].duration_ms,
                is_lofi: false,
            },
    )
}

/// The ranking keys of collected scores (one group; score descending).
pub open spec fn score_keys(scores: Seq<int>) -> Seq<(u8, i128)> {
    Seq::new(scores.len(), |i: int| (0u8, scores[i] as i128))
}

fn whole_query_part_exec(field: &Vec<char>, lq: &Vec<char>, exact: i128, prefix: i128, inner: i128) -> (r: i128)
    ensures
        r == whole_query_part(field@, lq@, exact as int, prefix as int, inner as int),
{
    if text::chars_eq(field, lq) {
        exact
    } else if text::starts_with_exec(field, lq) {
        prefix
    } else if text::contains_exec(field, lq) {
        inner
    } else {
        0
    }
}

fn token_part_exec(lt: &Vec<char>, la: &Vec<char>, toks: &Vec<Vec<char>>) -> (r: i128)
    ensures
        r == token_part(lt@, la@, text::views(toks@)),
        0 <= r <= 100 * toks.len(),
{
    let mut r: i128 = 0;
    let mut i: usize = 0;
    while i < toks.len()
        invariant
            i <= toks.len(),
            r == token_part(lt@, la@, text::views(toks@.take(i as int))),
            0 <= r <= 100 * i,
        decreases toks.len() - i,
    {
        assert(text::views(toks@.take(i + 1)).drop_last() =~= text::views(toks@.take(i as int)));
        assert(text::views(toks@.take(i + 1)).last() == toks@[i as int]@);
        if text::contains_exec(lt, &toks[i]) {
            r = r + 60;
        }
        if text::contains_exec(la, &toks[i]) {
            r = r + 40;
        }
        i = i + 1;
    }
    assert(toks@.take(toks.len() as int) =~= toks@);
    r
}

fn all_tokens_found_exec(lt: &Vec<char>, la: &Vec<char>, toks: &Vec<Vec<char>>) -> (b: bool)
    ensures
        b == all_tokens_found(lt@, la@, text::views(toks@)),
{
    let mut i: usize = 0;
    while i < toks.len()
        invariant
            i <= toks.len(),
            forall|k: int| 0 <= k < i ==> text::contains(lt@, #[trigger] text::views(toks@)[k]) || text::contains(la@, text::views(toks@)[k]),
        decreases toks.len() - i,
    {
        assert(text::views(toks@)[i as int] == toks@[i as int]@);
        if !(text::contains_exec(lt, &toks[i]) || text::contains_exec(la, &toks[i])) {
            return false;
        }
        i = i + 1;
    }
    true
}

fn result_key_exec(a: &Vec<char>, t: &Vec<char>) -> (r: Vec<char>)
    ensures
        r@ == result_key(a@, t@),
{
    let mut k = text::lower_chars(text::string_of(a).as_str());
    text::push_str_chars(&mut k, ":");
    let lt = text::lower_chars(text::string_of(t).as_str());
    text::push_chars(&mut k, &lt);
    k
}

fn has_key(seen: &Vec<Vec<char>>, k: &Vec<char>) -> (b: bool)
    ensures
        b == text::views(seen@).contains(k@),
{
    let mut i: usize = 0;
    while i < seen.len()
        invariant
            i <= seen.len(),
            forall|j: int| 0 <= j < i ==> seen@[j]@ != k@,
        decreases seen.len() - i,
    {
        if text::chars_eq(&seen[i], k) {
            assert(text::views(seen@)[i as int] == k@);
            return true;
        }
        i = i + 1;
    }
    assert forall|j: int| 0 <= j < text::views(seen@).len() implies text::views(seen@)[j] != k@ by {
        assert(text::views(seen@)[j] == seen@[j]@);
    }
    false
}

fn enlarge_artwork_exec(o: &Option<String>) -> (r: Option<String>)
    ensures
        matcher::opt_view(r) == opt_enlarged(*o),
{
    match o {
        Some(u) => {
            let uv = text::chars_of(u.as_str());
            let a = text::chars_of("100x100bb.jpg");
            let b = text::chars_of("600x600bb.jpg");
            let c = text::chars_of("60x60bb.jpg");
            proof {
                reveal_strlit("100x100bb.jpg");
                reveal_strlit("60x60bb.jpg");
            }
            let step = text::replace_all_exec(&uv, &a, &b);
            let done = text::replace_all_exec(&step, &c, &b);
            Some(text::string_of(&done))
        },
        None => None,
    }
}

fn clone_opt(o: &Option<String>) -> (r: Option<String>)
    ensures
        r == *o,
        matcher::opt_view(r) == matcher::opt_view(*o),
{
    match o {
        Some(s) => Some(s.clone()),
        None => None,
    }
}

fn contains_string_list(list: &Vec<String>, x: &Vec<char>) -> (b: bool)
    ensures
        b == discovery::string_views(list@).contains(x@),
{
    let mut i: usize = 0;
    while i < list.len()
        invariant
            i <= list.len(),
            forall|k: int| 0 <= k < i ==> list@[k]@ != x@,
        decreases list.len() - i,
    {
        let v = text::chars_of(list[i].as_str());
        if text::chars_eq(&v, x) {
            assert(discovery::string_views(list@)[i as int] == x@);
            return true;
        }
        i = i + 1;
    }
    assert forall|k: int| 0 <= k < discovery::string_views(list@).len() implies discovery::string_views(list@)[k] != x@ by {
        assert(discovery::string_views(list@)[k] == list@[k]@);
    }
    false
}

/// The match candidates made of the library tracks.
pub fn library_candidates_exec(local: &Vec<LibraryTrack>) -> (r: Vec<LocalTrackCandidate>)
    ensures
        matcher::candidate_views(r@) == library_candidates(local@),
{
    let mut r: Vec<LocalTrackCandidate> = Vec::new();
    let mut i: usize = 0;
    while i < local.len()
        invariant
            i <= local.len(),
            matcher::candidate_views(r@) == library_candidates(local@).take(i as int),
        decreases local.len() - i,
    {
        let lt = &local[i];
        let artist = match &lt.artist {
            Some(a) => a.clone(),
            None => String::new(),
        };
        let c = LocalTrackCandidate {
            id: lt.id.clone(),
            title: lt.title.clone(),
            artist,
            duration_ms: lt.duration_ms,
            is_lofi: false,
        };
        assert(c@.artist == discovery::or_empty(local@[i as int].artist));
        assert(c@ == library_candidates(local@)[i as int]);
        let ghost before = r@;
        r.push(c);
        assert(matcher::candidate_views(r@) =~= matcher::candidate_views(before).push(c@));
        i = i + 1;
        assert(matcher::candidate_views(r@) =~= library_candidates(local@).take(i as int));
    }
    assert(library_candidates(local@).take(local.len() as int) =~= library_candidates(local@));
    r
}

/// Builds the recommendation and relevance of one catalog result.
fn online_rec_exec(
    it: &OnlineSearchItem,
    t: &Vec<char>,
    a: &Vec<char>,
    clean_query: &Vec<char>,
    lq: &Vec<char>,
    toks: &Vec<Vec<char>>,
    cands: &Vec<LocalTrackCandidate>,
    ext_ids: &Vec<String>,
    wish_keys: &Vec<String>,
) -> (r: (DiscoveryRecommendation, i128))
    ensures
        ({
            let ctx = SearchContext {
                clean_query: clean_query@,
                lower_query: lq@,
                tokens: text::views(toks@),
                cands: matcher::candidate_views(cands@),
                ext_ids: discovery::string_views(ext_ids@),
                wish_keys: discovery::string_views(wish_keys@),
            };
            &&& rec_view(r.0) == online_rec(*it, t@, a@, ctx)
            &&& r.1 == online_score(
                text::spec_str_lowercase(t@),
                text::spec_str_lowercase(a@),
                lq@,
                text::views(toks@),
            )
        }),
{
    let tid: Vec<char> = match &it.track_id {
        Some(x) => text::chars_of(x.as_str()),
        None => Vec::new(),
    };
    assert(tid@ == discovery::or_empty(it.track_id));
    let mut ext_id = text::chars_of("itunes:");
    if tid.len() == 0 {
        text::push_chars(&mut ext_id, a);
        text::push_str_chars(&mut ext_id, ":");
        text::push_chars(&mut ext_id, t);
        assert(ext_id@ =~= "itunes:"@ + (a@ + ":"@ + t@));
    } else {
        text::push_chars(&mut ext_id, &tid);
    }
    let provider_id = if tid.len() == 0 {
        text::string_of(t)
    } else {
        text::string_of(&tid)
    };
    let dur: Option<u64> = match it.duration_ms {
        Some(d) => Some(d),
        None => Some(30000),
    };
    let ts = text::string_of(t);
    let as_ = text::string_of(a);
    let m = FuzzyTrackMatcher::find_best_match(ts.as_str(), as_.as_str(), dur, false, cands);
    let lt = text::lower_chars(ts.as_str());
    let la = text::lower_chars(as_.as_str());
    let tp = token_part_exec(&lt, &la, toks);
    let score = whole_query_part_exec(&lt, lq, 1000, 500, 250) + whole_query_part_exec(
        &la,
        lq,
        800,
        400,
        200,
    ) + tp;
    let cqs = text::string_of(clean_query);
    let reason = if score >= 500 {
        text::concat3("Top online match for \"", cqs.as_str(), "\"")
    } else {
        text::concat3("Online result for \"", cqs.as_str(), "\"")
    };
    let key = result_key_exec(a, t);
    let in_wishlist = contains_string_list(ext_ids, &ext_id) || contains_string_list(wish_keys, &key);
    assert(tid@ == discovery::or_empty(it.track_id));
    let rec = DiscoveryRecommendation {
        external_track_id: text::string_of(&ext_id),
        provider: "itunes".to_owned(),
        provider_id,
        title: ts,
        artist: as_,
        album: clone_opt(&it.album),
        duration_ms: dur,
        cover_art_url: enlarge_artwork_exec(&it.artwork_url),
        preview_url: clone_opt(&it.preview_url),
        genre: clone_opt(&it.genre),
        match_status: m.status,
        matched_local_track_id: m.matched_track_id,
        recommendation_reason: reason,
        in_wishlist,
    };
    assert(rec_view(rec).matched_local_track_id == m@.matched_track_id);
    assert(rec_view(rec).cover_art_url == opt_enlarged(it.artwork_url));
    assert(rec_view(rec).recommendation_reason == (if score >= 500 {
            "Top online match for \""@ + clean_query@ + "\""@
        } else {
            "Online result for \""@ + clean_query@ + "\""@
        }));
    assert(rec_view(rec).external_track_id == "itunes:"@ + if tid@.len() == 0 {
        a@ + ":"@ + t@
    } else {
        tid@
    });
    (rec, score)
}

/// The outcome of a search for `query` over catalog `items` and the `local`
/// library, as a mathematical object: the collected recommendations with their
/// relevance, before ordering.
pub open spec fn search_collected(
    items: Seq<OnlineSearchItem>,
    local: Seq<LibraryTrack>,
    query: Seq<char>,
    ext_ids: Seq<Seq<char>>,
    wish_keys: Seq<Seq<char>>,
) -> Collected {
    let cq = text::trim(query);
    let lq = text::spec_str_lowercase(cq);
    let ctx = SearchContext {
        clean_query: cq,
        lower_query: lq,
        tokens: text::words(lq),
        cands: library_candidates(local),
        ext_ids,
        wish_keys,
    };
    collect_local(local, collect_online(items, ctx), ctx)
}

/// Ranks catalog results and matching library tracks for a search query.
/// Results without title or artist, and repeated "artist:title" keys, are
/// skipped; library tracks answering the query that are not represented yet
/// are added; all are ordered by relevance (ties in collection order) and the
/// first `limit` returned. An empty (or blank) query gives no results.
pub fn rank_online_results(
    items: &Vec<OnlineSearchItem>,
    local: &Vec<LibraryTrack>,
    query: &str,
    wishlist_ext_ids: &Vec<String>,
    wishlist_keys: &Vec<String>,
    limit: usize,
) -> (r: Vec<DiscoveryRecommendation>)
    ensures
        text::trim(query@).len() == 0 ==> r.len() == 0,
        text::trim(query@).len() > 0 ==> {
            let c = search_collected(
                items@,
                local@,
                query@,
                discovery::string_views(wishlist_ext_ids@),
                discovery::string_views(wishlist_keys@),
            );
            exists|order: Seq<usize>|
                {
                    &&& ranking::is_permutation_of_positions(order, c.recs.len())
                    &&& ranking::is_ranked(score_keys(c.scores), order)
                    &&& r.len() == if limit < c.recs.len() {
                        limit as nat
                    } else {
                        c.recs.len()
                    }
                    &&& forall|k: int|
                        0 <= k < r.len() ==> rec_view(#[trigger] r@[k]) == c.recs[order[k] as int]
                }
        },
{
    let cq = text::trim_str(query);
    if cq.len() == 0 {
        return Vec::new();
    }
    let cqs = text::string_of(&cq);
    let lq = text::lower_chars(cqs.as_str());
    let toks = text::split_whitespace(&lq);
    let cands = library_candidates_exec(local);
    let ghost ctx = SearchContext {
        clean_query: cq@,
        lower_query: lq@,
        tokens: text::views(toks@),
        cands: matcher::candidate_views(cands@),
        ext_ids: discovery::string_views(wishlist_ext_ids@),
        wish_keys: discovery::string_views(wishlist_keys@),
    };
    let mut recs: Vec<DiscoveryRecommendation> = Vec::new();
    let mut scores: Vec<i128> = Vec::new();
    let mut seen: Vec<Vec<char>> = Vec::new();
    let mut i: usize = 0;
    while i < items.len()
        invariant
            i <= items.len(),
            ctx.clean_query == cq@,
            ctx.lower_query == lq@,
            ctx.tokens == text::views(toks@),
            ctx.cands == matcher::candidate_views(cands@),
            ctx.ext_ids == discovery::string_views(wishlist_ext_ids@),
            ctx.wish_keys == discovery::string_views(wishlist_keys@),
            recs.len() == scores.len(),
            recs@.map_values(|x: DiscoveryRecommendation| rec_view(x)) == collect_online(items@.take(i as int), ctx).recs,
            scores@.map_values(|x: i128| x as int) == collect_online(items@.take(i as int), ctx).scores,
            text::views(seen@) == collect_online(items@.take(i as int), ctx).seen,
        decreases items.len() - i,
    {
        assert(items@.take(i + 1).drop_last() =~= items@.take(i as int));
        let it = &items[i];
        let t = text::trim_str(it.title.as_str());
        let a = text::trim_str(it.artist.as_str());
        if t.len() > 0 && a.len() > 0 {
            let key = result_key_exec(&a, &t);
            if !has_key(&seen, &key) {
                let (rec, score) = online_rec_exec(
                    it,
                    &t,
                    &a,
                    &cq,
                    &lq,
                    &toks,
                    &cands,
                    wishlist_ext_ids,
                    wishlist_keys,
                );
                let ghost r0 = recs@;
                let ghost s0 = scores@;
                let ghost k0 = seen@;
                recs.push(rec);
                scores.push(score);
                seen.push(key);
                assert(recs@.map_values(|x: DiscoveryRecommendation| rec_view(x)) =~= r0.map_values(|x: DiscoveryRecommendation| rec_view(x)).push(rec_view(rec)));
                assert(scores@.map_values(|x: i128| x as int) =~= s0.map_values(|x: i128| x as int).push(score as int));
                assert(text::views(seen@) =~= text::views(k0).push(key@));
            }
        }
        i = i + 1;
    }
    assert(items@.take(items.len() as int) =~= items@);
    let ghost online = collect_online(items@, ctx);
    let mut j: usize = 0;
    while j < local.len()
        invariant
            j <= local.len(),
            ctx.lower_query == lq@,
            ctx.tokens == text::views(toks@),
            recs.len() == scores.len(),
            recs@.map_values(|x: DiscoveryRecommendation| rec_view(x)) == collect_local(local@.take(j as int), online, ctx).recs,
            scores@.map_values(|x: i128| x as int) == collect_local(local@.take(j as int), online, ctx).scores,
            text::views(seen@) == collect_local(local@.take(j as int), online, ctx).seen,
        decreases local.len() - j,
    {
        assert(local@.take(j + 1).drop_last() =~= local@.take(j as int));
        let lt = &local[j];
        let t = text::trim_str(lt.title.as_str());
        let a: Vec<char> = match &lt.artist {
            Some(x) => text::trim_str(x.as_str()),
            None => {
                proof {
                    reveal_strlit("");
                    assert(""@ =~= discovery::or_empty(lt.artist));
                }
                text::trim_str("")
            },
        };
        assert(a@ == text::trim(discovery::or_empty(lt.artist)));
        let key = result_key_exec(&a, &t);
        let lo_t = text::lower_chars(text::string_of(&t).as_str());
        let lo_a = text::lower_chars(text::string_of(&a).as_str());
        if !has_key(&seen, &key) && (text::contains_exec(&lo_t, &lq) || text::contains_exec(&lo_a, &lq)
            || all_tokens_found_exec(&lo_t, &lo_a, &toks)) {
            let title_part = whole_query_part_exec(&lo_t, &lq, 900, 450, 200);
            let artist_part: i128 = if text::chars_eq(&lo_a, &lq) {
                700
            } else if text::contains_exec(&lo_a, &lq) {
                150
            } else {
                0
            };
            let score: i128 = 50 + title_part + artist_part;
            let mut ext = text::chars_of("local:");
            text::push_str_chars(&mut ext, lt.id.as_str());
            let rec = DiscoveryRecommendation {
                external_track_id: text::string_of(&ext),
                provider: "library".to_owned(),
                provider_id: lt.id.clone(),
                title: text::string_of(&t),
                artist: text::string_of(&a),
                album: clone_opt(&lt.album),
                duration_ms: Some(lt.duration_ms),
                cover_art_url: None,
                preview_url: None,
                genre: clone_opt(&lt.genre),
                match_status: MatchStatus::ExactMatch,
                matched_local_track_id: Some(lt.id.clone()),
                recommendation_reason: "In your local library".to_owned(),
                in_wishlist: false,
            };
            assert(rec_view(rec) == local_rec(*lt, t@, a@));
            let ghost r0 = recs@;
            let ghost s0 = scores@;
            let ghost k0 = seen@;
            recs.push(rec);
            scores.push(score);
            seen.push(key);
            assert(recs@.map_values(|x: DiscoveryRecommendation| rec_view(x)) =~= r0.map_values(|x: DiscoveryRecommendation| rec_view(x)).push(rec_view(rec)));
            assert(scores@.map_values(|x: i128| x as int) =~= s0.map_values(|x: i128| x as int).push(score as int));
            assert(text::views(seen@) =~= text::views(k0).push(key@));
        }
        j = j + 1;
    }
    assert(local@.take(local.len() as int) =~= local@);
    let mut keys: Vec<(u8, i128)> = Vec::new();
    let mut q: usize = 0;
    while q < scores.len()
        invariant
            q <= scores.len(),
            keys@ == score_keys(scores@.map_values(|x: i128| x as int)).take(q as int),
        decreases scores.len() - q,
    {
        keys.push((0, scores[q]));
        q = q + 1;
        assert(keys@ =~= score_keys(scores@.map_values(|x: i128| x as int)).take(q as int));
    }
    assert(keys@ =~= score_keys(scores@.map_values(|x: i128| x as int)));
    let order = ranking::rank_positions(&keys);
    let n = if limit < order.len() {
        limit
    } else {
        order.len()
    };
    let mut out: Vec<DiscoveryRecommendation> = Vec::new();
    let mut k: usize = 0;
    while k < n
        invariant
            k <= n,
            n <= order.len(),
            order.len() == recs.len(),
            forall|x: int| 0 <= x < order.len() ==> (#[trigger] order@[x]) < recs.len(),
            out.len() == k,
            forall|x: int| 0 <= x < k ==> rec_view(#[trigger] out@[x]) == rec_view(recs@[order@[x] as int]),
        decreases n - k,
    {
        let rec = clone_rec(&recs[order[k]]);
        out.push(rec);
        k = k + 1;
    }
    proof {
        let c = search_collected(
            items@,
            local@,
            query@,
            discovery::string_views(wishlist_ext_ids@),
            discovery::string_views(wishlist_keys@),
        );
        assert(c == collect_local(local@, online, ctx));
        assert forall|x: int| 0 <= x < out.len() implies rec_view(#[trigger] out@[x]) == c.recs[order@[x] as int] by {
            assert(recs@.map_values(|y: DiscoveryRecommendation| rec_view(y))[order@[x] as int] == rec_view(recs@[order@[x] as int]));
        }
        assert(score_keys(scores@.map_values(|x: i128| x as int)) == score_keys(c.scores));
    }
    out
}

/// A copy of a recommendation.
pub fn clone_rec(r: &DiscoveryRecommendation) -> (c: DiscoveryRecommendation)
    ensures
        rec_view(c) == rec_view(*r),
{
    DiscoveryRecommendation {
        external_track_id: r.external_track_id.clone(),
        provider: r.provider.clone(),
        provider_id: r.provider_id.clone(),
        title: r.title.clone(),
        artist: r.artist.clone(),
        album: clone_opt(&r.album),
        duration_ms: r.duration_ms,
        cover_art_url: clone_opt(&r.cover_art_url),
        preview_url: clone_opt(&r.preview_url),
        genre: clone_opt(&r.genre),
        match_status: r.match_status,
        matched_local_track_id: clone_opt(&r.matched_local_track_id),
        recommendation_reason: r.recommendation_reason.clone(),
        in_wishlist: r.in_wishlist,
    }
}

/// The keys of collected recommendations are exactly the keys recorded as seen,
/// and none is recorded twice.
pub open spec fn keys_recorded(c: Collected) -> bool {
    &&& c.recs.len() == c.seen.len()
    &&& forall|i: int| 0 <= i < c.recs.len() ==> result_key(c.recs[i].artist, c.recs[i].title) == #[trigger] c.seen[i]
    &&& c.seen.no_duplicates()
}

proof fn lemma_online_keys_recorded(items: Seq<OnlineSearchItem>, ctx: SearchContext)
    ensures
        keys_recorded(collect_online(items, ctx)),
    decreases items.len(),
{
    if items.len() > 0 {
        lemma_online_keys_recorded(items.drop_last(), ctx);
    }
}

proof fn lemma_local_keys_recorded(tracks: Seq<LibraryTrack>, start: Collected, ctx: SearchContext)
    requires
        keys_recorded(start),
    ensures
        keys_recorded(collect_local(tracks, start, ctx)),
    decreases tracks.len(),
{
    if tracks.len() > 0 {
        lemma_local_keys_recorded(tracks.drop_last(), start, ctx);
    }
}

/// No two results of a search share a de-duplication key (lowercase
/// "artist:title"): a catalog result or library track whose key is already
/// represented is never added again.
pub proof fn law_search_results_have_distinct_keys(
    items: Seq<OnlineSearchItem>,
    local: Seq<LibraryTrack>,
    query: Seq<char>,
    ext_ids: Seq<Seq<char>>,
    wish_keys: Seq<Seq<char>>,
)
    ensures
        ({
            let c = search_collected(items, local, query, ext_ids, wish_keys);
            forall|i: int, j: int|
                0 <= i < j < c.recs.len() ==> result_key(c.recs[i].artist, c.recs[i].title) != result_key(
                    c.recs[j].artist,
                    c.recs[j].title,
                )
        }),
{
    let cq = text::trim(query);
    let lq = text::spec_str_lowercase(cq);
    let ctx = SearchContext {
        clean_query: cq,
        lower_query: lq,
        tokens: text::words(lq),
        cands: library_candidates(local),
        ext_ids,
        wish_keys,
    };
    lemma_online_keys_recorded(items, ctx);
    lemma_local_keys_recorded(local, collect_online(items, ctx), ctx);
    let c = search_collected(items, local, query, ext_ids, wish_keys);
    assert forall|i: int, j: int| 0 <= i < j < c.recs.len() implies result_key(c.recs[i].artist, c.recs[i].title)
        != result_key(c.recs[j].artist, c.recs[j].title) by {
        assert(c.seen[i] != c.seen[j]);
    }
}

/// The "artist:title" key of a library track.
pub open spec fn track_key(lt: LibraryTrack) -> Seq<char> {
    result_key(text::trim(discovery::or_empty(lt.artist)), text::trim(lt.title@))
}

spec fn track_answers(lt: LibraryTrack, ctx: SearchContext) -> bool {
    local_included(
        text::spec_str_lowercase(text::trim(lt.title@)),
        text::spec_str_lowercase(text::trim(discovery::or_empty(lt.artist))),
        ctx.lower_query,
        ctx.tokens,
    )
}

proof fn lemma_local_represented(tracks: Seq<LibraryTrack>, start: Collected, ctx: SearchContext)
    ensures
        forall|x: Seq<char>| start.seen.contains(x) ==> #[trigger] collect_local(tracks, start, ctx).seen.contains(x),
        forall|i: int|
            0 <= i < tracks.len() && track_answers(#[trigger] tracks[i], ctx) ==> collect_local(
                tracks,
                start,
                ctx,
            ).seen.contains(track_key(tracks[i])),
    decreases tracks.len(),
{
    if tracks.len() > 0 {
        let init = tracks.drop_last();
        lemma_local_represented(init, start, ctx);
        let prev = collect_local(init, start, ctx);
        let cur = collect_local(tracks, start, ctx);
        assert forall|x: Seq<char>| prev.seen.contains(x) implies cur.seen.contains(x) by {
            if cur != prev {
                let j = choose|j: int| 0 <= j < prev.seen.len() && prev.seen[j] == x;
                assert(cur.seen[j] == x);
            }
        }
        assert forall|i: int| 0 <= i < tracks.len() && track_answers(#[trigger] tracks[i], ctx) implies cur.seen.contains(
            track_key(tracks[i]),
        ) by {
            if i < init.len() {
                assert(init[i] == tracks[i]);
                assert(prev.seen.contains(track_key(tracks[i])));
            } else {
                assert(tracks.last() == tracks[i]);
                if !prev.seen.contains(track_key(tracks[i])) {
                    assert(cur.seen[cur.seen.len() - 1] == track_key(tracks[i]));
                }
            }
        }
    }
}

/// A search finds every library track whose lowercase title or artist holds
/// the whole lowercase query, or of which each query word occurs in the
/// lowercase title or the lowercase artist (a query made of an artist word and
/// a title word finds the track): some collected result has that track's
/// "artist:title" key.
pub proof fn law_search_finds_tracks_matching_every_word(
    items: Seq<OnlineSearchItem>,
    local: Seq<LibraryTrack>,
    query: Seq<char>,
    ext_ids: Seq<Seq<char>>,
    wish_keys: Seq<Seq<char>>,
    i: int,
)
    requires
        0 <= i < local.len(),
        ({
            let toks = text::words(text::spec_str_lowercase(text::trim(query)));
            let lt = text::spec_str_lowercase(text::trim(local[i].title@));
            let la = text::spec_str_lowercase(text::trim(discovery::or_empty(local[i].artist)));
            let lq = text::spec_str_lowercase(text::trim(query));
            text::contains(lt, lq) || text::contains(la, lq) || forall|k: int|
                0 <= k < toks.len() ==> text::contains(lt, #[trigger] toks[k]) || text::contains(la, toks[k])
        }),
    ensures
        ({
            let c = search_collected(items, local, query, ext_ids, wish_keys);
            let t = text::trim(local[i].title@);
            let a = text::trim(discovery::or_empty(local[i].artist));
            exists|j: int| 0 <= j < c.recs.len() && #[trigger] result_key(c.recs[j].artist, c.recs[j].title) == result_key(a, t)
        }),
{
    let cq = text::trim(query);
    let lq = text::spec_str_lowercase(cq);
    let ctx = SearchContext {
        clean_query: cq,
        lower_query: lq,
        tokens: text::words(lq),
        cands: library_candidates(local),
        ext_ids,
        wish_keys,
    };
    let start = collect_online(items, ctx);
    lemma_online_keys_recorded(items, ctx);
    lemma_local_keys_recorded(local, start, ctx);
    lemma_local_represented(local, start, ctx);
    let c = search_collected(items, local, query, ext_ids, wish_keys);
    let t = text::trim(local[i].title@);
    let a = text::trim(discovery::or_empty(local[i].artist));
    assert(track_answers(local[i], ctx));
    assert(c.seen.contains(result_key(a, t)));
    let j = choose|j: int| 0 <= j < c.seen.len() && c.seen[j] == result_key(a, t);
    assert(result_key(c.recs[j].artist, c.recs[j].title) == c.seen[j]);
}

} // verus!
