//! Taste-weighted ranking of external discovery candidates.
//!
//! Every candidate is matched against the local library, scored by taste
//! (listened and library artists, top genres, preview availability, an optional
//! rotation offset), ordered unowned-first and by score, and finally thinned so
//! that no artist appears more than twice.
use vstd::prelude::*;
use crate::text;
use crate::genre;
use crate::ranking;
use crate::matcher::{self, FuzzyTrackMatcher, LocalTrackCandidate, MatchStatus};

verus! {

/// An external (online) track known to the discovery pool.
/// `duration_ms` is the track length in milliseconds.
#[derive(Clone, Debug)]
pub struct ExternalTrackRecord {
    pub id: String,
    pub provider: String,
    pub provider_id: String,
    pub title: String,
    pub artist: String,
    pub album: Option<String>,
    pub duration_ms: Option<u64>,
    pub cover_art_url: Option<String>,
    pub preview_url: Option<String>,
    pub genre: Option<String>,
    pub match_status: String,
    pub matched_local_track_id: Option<String>,
    pub created_at: i64,
}

/// A recommendation handed to the user interface.
#[derive(Clone, Debug)]
pub struct DiscoveryRecommendation {
    pub external_track_id: String,
    pub provider: String,
    pub provider_id: String,
    pub title: String,
    pub artist: String,
    pub album: Option<String>,
    pub duration_ms: Option<u64>,
    pub cover_art_url: Option<String>,
    pub preview_url: Option<String>,
    pub genre: Option<String>,
    pub match_status: MatchStatus,
    pub matched_local_track_id: Option<String>,
    pub recommendation_reason: String,
    pub in_wishlist: bool,
}

/// What is known of the user's taste when scoring candidates.
/// `ranked_genres` are lowercase genre names, most important first;
/// the artist lists hold lowercase, trimmed names.
#[derive(Clone, Debug)]
pub struct TasteContext {
    pub ranked_genres: Vec<String>,
    pub listened_artists: Vec<String>,
    pub library_artists: Vec<String>,
    pub has_malayalam: bool,
    pub force_refresh: bool,
    pub now_millis: u64,
}

pub open spec fn or_empty(o: Option<String>) -> Seq<char> {
    match o {
        Some(s) => s@,
        None => seq![],
    }
}

pub open spec fn string_views(v: Seq<String>) -> Seq<Seq<char>> {
    v.map_values(|s: String| s@)
}

/// The lowercase, trimmed form of an artist name.
pub open spec fn artist_key(a: Seq<char>) -> Seq<char> {
    text::trim(text::spec_str_lowercase(a))
}

/// The genre-affinity score of the genre ranked at position `idx`.
pub open spec fn genre_rank_score(idx: int) -> i64 {
    if idx == 0 {
        100
    } else if idx == 1 {
        80
    } else if idx == 2 {
        65
    } else if idx == 3 {
        50
    } else {
        35
    }
}

/// The first ranked genre (at or after `k`) that the track's genre or album matches.
pub open spec fn first_genre_match(tg: Seq<char>, ta: Seq<char>, genres: Seq<Seq<char>>, k: int) -> Option<int>
    decreases genres.len() - k,
{
    if k < 0 || k >= genres.len() {
        None
    } else if genre::genres_match(tg, genres[k]) || genre::genres_match(ta, genres[k]) {
        Some(k)
    } else {
        first_genre_match(tg, ta, genres, k + 1)
    }
}

/// The rotation offset applied on a forced refresh, from 0 to 49.
pub open spec fn rotation(id: Seq<char>, title: Seq<char>, now_millis: u64) -> int {
    (text::utf8_byte_len(id) * 19 + text::utf8_byte_len(title) * 37 + (
    now_millis % 97)) % 50
}

pub open spec fn mentions_malayalam(tg: Seq<char>, ta: Seq<char>) -> bool {
    text::contains(tg, "malayalam"@) || text::contains(ta, "malayalam"@)
}

/// The taste score of a candidate track.
pub open spec fn candidate_score(
    id: Seq<char>,
    title: Seq<char>,
    artist: Seq<char>,
    album: Option<String>,
    genre: Option<String>,
    has_preview: bool,
    taste_genres: Seq<Seq<char>>,
    listened: Seq<Seq<char>>,
    library: Seq<Seq<char>>,
    has_malayalam: bool,
    force_refresh: bool,
    now_millis: u64,
) -> int {
    let key = artist_key(artist);
    let tg = text::spec_str_lowercase(or_empty(genre));
    let ta = text::spec_str_lowercase(or_empty(album));
    let gs: int = match first_genre_match(tg, ta, taste_genres, 0) {
        Some(i) => genre_rank_score(i) as int,
        None => 0,
    };
    let gs2: int = if has_malayalam && mentions_malayalam(tg, ta) && gs < 85 {
        85
    } else {
        gs
    };
    let artist_bonus: int = if listened.contains(key) {
        90
    } else if library.contains(key) {
        70
    } else {
        0
    };
    15 + artist_bonus + gs2 + (if has_preview {
        5int
    } else {
        0int
    }) + (if force_refresh {
        rotation(id, title, now_millis) - 25
    } else {
        0int
    })
}

/// The explanation shown with a recommendation.
pub open spec fn candidate_reason(
    status: MatchStatus,
    artist: Seq<char>,
    album: Option<String>,
    genre: Option<String>,
    taste_genres: Seq<Seq<char>>,
    listened: Seq<Seq<char>>,
    library: Seq<Seq<char>>,
) -> Seq<char> {
    let key = artist_key(artist);
    let tg = text::spec_str_lowercase(or_empty(genre));
    let ta = text::spec_str_lowercase(or_empty(album));
    match status {
        MatchStatus::NotFound => if listened.contains(key) {
            "\u{2728} Trending release \u{2022} Similar to your listening habit for "@ + artist
        } else if library.contains(key) {
            "\u{1f3b5} Trending hit by your library artist "@ + artist
        } else if mentions_malayalam(tg, ta) {
            "\u{1f525} Trending in Malayalam \u{2022} Matches your library favorites"@
        } else {
            match first_genre_match(tg, ta, taste_genres, 0) {
                Some(i) => "\u{1f525} Trending in "@ + (match genre {
                    Some(g) => g@,
                    None => taste_genres[i],
                }) + " \u{2022} Matches your top genre"@,
                None => "\u{1f525} Trending Chart Hit \u{2022} Popular discovery across charts"@,
            }
        },
        MatchStatus::PossibleMatch => "Alternate release / version of local track"@,
        MatchStatus::LikelyMatch => "Remastered edition of local track"@,
        MatchStatus::ExactMatch => "Already in local library"@,
    }
}

/// The position of a status in the "unowned first" order.
pub open spec fn status_rank(s: MatchStatus) -> u8 {
    match s {
        MatchStatus::NotFound => 0,
        MatchStatus::PossibleMatch => 1,
        MatchStatus::LikelyMatch => 2,
        MatchStatus::ExactMatch => 3,
    }
}

fn contains_string(list: &Vec<String>, x: &Vec<char>) -> (b: bool)
    ensures
        b == string_views(list@).contains(x@),
{
    let mut i: usize = 0;
    while i < list.len()
        invariant
            i <= list.len(),
            forall|k: int| 0 <= k < i ==> list@[k]@ != x@,
        decreases list.len() - i,
    {
        let v = text::chars_of(list[i].as_str());
        if text::chars_eq(&v, x) {
            assert(string_views(list@)[i as int] == x@);
            return true;
        }
        i = i + 1;
    }
    assert forall|k: int| 0 <= k < string_views(list@).len() implies string_views(list@)[k] != x@ by {
        assert(string_views(list@)[k] == list@[k]@);
    }
    false
}

fn lower_opt(o: &Option<String>) -> (r: Vec<char>)
    ensures
        r@ == text::spec_str_lowercase(or_empty(*o)),
{
    match o {
        Some(s) => {
            assert(or_empty(*o) == s@);
            text::lower_chars(s.as_str())
        },
        None => {
            proof {
                reveal_strlit("");
                assert(""@ =~= Seq::<char>::empty());
            }
            text::lower_chars("")
        },
    }
}

/// The lowercase, trimmed form of an artist name.
pub fn artist_key_exec(a: &str) -> (r: Vec<char>)
    ensures
        r@ == artist_key(a@),
{
    let l = text::lower_chars(a);
    text::trim_chars(&l)
}

fn first_genre_match_exec(tg: &Vec<char>, ta: &Vec<char>, genres: &Vec<String>) -> (r: Option<usize>)
    ensures
        match r {
            Some(i) => first_genre_match(tg@, ta@, string_views(genres@), 0) == Some(i as int) && i
                < genres.len(),
            None => first_genre_match(tg@, ta@, string_views(genres@), 0) is None,
        },
{
    let ghost gv = string_views(genres@);
    let tgs = text::string_of(tg);
    let tas = text::string_of(ta);
    let mut k: usize = 0;
    while k < genres.len()
        invariant
            k <= genres.len(),
            gv == string_views(genres@),
            tgs@ == tg@,
            tas@ == ta@,
            first_genre_match(tg@, ta@, gv, 0) == first_genre_match(tg@, ta@, gv, k as int),
        decreases genres.len() - k,
    {
        assert(gv[k as int] == genres@[k as int]@);
        if genre::genre_matches(tgs.as_str(), genres[k].as_str()) || genre::genre_matches(
            tas.as_str(),
            genres[k].as_str(),
        ) {
            return Some(k);
        }
        k = k + 1;
    }
    None
}

/// The taste score of one candidate track.
pub fn score_candidate(track: &ExternalTrackRecord, taste: &TasteContext) -> (s: i64)
    ensures
        s == candidate_score(
            track.id@,
            track.title@,
            track.artist@,
            track.album,
            track.genre,
            track.preview_url is Some,
            string_views(taste.ranked_genres@),
            string_views(taste.listened_artists@),
            string_views(taste.library_artists@),
            taste.has_malayalam,
            taste.force_refresh,
            taste.now_millis,
        ),
{
    let key = artist_key_exec(track.artist.as_str());
    let tg = lower_opt(&track.genre);
    let ta = lower_opt(&track.album);
    let gs: i64 = match first_genre_match_exec(&tg, &ta, &taste.ranked_genres) {
        Some(i) => if i == 0 {
            100
        } else if i == 1 {
            80
        } else if i == 2 {
            65
        } else if i == 3 {
            50
        } else {
            35
        },
        None => 0,
    };
    let mal = text::contains_str(&tg, "malayalam") || text::contains_str(&ta, "malayalam");
    let gs2: i64 = if taste.has_malayalam && mal && gs < 85 {
        85
    } else {
        gs
    };
    let bonus: i64 = if contains_string(&taste.listened_artists, &key) {
        90
    } else if contains_string(&taste.library_artists, &key) {
        70
    } else {
        0
    };
    let preview: i64 = if track.preview_url.is_some() {
        5
    } else {
        0
    };
    let rot: i64 = if taste.force_refresh {
        let id_len = text::utf8_byte_len_exec(&text::chars_of(track.id.as_str()));
        let title_len = text::utf8_byte_len_exec(&text::chars_of(track.title.as_str()));
        let h = (id_len * 19 + title_len * 37 + (taste.now_millis % 97) as u128) % 50;
        (h as i64) - 25
    } else {
        0
    };
    15 + bonus + gs2 + preview + rot
}

/// The explanation shown with a recommendation.
pub fn candidate_reason_exec(status: MatchStatus, track: &ExternalTrackRecord, taste: &TasteContext) -> (r: String)
    ensures
        r@ == candidate_reason(
            status,
            track.artist@,
            track.album,
            track.genre,
            string_views(taste.ranked_genres@),
            string_views(taste.listened_artists@),
            string_views(taste.library_artists@),
        ),
{
    match status {
        MatchStatus::NotFound => {
            let key = artist_key_exec(track.artist.as_str());
            if contains_string(&taste.listened_artists, &key) {
                return text::concat2(
                    "\u{2728} Trending release \u{2022} Similar to your listening habit for ",
                    track.artist.as_str(),
                );
            }
            if contains_string(&taste.library_artists, &key) {
                return text::concat2(
                    "\u{1f3b5} Trending hit by your library artist ",
                    track.artist.as_str(),
                );
            }
            let tg = lower_opt(&track.genre);
            let ta = lower_opt(&track.album);
            if text::contains_str(&tg, "malayalam") || text::contains_str(&ta, "malayalam") {
                return "\u{1f525} Trending in Malayalam \u{2022} Matches your library favorites".to_owned();
            }
            match first_genre_match_exec(&tg, &ta, &taste.ranked_genres) {
                Some(i) => {
                    let shown: &str = match &track.genre {
                        Some(g) => g.as_str(),
                        None => {
                            assert(string_views(taste.ranked_genres@)[i as int] == taste.ranked_genres@[i as int]@);
                            taste.ranked_genres[i].as_str()
                        },
                    };
                    text::concat3("\u{1f525} Trending in ", shown, " \u{2022} Matches your top genre")
                },
                None => "\u{1f525} Trending Chart Hit \u{2022} Popular discovery across charts".to_owned(),
            }
        },
        MatchStatus::PossibleMatch => "Alternate release / version of local track".to_owned(),
        MatchStatus::LikelyMatch => "Remastered edition of local track".to_owned(),
        MatchStatus::ExactMatch => "Already in local library".to_owned(),
    }
}

/// A candidate after matching against the library and scoring.
/// `record` carries the refreshed match status; `changed` tells whether it
/// differs from the stored one (and so must be saved).
#[derive(Debug)]
pub struct EvaluatedCandidate {
    pub record: ExternalTrackRecord,
    pub status: MatchStatus,
    pub changed: bool,
    pub score: i64,
    pub reason: String,
}

/// Whether `new` is `old` with its match refreshed from `m`.
pub open spec fn refreshed_record(old: ExternalTrackRecord, new: ExternalTrackRecord, m: matcher::MatchResultView) -> bool {
    let changed = old.match_status@ != matcher::match_status_name(m.status);
    &&& new.id == old.id
    &&& new.provider == old.provider
    &&& new.provider_id == old.provider_id
    &&& new.title == old.title
    &&& new.artist == old.artist
    &&& new.album == old.album
    &&& new.duration_ms == old.duration_ms
    &&& new.cover_art_url == old.cover_art_url
    &&& new.preview_url == old.preview_url
    &&& new.genre == old.genre
    &&& new.created_at == old.created_at
    &&& new.match_status@ == matcher::match_status_name(m.status)
    &&& matcher::opt_view(new.matched_local_track_id) == if changed {
        m.matched_track_id
    } else {
        matcher::opt_view(old.matched_local_track_id)
    }
}

/// Whether `e` is the evaluation of `t` against the local candidates and taste.
pub open spec fn evaluation_of(
    e: EvaluatedCandidate,
    t: ExternalTrackRecord,
    cands: Seq<matcher::CandidateView>,
    taste: TasteContext,
) -> bool {
    let m = matcher::best_match(t.title@, t.artist@, t.duration_ms, false, cands);
    &&& e.status == m.status
    &&& e.changed == (t.match_status@ != matcher::match_status_name(m.status))
    &&& refreshed_record(t, e.record, m)
    &&& e.score == candidate_score(
        t.id@,
        t.title@,
        t.artist@,
        t.album,
        t.genre,
        t.preview_url is Some,
        string_views(taste.ranked_genres@),
        string_views(taste.listened_artists@),
        string_views(taste.library_artists@),
        taste.has_malayalam,
        taste.force_refresh,
        taste.now_millis,
    )
    &&& e.reason@ == candidate_reason(
        m.status,
        t.artist@,
        t.album,
        t.genre,
        string_views(taste.ranked_genres@),
        string_views(taste.listened_artists@),
        string_views(taste.library_artists@),
    )
}

/// Matches one candidate against the local library and scores it.
pub fn evaluate_candidate(
    track: ExternalTrackRecord,
    local: &Vec<LocalTrackCandidate>,
    taste: &TasteContext,
) -> (e: EvaluatedCandidate)
    ensures
        evaluation_of(e, track, matcher::candidate_views(local@), *taste),
{
    let m = FuzzyTrackMatcher::find_best_match(
        track.title.as_str(),
        track.artist.as_str(),
        track.duration_ms,
        false,
        local,
    );
    let score = score_candidate(&track, taste);
    let reason = candidate_reason_exec(m.status, &track, taste);
    let status = m.status;
    let name = status.as_str();
    let stored = text::chars_of(track.match_status.as_str());
    let fresh = text::chars_of(name);
    let changed = !text::chars_eq(&stored, &fresh);
    let ghost old_track = track;
    let mut record = track;
    record.match_status = name.to_owned();
    if changed {
        record.matched_local_track_id = m.matched_track_id;
    }
    EvaluatedCandidate { record, status, changed, score, reason }
}

/// How many of the picked positions `ps` have artist key `k`.
pub open spec fn key_count(ps: Seq<usize>, keys: Seq<Seq<char>>, k: Seq<char>) -> nat
    decreases ps.len(),
{
    if ps.len() == 0 {
        0
    } else {
        key_count(ps.drop_last(), keys, k) + if keys[ps.last() as int] == k {
            1nat
        } else {
            0nat
        }
    }
}

/// The positions picked, in order, when walking `order` and keeping at most
/// two per artist key, stopping once `limit` are kept (after the first pick
/// when `limit` is zero).
pub open spec fn picked(order: Seq<usize>, keys: Seq<Seq<char>>, limit: nat) -> Seq<usize>
    decreases order.len(),
{
    if order.len() == 0 {
        seq![]
    } else {
        let prev = picked(order.drop_last(), keys, limit);
        if prev.len() > 0 && prev.len() >= limit {
            prev
        } else if key_count(prev, keys, keys[order.last() as int]) >= 2 {
            prev
        } else {
            prev.push(order.last())
        }
    }
}

fn key_count_exec(ps: &Vec<usize>, keys: &Vec<Vec<char>>, k: &Vec<char>) -> (n: usize)
    requires
        forall|i: int| 0 <= i < ps.len() ==> (#[trigger] ps@[i]) < keys.len(),
    ensures
        n == key_count(ps@, text::views(keys@), k@),
{
    let mut n: usize = 0;
    let mut i: usize = 0;
    while i < ps.len()
        invariant
            i <= ps.len(),
            forall|j: int| 0 <= j < ps.len() ==> (#[trigger] ps@[j]) < keys.len(),
            n == key_count(ps@.take(i as int), text::views(keys@), k@),
            n <= i,
        decreases ps.len() - i,
    {
        assert(ps@.take(i + 1).drop_last() =~= ps@.take(i as int));
        assert(text::views(keys@)[ps@[i as int] as int] == keys@[ps@[i as int] as int]@);
        if text::chars_eq(&keys[ps[i]], k) {
            n = n + 1;
        }
        i = i + 1;
    }
    assert(ps@.take(ps.len() as int) =~= ps@);
    n
}

/// Walks `order`, keeping at most two positions per artist key, until `limit` are kept.
pub fn pick_diverse(order: &Vec<usize>, keys: &Vec<Vec<char>>, limit: usize) -> (r: Vec<usize>)
    requires
        forall|i: int| 0 <= i < order.len() ==> (#[trigger] order@[i]) < keys.len(),
    ensures
        r@ == picked(order@, text::views(keys@), limit as nat),
{
    let mut r: Vec<usize> = Vec::new();
    let mut i: usize = 0;
    while i < order.len()
        invariant
            i <= order.len(),
            forall|j: int| 0 <= j < order.len() ==> (#[trigger] order@[j]) < keys.len(),
            forall|j: int| 0 <= j < r.len() ==> (#[trigger] r@[j]) < keys.len(),
            r@ == picked(order@.take(i as int), text::views(keys@), limit as nat),
            !(r.len() > 0 && r.len() >= limit) || picked(order@, text::views(keys@), limit as nat)
                == r@,
        decreases order.len() - i,
    {
        assert(order@.take(i + 1).drop_last() =~= order@.take(i as int));
        if r.len() > 0 && r.len() >= limit {
            proof {
                lemma_picked_stops(order@, text::views(keys@), limit as nat, i as int);
            }
            return r;
        }
        let p = order[i];
        assert(text::views(keys@)[p as int] == keys@[p as int]@);
        let c = key_count_exec(&r, keys, &keys[p]);
        if c < 2 {
            r.push(p);
        }
        i = i + 1;
        proof {
            if r.len() > 0 && r.len() >= limit {
                lemma_picked_stops(order@, text::views(keys@), limit as nat, i as int);
            }
        }
    }
    assert(order@.take(order.len() as int) =~= order@);
    r
}

/// Once the picks of a prefix reach the limit, later positions change nothing.
pub proof fn lemma_picked_stops(order: Seq<usize>, keys: Seq<Seq<char>>, limit: nat, i: int)
    requires
        0 <= i <= order.len(),
        picked(order.take(i), keys, limit).len() > 0,
        picked(order.take(i), keys, limit).len() >= limit,
    ensures
        picked(order, keys, limit) == picked(order.take(i), keys, limit),
    decreases order.len() - i,
{
    if i == order.len() {
        assert(order.take(i) =~= order);
    } else {
        assert(order.drop_last().take(i) =~= order.take(i));
        lemma_picked_stops(order.drop_last(), keys, limit, i);
    }
}

/// Whether a track is already on the wishlist, by external ID (for tracks
/// with a provider ID) or by its lowercase "artist:title" key.
pub open spec fn wishlisted(t: ExternalTrackRecord, ext_ids: Seq<Seq<char>>, keys: Seq<Seq<char>>) -> bool {
    (t.provider_id@.len() > 0 && ext_ids.contains(t.id@)) || keys.contains(
        text::spec_str_lowercase(t.artist@) + ":"@ + text::spec_str_lowercase(t.title@),
    )
}

/// Whether `rec` presents the evaluated candidate `e`.
pub open spec fn recommendation_of(rec: DiscoveryRecommendation, e: EvaluatedCandidate, in_wishlist: bool) -> bool {
    &&& rec.external_track_id == e.record.id
    &&& rec.provider == e.record.provider
    &&& rec.provider_id == e.record.provider_id
    &&& rec.title == e.record.title
    &&& rec.artist == e.record.artist
    &&& rec.album == e.record.album
    &&& rec.duration_ms == e.record.duration_ms
    &&& rec.cover_art_url == e.record.cover_art_url
    &&& rec.preview_url == e.record.preview_url
    &&& rec.genre == e.record.genre
    &&& rec.match_status == e.status
    &&& rec.matched_local_track_id == e.record.matched_local_track_id
    &&& rec.recommendation_reason == e.reason
    &&& rec.in_wishlist == in_wishlist
}

/// The ranking keys of evaluated candidates: unowned first, then by score.
pub open spec fn evaluation_keys(evals: Seq<EvaluatedCandidate>) -> Seq<(u8, i128)> {
    Seq::new(evals.len(), |i: int| (status_rank(evals[i].status), evals[i].score as i128))
}

/// The artist keys of evaluated candidates.
pub open spec fn evaluation_artists(evals: Seq<EvaluatedCandidate>) -> Seq<Seq<char>> {
    Seq::new(evals.len(), |i: int| artist_key(evals[i].record.artist@))
}

fn clone_opt(o: &Option<String>) -> (r: Option<String>)
    ensures
        r == *o,
{
    match o {
        Some(s) => Some(s.clone()),
        None => None,
    }
}

fn status_rank_exec(s: MatchStatus) -> (r: u8)
    ensures
        r == status_rank(s),
{
    match s {
        MatchStatus::NotFound => 0,
        MatchStatus::PossibleMatch => 1,
        MatchStatus::LikelyMatch => 2,
        MatchStatus::ExactMatch => 3,
    }
}

/// Whether a track is already on the wishlist.
pub fn is_wishlisted(t: &ExternalTrackRecord, ext_ids: &Vec<String>, keys: &Vec<String>) -> (b: bool)
    ensures
        b == wishlisted(*t, string_views(ext_ids@), string_views(keys@)),
{
    let id = text::chars_of(t.id.as_str());
    let by_id = !t.provider_id.as_str().is_empty() && contains_string(ext_ids, &id);
    let mut key = text::lower_chars(t.artist.as_str());
    text::push_str_chars(&mut key, ":");
    let lt = text::lower_chars(t.title.as_str());
    text::push_chars(&mut key, &lt);
    by_id || contains_string(keys, &key)
}

/// Ranks the discovery pool: every track is matched and scored; then, unowned
/// tracks first and higher scores first (ties in pool order), tracks are taken
/// while keeping at most two per artist, until `limit` are taken.
/// The evaluations come back in pool order, so that the refreshed match
/// statuses (`changed`) can be saved.
pub fn rank_discovery_candidates(
    tracks: Vec<ExternalTrackRecord>,
    local: &Vec<LocalTrackCandidate>,
    taste: &TasteContext,
    wishlist_ext_ids: &Vec<String>,
    wishlist_keys: &Vec<String>,
    limit: usize,
) -> (r: (Vec<EvaluatedCandidate>, Vec<DiscoveryRecommendation>))
    ensures
        r.0.len() == tracks.len(),
        forall|i: int|
            0 <= i < tracks.len() ==> evaluation_of(
                #[trigger] r.0@[i],
                tracks@[i],
                matcher::candidate_views(local@),
                *taste,
            ),
        exists|order: Seq<usize>|
            {
                &&& ranking::is_permutation_of_positions(order, tracks.len() as nat)
                &&& ranking::is_ranked(evaluation_keys(r.0@), order)
                &&& {
                    let ps = picked(order, evaluation_artists(r.0@), limit as nat);
                    &&& r.1.len() == ps.len()
                    &&& forall|k: int|
                        0 <= k < ps.len() ==> recommendation_of(
                            #[trigger] r.1@[k],
                            r.0@[ps[k] as int],
                            wishlisted(
                                r.0@[ps[k] as int].record,
                                string_views(wishlist_ext_ids@),
                                string_views(wishlist_keys@),
                            ),
                        )
                }
            },
        forall|a: int, b: int|
            #![trigger r.1@[a], r.1@[b]]
            0 <= a < b < r.1.len() ==> {
                let sa = r.1@[a].match_status;
                let sb = r.1@[b].match_status;
                &&& sb is NotFound ==> sa is NotFound
                &&& sb is PossibleMatch ==> sa is NotFound || sa is PossibleMatch
                &&& sb is LikelyMatch ==> !(sa is ExactMatch)
            },
{
    let ghost orig = tracks@;
    let n = tracks.len();
    let mut rest = tracks;
    let mut evals: Vec<EvaluatedCandidate> = Vec::new();
    let mut i: usize = 0;
    while i < n
        invariant
            n == orig.len(),
            i <= n,
            rest@ == orig.skip(i as int),
            evals.len() == i,
            forall|j: int|
                0 <= j < i ==> evaluation_of(
                    #[trigger] evals@[j],
                    orig[j],
                    matcher::candidate_views(local@),
                    *taste,
                ),
        decreases n - i,
    {
        let t = rest.remove(0);
        assert(t == orig[i as int]);
        let e = evaluate_candidate(t, local, taste);
        evals.push(e);
        i = i + 1;
        assert(rest@ =~= orig.skip(i as int));
    }
    let mut keys: Vec<(u8, i128)> = Vec::new();
    let mut artists: Vec<Vec<char>> = Vec::new();
    let mut j: usize = 0;
    while j < evals.len()
        invariant
            j <= evals.len(),
            keys@ == evaluation_keys(evals@).take(j as int),
            text::views(artists@) == evaluation_artists(evals@).take(j as int),
            artists.len() == j,
        decreases evals.len() - j,
    {
        keys.push((status_rank_exec(evals[j].status), evals[j].score as i128));
        let a = artist_key_exec(evals[j].record.artist.as_str());
        proof {
            assert(text::views(artists@.push(a)) =~= text::views(artists@).push(a@));
        }
        artists.push(a);
        j = j + 1;
        assert(keys@ =~= evaluation_keys(evals@).take(j as int));
        assert(text::views(artists@) =~= evaluation_artists(evals@).take(j as int));
    }
    assert(keys@ =~= evaluation_keys(evals@));
    assert(text::views(artists@) =~= evaluation_artists(evals@));
    let order = ranking::rank_positions(&keys);
    let picks = pick_diverse(&order, &artists, limit);
    proof {
        lemma_picked_in_range(order@, text::views(artists@), limit as nat, evals.len() as nat);
    }
    let mut recs: Vec<DiscoveryRecommendation> = Vec::new();
    let mut k: usize = 0;
    while k < picks.len()
        invariant
            k <= picks.len(),
            picks@ == picked(order@, evaluation_artists(evals@), limit as nat),
            forall|x: int| 0 <= x < picks.len() ==> (#[trigger] picks@[x]) < evals.len(),
            recs.len() == k,
            forall|x: int|
                0 <= x < k ==> recommendation_of(
                    #[trigger] recs@[x],
                    evals@[picks@[x] as int],
                    wishlisted(
                        evals@[picks@[x] as int].record,
                        string_views(wishlist_ext_ids@),
                        string_views(wishlist_keys@),
                    ),
                ),
        decreases picks.len() - k,
    {
        let e = &evals[picks[k]];
        let wl = is_wishlisted(&e.record, wishlist_ext_ids, wishlist_keys);
        let rec = DiscoveryRecommendation {
            external_track_id: e.record.id.clone(),
            provider: e.record.provider.clone(),
            provider_id: e.record.provider_id.clone(),
            title: e.record.title.clone(),
            artist: e.record.artist.clone(),
            album: clone_opt(&e.record.album),
            duration_ms: e.record.duration_ms,
            cover_art_url: clone_opt(&e.record.cover_art_url),
            preview_url: clone_opt(&e.record.preview_url),
            genre: clone_opt(&e.record.genre),
            match_status: e.status,
            matched_local_track_id: clone_opt(&e.record.matched_local_track_id),
            recommendation_reason: e.reason.clone(),
            in_wishlist: wl,
        };
        recs.push(rec);
        k = k + 1;
    }
    proof {
        law_unowned_recommended_first(evals@, order@, limit as nat);
        assert forall|a: int, b: int|
            #![trigger recs@[a], recs@[b]]
            0 <= a < b < recs.len() implies {
                let sa = recs@[a].match_status;
                let sb = recs@[b].match_status;
                &&& sb is NotFound ==> sa is NotFound
                &&& sb is PossibleMatch ==> sa is NotFound || sa is PossibleMatch
                &&& sb is LikelyMatch ==> !(sa is ExactMatch)
            } by {
            assert(recs@[a].match_status == evals@[picks@[a] as int].status);
            assert(recs@[b].match_status == evals@[picks@[b] as int].status);
        }
    }
    (evals, recs)
}

/// Every picked position is one of the positions of `order`.
pub proof fn lemma_picked_in_range(order: Seq<usize>, keys: Seq<Seq<char>>, limit: nat, n: nat)
    requires
        forall|i: int| 0 <= i < order.len() ==> (#[trigger] order[i]) < n,
    ensures
        forall|i: int|
            0 <= i < picked(order, keys, limit).len() ==> (#[trigger] picked(order, keys, limit)[i])
                < n,
    decreases order.len(),
{
    if order.len() > 0 {
        lemma_picked_in_range(order.drop_last(), keys, limit, n);
        let prev = picked(order.drop_last(), keys, limit);
        assert(order.last() == order[order.len() - 1]);
        assert forall|i: int| 0 <= i < picked(order, keys, limit).len() implies (#[trigger] picked(
            order,
            keys,
            limit,
        )[i]) < n by {
            if i < prev.len() {
                assert(prev[i] < n);
            }
        }
    }
}

/// No artist gets more than two of the picked recommendations.
pub proof fn law_at_most_two_per_artist(order: Seq<usize>, keys: Seq<Seq<char>>, limit: nat, k: Seq<char>)
    ensures
        key_count(picked(order, keys, limit), keys, k) <= 2,
    decreases order.len(),
{
    if order.len() > 0 {
        law_at_most_two_per_artist(order.drop_last(), keys, limit, k);
        let prev = picked(order.drop_last(), keys, limit);
        let x = order.last();
        if !(prev.len() > 0 && prev.len() >= limit) && key_count(prev, keys, keys[x as int]) < 2 {
            assert(prev.push(x).drop_last() =~= prev);
            if keys[x as int] == k {
                assert(key_count(prev.push(x), keys, k) == key_count(prev, keys, k) + 1);
            } else {
                assert(key_count(prev.push(x), keys, k) == key_count(prev, keys, k));
            }
        }
    }
}

/// At most `limit` recommendations are picked (at most one when `limit` is 0).
pub proof fn law_picks_within_limit(order: Seq<usize>, keys: Seq<Seq<char>>, limit: nat)
    ensures
        picked(order, keys, limit).len() <= if limit == 0 {
            1
        } else {
            limit
        },
    decreases order.len(),
{
    if order.len() > 0 {
        law_picks_within_limit(order.drop_last(), keys, limit);
    }
}

proof fn lemma_picked_keeps_rank(order: Seq<usize>, akeys: Seq<Seq<char>>, rk: Seq<(u8, i128)>, limit: nat)
    requires
        ranking::is_ranked(rk, order),
    ensures
        forall|a: int|
            0 <= a < picked(order, akeys, limit).len() ==> exists|i: int|
                0 <= i < order.len() && order[i] == #[trigger] picked(order, akeys, limit)[a],
        forall|a: int, b: int|
            0 <= a < b < picked(order, akeys, limit).len() ==> ranking::ranks_before(
                rk,
                #[trigger] picked(order, akeys, limit)[a] as int,
                #[trigger] picked(order, akeys, limit)[b] as int,
            ),
    decreases order.len(),
{
    if order.len() > 0 {
        let init = order.drop_last();
        assert forall|a: int, b: int| 0 <= a < b < init.len() implies ranking::ranks_before(
            rk,
            #[trigger] init[a] as int,
            #[trigger] init[b] as int,
        ) by {
            assert(init[a] == order[a] && init[b] == order[b]);
        }
        lemma_picked_keeps_rank(init, akeys, rk, limit);
        let prev = picked(init, akeys, limit);
        let ps = picked(order, akeys, limit);
        let x = order[order.len() - 1];
        assert(order.last() == x);
        assert forall|a: int| 0 <= a < ps.len() implies exists|i: int|
            0 <= i < order.len() && order[i] == #[trigger] ps[a] by {
            if a < prev.len() {
                let i = choose|i: int| 0 <= i < init.len() && init[i] == prev[a];
                assert(order[i] == ps[a]);
            } else {
                assert(order[order.len() - 1] == ps[a]);
            }
        }
        assert forall|a: int, b: int| 0 <= a < b < ps.len() implies ranking::ranks_before(
            rk,
            #[trigger] ps[a] as int,
            #[trigger] ps[b] as int,
        ) by {
            if b < prev.len() {
                assert(ps[a] == prev[a] && ps[b] == prev[b]);
            } else {
                assert(ps[a] == prev[a]);
                assert(ps[b] == x);
                let i = choose|i: int| 0 <= i < init.len() && init[i] == prev[a];
                assert(order[i] == prev[a]);
                assert(ranking::ranks_before(rk, order[i] as int, order[order.len() - 1] as int));
            }
        }
    }
}

/// Unowned tracks are recommended first: among the picked recommendations, a
/// track not found in the library never follows one that is, a possible match
/// never follows a likely or exact one, and a likely match never follows an
/// exact one; among equally owned tracks the higher taste score comes first.
pub proof fn law_unowned_recommended_first(evals: Seq<EvaluatedCandidate>, order: Seq<usize>, limit: nat)
    requires
        ranking::is_permutation_of_positions(order, evals.len()),
        ranking::is_ranked(evaluation_keys(evals), order),
    ensures
        ({
            let ps = picked(order, evaluation_artists(evals), limit);
            forall|a: int, b: int|
                #![trigger ps[a], ps[b]]
                0 <= a < b < ps.len() ==> {
                    let sa = evals[ps[a] as int].status;
                    let sb = evals[ps[b] as int].status;
                    &&& sb is NotFound ==> sa is NotFound
                    &&& sb is PossibleMatch ==> sa is NotFound || sa is PossibleMatch
                    &&& sb is LikelyMatch ==> !(sa is ExactMatch)
                    &&& sa == sb ==> evals[ps[a] as int].score >= evals[ps[b] as int].score
                }
        }),
{
    let rk = evaluation_keys(evals);
    let ps = picked(order, evaluation_artists(evals), limit);
    lemma_picked_keeps_rank(order, evaluation_artists(evals), rk, limit);
    assert forall|a: int, b: int|
        #![trigger ps[a], ps[b]]
        0 <= a < b < ps.len() implies {
            let sa = evals[ps[a] as int].status;
            let sb = evals[ps[b] as int].status;
            &&& sb is NotFound ==> sa is NotFound
            &&& sb is PossibleMatch ==> sa is NotFound || sa is PossibleMatch
            &&& sb is LikelyMatch ==> !(sa is ExactMatch)
            &&& sa == sb ==> evals[ps[a] as int].score >= evals[ps[b] as int].score
        } by {
        let i = choose|i: int| 0 <= i < order.len() && order[i] == ps[a];
        let j = choose|j: int| 0 <= j < order.len() && order[j] == ps[b];
        assert(ps[a] < evals.len() && ps[b] < evals.len());
        assert(ranking::ranks_before(rk, ps[a] as int, ps[b] as int));
        assert(rk[ps[a] as int] == (status_rank(evals[ps[a] as int].status), evals[ps[a] as int].score as i128));
        assert(rk[ps[b] as int] == (status_rank(evals[ps[b] as int].status), evals[ps[b] as int].score as i128));
    }
}

} // verus!
