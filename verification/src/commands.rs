//! The decisions taken while serving the application's commands and
//! queries: what a request must satisfy, when a stored session still counts,
//! and how an online search is topped up with download-network sources.
use vstd::prelude::*;
use crate::text;
use crate::error::AppError;
use crate::cloud::{AuthSessionState, CloudSessionMetadata, SessionExpiredReason};
use crate::downloads::{self, DownloadSearchResult, SearchResultView};
use crate::matcher::{self, FuzzyTrackMatcher, LocalTrackCandidate};
use crate::discovery::DiscoveryRecommendation;
use crate::search::{self, RecView};

verus! {

// ---------------------------------------------------------------- requests

/// The outcome of checking a sign-up: the trimmed user name, or the message
/// of the validation error.
pub open spec fn signup_check(username: Seq<char>, password: Seq<char>) -> Result<Seq<char>, Seq<char>> {
    let name = text::trim(username);
    let n = text::utf8_byte_len(name);
    let p = text::utf8_byte_len(password);
    if name.len() == 0 {
        Err("Username cannot be empty"@)
    } else if n < 3 || n > 50 {
        Err("Username must be between 3 and 50 characters"@)
    } else if !(forall|i: int| 0 <= i < name.len() ==> username_char(#[trigger] name[i])) {
        Err("Username can only contain alphanumeric characters, underscores, hyphens, and dots"@)
    } else if p < 8 || p > 128 {
        Err("Password must be between 8 and 128 characters"@)
    } else {
        Ok(name)
    }
}

/// The characters a cloud user name may hold.
pub open spec fn username_char(c: char) -> bool {
    text::spec_char_is_alphanumeric(c) || c == '_' || c == '-' || c == '.'
}

/// The outcome of checking a login: the trimmed user name, or the message.
pub open spec fn login_check(username: Seq<char>, password: Seq<char>) -> Result<Seq<char>, Seq<char>> {
    let name = text::trim(username);
    if name.len() == 0 {
        Err("Username cannot be empty"@)
    } else if password.len() == 0 {
        Err("Password cannot be empty"@)
    } else {
        Ok(name)
    }
}

/// Whether a request check's result is `r`: the value on success, a
/// validation error with the message on failure.
pub open spec fn checked_as(r: Result<String, AppError>, want: Result<Seq<char>, Seq<char>>) -> bool {
    match r {
        Ok(v) => want == Ok::<Seq<char>, Seq<char>>(v@),
        Err(e) => e matches AppError::Validation(m) && want == Err::<Seq<char>, Seq<char>>(m@),
    }
}

/// Checks a cloud sign-up: a user name of 3 to 50 bytes once trimmed, of
/// alphanumeric characters, `_`, `-` and `.`; a password of 8 to 128 bytes.
pub fn validate_signup(username: &str, password: &str) -> (r: Result<String, AppError>)
    ensures
        checked_as(r, signup_check(username@, password@)),
{
    let name = text::trim_str(username);
    if name.len() == 0 {
        return Err(AppError::validation("Username cannot be empty"));
    }
    let n = text::utf8_byte_len_exec(&name);
    if n < 3 || n > 50 {
        return Err(AppError::validation("Username must be between 3 and 50 characters"));
    }
    let mut i: usize = 0;
    while i < name.len()
        invariant
            i <= name.len(),
            name@ == text::trim(username@),
            name.len() > 0,
            3 <= text::utf8_byte_len(name@) <= 50,
            forall|k: int| 0 <= k < i ==> username_char(#[trigger] name@[k]),
        decreases name.len() - i,
    {
        let c = name[i];
        if !(text::char_is_alphanumeric(c) || c == '_' || c == '-' || c == '.') {
            assert(!username_char(name@[i as int]));
            return Err(
                AppError::validation(
                    "Username can only contain alphanumeric characters, underscores, hyphens, and dots",
                ),
            );
        }
        i = i + 1;
    }
    let pv = text::chars_of(password);
    let p = text::utf8_byte_len_exec(&pv);
    if p < 8 || p > 128 {
        return Err(AppError::validation("Password must be between 8 and 128 characters"));
    }
    Ok(text::string_of(&name))
}

/// Checks a login: a nonblank user name (trimmed) and a nonempty password.
pub fn validate_login(username: &str, password: &str) -> (r: Result<String, AppError>)
    ensures
        checked_as(r, login_check(username@, password@)),
{
    let name = text::trim_str(username);
    if name.len() == 0 {
        return Err(AppError::validation("Username cannot be empty"));
    }
    let pv = text::chars_of(password);
    if pv.len() == 0 {
        return Err(AppError::validation("Password cannot be empty"));
    }
    Ok(text::string_of(&name))
}

/// The trimmed value of a required text field, or the validation error
/// `message` when it is blank.
pub fn required_text(value: &str, message: &str) -> (r: Result<String, AppError>)
    ensures
        checked_as(
            r,
            if text::trim(value@).len() == 0 {
                Err(message@)
            } else {
                Ok(text::trim(value@))
            },
        ),
{
    let t = text::trim_str(value);
    if t.len() == 0 {
        Err(AppError::validation(message))
    } else {
        Ok(text::string_of(&t))
    }
}

/// The error for a playlist name already in use.
pub fn duplicate_playlist_error(name: &str) -> (e: AppError)
    ensures
        e matches AppError::Validation(m) && m@ == "A playlist named '"@ + name@ + "' already exists"@,
{
    AppError::Validation(text::concat3("A playlist named '", name, "' already exists"))
}

/// The id under which the removal of a track from a playlist is remembered.
pub fn playlist_song_entity_id(playlist_id: &str, track_id: &str) -> (r: String)
    ensures
        r@ == playlist_id@ + ":"@ + track_id@,
{
    text::concat3(playlist_id, ":", track_id)
}

/// Whether a track added to a playlist must first be recorded as an online
/// track: it is unknown, or it stands for an online one.
pub open spec fn needs_online_record(known: Option<(Seq<char>, Seq<char>)>) -> bool {
    match known {
        None => true,
        Some(tf) => text::starts_with(tf.0, "itunes:"@) || text::starts_with(tf.0, "online:"@) || tf.1
            == "online"@,
    }
}

/// Whether a track added to a playlist must first be recorded as an online
/// track (`known` is the stored title and format, when stored).
pub fn needs_online_ensure(known: &Option<(String, String)>) -> (b: bool)
    ensures
        b == needs_online_record(
            match *known {
                Some(tf) => Some((tf.0@, tf.1@)),
                None => None,
            },
        ),
{
    match known {
        None => true,
        Some(tf) => {
            let t = text::chars_of(tf.0.as_str());
            let a = text::chars_of("itunes:");
            let o = text::chars_of("online:");
            text::starts_with_exec(&t, &a) || text::starts_with_exec(&t, &o) || text::str_eq(
                tf.1.as_str(),
                "online",
            )
        },
    }
}

/// Whether a title given with a track may be used as is: nonblank and not a
/// catalog placeholder.
pub open spec fn clean_title(title: Option<Seq<char>>) -> bool {
    match title {
        Some(t) => text::trim(t).len() > 0 && !text::starts_with(t, "itunes:"@) && !text::starts_with(
            t,
            "online:"@,
        ),
        None => false,
    }
}

/// Whether a title given with a track may be used as is.
pub fn is_clean_title(title: &Option<String>) -> (b: bool)
    ensures
        b == clean_title(matcher::opt_view(*title)),
{
    match title {
        Some(t) => {
            let tv = text::chars_of(t.as_str());
            let tr = text::trim_chars(&tv);
            let a = text::chars_of("itunes:");
            let o = text::chars_of("online:");
            tr.len() > 0 && !text::starts_with_exec(&tv, &a) && !text::starts_with_exec(&tv, &o)
        },
        None => false,
    }
}

/// Whether a library track is a local file (not an online stand-in).
pub open spec fn local_file_track(id: Seq<char>, format: Seq<char>, file_path: Seq<char>) -> bool {
    format != "online"@ && !text::starts_with(file_path, "online://"@) && !text::starts_with(id, "itunes:"@)
        && !text::starts_with(id, "online:"@)
}

/// Whether a library track is a local file.
pub fn is_local_file_track(id: &str, format: &str, file_path: &str) -> (b: bool)
    ensures
        b == local_file_track(id@, format@, file_path@),
{
    let idv = text::chars_of(id);
    let pv = text::chars_of(file_path);
    let op = text::chars_of("online://");
    let it = text::chars_of("itunes:");
    let on = text::chars_of("online:");
    !text::str_eq(format, "online") && !text::starts_with_exec(&pv, &op) && !text::starts_with_exec(&idv, &it)
        && !text::starts_with_exec(&idv, &on)
}

// ---------------------------------------------------------------- sessions

/// Why a stored session has lapsed at `now`, if it has: the absolute expiry
/// first, then the idle one (an expiry of 0 or less means none).
pub open spec fn lapse_reason(idle_expires_at: i64, absolute_expires_at: i64, now: i64) -> Option<SessionExpiredReason> {
    if absolute_expires_at > 0 && now >= absolute_expires_at {
        Some(SessionExpiredReason::AbsoluteTimeout)
    } else if idle_expires_at > 0 && now >= idle_expires_at {
        Some(SessionExpiredReason::IdleTimeout)
    } else {
        None
    }
}

/// Why a stored session has lapsed at `now`, if it has.
pub fn session_lapse(session: &CloudSessionMetadata, now: i64) -> (r: Option<SessionExpiredReason>)
    ensures
        r == lapse_reason(session.idle_expires_at, session.absolute_expires_at, now),
{
    if session.absolute_expires_at > 0 && now >= session.absolute_expires_at {
        Some(SessionExpiredReason::AbsoluteTimeout)
    } else if session.idle_expires_at > 0 && now >= session.idle_expires_at {
        Some(SessionExpiredReason::IdleTimeout)
    } else {
        None
    }
}

/// Whether a stored session may be restored without asking the cloud: it
/// has not lapsed, belongs to the configured cloud, and its token is there.
pub open spec fn restorable(session: CloudSessionMetadata, now: i64, worker_url: Seq<char>, has_token: bool) -> bool {
    lapse_reason(session.idle_expires_at, session.absolute_expires_at, now) is None && session.worker_url@
        == worker_url && has_token
}

/// Whether a stored session may be restored without asking the cloud.
pub fn is_restorable(session: &CloudSessionMetadata, now: i64, worker_url: &str, has_token: bool) -> (b: bool)
    ensures
        b == restorable(*session, now, worker_url@, has_token),
{
    session_lapse(session, now).is_none() && text::str_eq(session.worker_url.as_str(), worker_url) && has_token
}

/// Whether the cloud counts as connected: a session is stored and the user
/// is neither signed out nor expired.
pub open spec fn connected(has_session: bool, state: AuthSessionState) -> bool {
    has_session && !(state is SignedOut) && !(state is SessionExpired)
}

/// Whether the cloud counts as connected.
pub fn is_connected(has_session: bool, state: &AuthSessionState) -> (b: bool)
    ensures
        b == connected(has_session, *state),
{
    match state {
        AuthSessionState::SignedOut => false,
        AuthSessionState::SessionExpired { .. } => false,
        _ => has_session,
    }
}

// ---------------------------------------------------------------- search top-up

/// `s` without every trailing repetition of `suffix` (`str::trim_end_matches`).
pub open spec fn strip_suffixes(s: Seq<char>, suffix: Seq<char>) -> Seq<char>
    decreases s.len(),
{
    if suffix.len() > 0 && text::ends_with(s, suffix) {
        strip_suffixes(s.take(s.len() - suffix.len()), suffix)
    } else {
        s
    }
}

/// The artist and title a download result stands for: from its file name
/// (".mp3" and ".flac" stripped) "Artist - Title", else its user and the name.
pub open spec fn download_pair(r: SearchResultView) -> (Seq<char>, Seq<char>) {
    let raw = strip_suffixes(strip_suffixes(r.filename, ".mp3"@), ".flac"@);
    match text::find(raw, " - "@) {
        Some(p) => (text::trim(raw.take(p)), text::trim(raw.skip(p + 3))),
        None => (r.username, raw),
    }
}

/// The key of an artist and title: "artist:title", each lowercased and trimmed.
pub open spec fn stream_key(artist: Seq<char>, title: Seq<char>) -> Seq<char> {
    text::trim(text::spec_str_lowercase(artist)) + ":"@ + text::trim(text::spec_str_lowercase(title))
}

/// The progress of topping up a search.
pub struct TopUp {
    pub recs: Seq<RecView>,
    pub seen: Seq<Seq<char>>,
    pub done: bool,
}

/// What the search for `query` asks of its additions.
pub struct TopUpContext {
    pub cands: Seq<matcher::CandidateView>,
    pub wish_keys: Seq<Seq<char>>,
    pub query: Seq<char>,
    pub limit: nat,
}

/// The recommendation made of a download result.
pub open spec fn stream_rec(r: SearchResultView, ctx: TopUpContext) -> RecView {
    let at = download_pair(r);
    let m = matcher::best_match(at.1, at.0, None, false, ctx.cands);
    RecView {
        external_track_id: "download:"@ + r.id,
        provider: r.provider,
        provider_id: r.id,
        title: at.1,
        artist: at.0,
        album: None,
        duration_ms: Some(210000),
        cover_art_url: None,
        preview_url: None,
        genre: Some("Online Audio Stream"@),
        match_status: m.status,
        matched_local_track_id: m.matched_track_id,
        recommendation_reason: "Stream source for \""@ + text::trim(ctx.query) + "\""@,
        in_wishlist: ctx.wish_keys.contains(stream_key(at.0, at.1)),
    }
}

/// One download result taken into the top-up: skipped if its key was seen,
/// else added; the top-up ends once the limit is reached.
pub open spec fn top_up_step(st: TopUp, r: SearchResultView, ctx: TopUpContext) -> TopUp {
    let at = download_pair(r);
    let key = stream_key(at.0, at.1);
    if st.seen.contains(key) {
        st
    } else {
        let recs = st.recs.push(stream_rec(r, ctx));
        TopUp { recs, seen: st.seen.push(key), done: recs.len() >= ctx.limit }
    }
}

/// The top-up over the download results `rs`, in order, until it ends.
pub open spec fn top_up(st: TopUp, rs: Seq<SearchResultView>, ctx: TopUpContext) -> TopUp
    decreases rs.len(),
{
    if st.done || rs.len() == 0 {
        st
    } else {
        top_up(top_up_step(st, rs[0], ctx), rs.skip(1), ctx)
    }
}

/// The keys of a list of recommendations.
pub open spec fn rec_keys(recs: Seq<RecView>) -> Seq<Seq<char>> {
    Seq::new(recs.len(), |i: int| stream_key(recs[i].artist, recs[i].title))
}

/// The keys of wishlist entries (artist, title).
pub open spec fn wish_keys_of(w: Seq<(String, String)>) -> Seq<Seq<char>> {
    Seq::new(w.len(), |i: int| stream_key(w[i].0@, w[i].1@))
}

/// The views of a list of recommendations.
pub open spec fn rec_views(v: Seq<DiscoveryRecommendation>) -> Seq<RecView> {
    v.map_values(|r: DiscoveryRecommendation| search::rec_view(r))
}

/// A search topped up with download results: when it found fewer than 5
/// results and the download network answered, the download results not
/// already present (by key) are added, up to `limit`.
pub open spec fn topped_up(
    results: Seq<RecView>,
    downloads: Option<Seq<SearchResultView>>,
    ctx: TopUpContext,
) -> Seq<RecView> {
    match downloads {
        Some(d) => if results.len() < 5 {
            top_up(TopUp { recs: results, seen: rec_keys(results), done: false }, d, ctx).recs
        } else {
            results
        },
        None => results,
    }
}

fn strip_suffixes_exec(s: &Vec<char>, suffix: &str) -> (r: Vec<char>)
    ensures
        r@ == strip_suffixes(s@, suffix@),
{
    let suf = text::chars_of(suffix);
    let mut cur = s.clone();
    if suf.len() == 0 {
        return cur;
    }
    while text::ends_with_exec(&cur, &suf)
        invariant
            suf@ == suffix@,
            suf.len() > 0,
            strip_suffixes(s@, suffix@) == strip_suffixes(cur@, suffix@),
        decreases cur.len(),
    {
        cur = text::slice_chars(&cur, 0, cur.len() - suf.len());
    }
    cur
}

fn key_of(artist: &str, title: &str) -> (k: Vec<char>)
    ensures
        k@ == stream_key(artist@, title@),
{
    let la = text::lower_chars(artist);
    let lt = text::lower_chars(title);
    let ta = text::trim_chars(&la);
    let tt = text::trim_chars(&lt);
    let colon: Vec<char> = vec![':'];
    proof {
        reveal_strlit(":");
    }
    assert(colon@ =~= ":"@);
    let head = text::concat_chars(&ta, &colon);
    text::concat_chars(&head, &tt)
}

fn contains_key(keys: &Vec<Vec<char>>, k: &Vec<char>) -> (b: bool)
    ensures
        b == text::views(keys@).contains(k@),
{
    let mut i: usize = 0;
    while i < keys.len()
        invariant
            i <= keys.len(),
            forall|j: int| 0 <= j < i ==> text::views(keys@)[j] != k@,
        decreases keys.len() - i,
    {
        assert(text::views(keys@)[i as int] == keys@[i as int]@);
        if text::chars_eq(&keys[i], k) {
            return true;
        }
        i = i + 1;
    }
    false
}

fn download_pair_exec(r: &DownloadSearchResult) -> (at: (String, String))
    ensures
        (at.0@, at.1@) == download_pair(r@),
{
    let fv = text::chars_of(r.filename.as_str());
    let a = strip_suffixes_exec(&fv, ".mp3");
    let raw = strip_suffixes_exec(&a, ".flac");
    let sep = text::chars_of(" - ");
    proof {
        reveal_strlit(" - ");
    }
    match text::find_exec(&raw, &sep) {
        Some(p) => {
            proof {
                text::lemma_find_bounds(raw@, sep@, 0);
            }
            let x = text::slice_chars(&raw, 0, p);
            let y = text::slice_chars(&raw, p + 3, raw.len());
            assert(x@ =~= raw@.take(p as int));
            assert(y@ =~= raw@.skip(p + 3));
            let xt = text::trim_chars(&x);
            let yt = text::trim_chars(&y);
            (text::string_of(&xt), text::string_of(&yt))
        },
        None => (r.username.clone(), text::string_of(&raw)),
    }
}

/// Tops up an online search with download-network results.
///
/// `downloads` is what the download network answered (`None` when it
/// failed); `candidates` are the local file tracks offered for matching;
/// `wishlist` holds the (artist, title) of the wishlist entries.
pub fn top_up_online_results(
    results: Vec<DiscoveryRecommendation>,
    downloads: Option<Vec<DownloadSearchResult>>,
    candidates: &Vec<LocalTrackCandidate>,
    wishlist: &Vec<(String, String)>,
    query: &str,
    limit: usize,
) -> (r: Vec<DiscoveryRecommendation>)
    ensures
        rec_views(r@) == topped_up(
            rec_views(results@),
            match downloads {
                Some(d) => Some(downloads::result_views(d@)),
                None => None,
            },
            TopUpContext {
                cands: matcher::candidate_views(candidates@),
                wish_keys: wish_keys_of(wishlist@),
                query: query@,
                limit: limit as nat,
            },
        ),
{
    let dls = match downloads {
        Some(d) => d,
        None => return results,
    };
    if results.len() >= 5 {
        return results;
    }
    let ghost ctx = TopUpContext {
        cands: matcher::candidate_views(candidates@),
        wish_keys: wish_keys_of(wishlist@),
        query: query@,
        limit: limit as nat,
    };
    let mut seen: Vec<Vec<char>> = Vec::new();
    let mut i: usize = 0;
    while i < results.len()
        invariant
            i <= results.len(),
            text::views(seen@) == rec_keys(rec_views(results@)).take(i as int),
        decreases results.len() - i,
    {
        let k = key_of(results[i].artist.as_str(), results[i].title.as_str());
        let ghost before = seen@;
        seen.push(k);
        assert(text::views(seen@) =~= text::views(before).push(k@));
        assert(rec_keys(rec_views(results@)).take(i + 1) =~= rec_keys(rec_views(results@)).take(i as int).push(
            k@,
        ));
        i = i + 1;
    }
    assert(rec_keys(rec_views(results@)).take(results.len() as int) =~= rec_keys(rec_views(results@)));
    let mut wkeys: Vec<Vec<char>> = Vec::new();
    let mut w: usize = 0;
    while w < wishlist.len()
        invariant
            w <= wishlist.len(),
            text::views(wkeys@) == wish_keys_of(wishlist@).take(w as int),
        decreases wishlist.len() - w,
    {
        let k = key_of(wishlist[w].0.as_str(), wishlist[w].1.as_str());
        let ghost before = wkeys@;
        wkeys.push(k);
        assert(text::views(wkeys@) =~= text::views(before).push(k@));
        assert(wish_keys_of(wishlist@).take(w + 1) =~= wish_keys_of(wishlist@).take(w as int).push(k@));
        w = w + 1;
    }
    assert(wish_keys_of(wishlist@).take(wishlist.len() as int) =~= wish_keys_of(wishlist@));
    let qt = text::trim_str(query);
    let qs = text::string_of(&qt);
    let reason = text::concat3("Stream source for \"", qs.as_str(), "\"");
    let mut out = results;
    let ghost start = TopUp { recs: rec_views(out@), seen: text::views(seen@), done: false };
    let ghost dv = downloads::result_views(dls@);
    let mut j: usize = 0;
    assert(dv.skip(0) =~= dv);
    while j < dls.len()
        invariant
            j <= dls.len(),
            dv == downloads::result_views(dls@),
            text::views(wkeys@) == ctx.wish_keys,
            reason@ == "Stream source for \""@ + text::trim(ctx.query) + "\""@,
            ctx.cands == matcher::candidate_views(candidates@),
            ctx.limit == limit,
            start == (TopUp { recs: rec_views(results@), seen: rec_keys(rec_views(results@)), done: false }),
            results@.len() < 5,
            downloads == Some(dls),
            ctx == (TopUpContext {
                cands: matcher::candidate_views(candidates@),
                wish_keys: wish_keys_of(wishlist@),
                query: query@,
                limit: limit as nat,
            }),
            top_up(start, dv, ctx) == top_up(
                TopUp { recs: rec_views(out@), seen: text::views(seen@), done: false },
                dv.skip(j as int),
                ctx,
            ),
        decreases dls.len() - j,
    {
        let ghost cur = TopUp { recs: rec_views(out@), seen: text::views(seen@), done: false };
        assert(dv.skip(j as int)[0] == dls@[j as int]@);
        assert(dv.skip(j as int).skip(1) =~= dv.skip(j + 1));
        let d = &dls[j];
        let at = download_pair_exec(d);
        let key = key_of(at.0.as_str(), at.1.as_str());
        if !contains_key(&seen, &key) {
            let m = FuzzyTrackMatcher::find_best_match(at.1.as_str(), at.0.as_str(), None, false, candidates);
            let in_wishlist = contains_key(&wkeys, &key);
            let rec = DiscoveryRecommendation {
                external_track_id: text::concat2("download:", d.id.as_str()),
                provider: d.provider.clone(),
                provider_id: d.id.clone(),
                title: at.1,
                artist: at.0,
                album: None,
                duration_ms: Some(210000),
                cover_art_url: None,
                preview_url: None,
                genre: Some("Online Audio Stream".to_string()),
                match_status: m.status,
                matched_local_track_id: m.matched_track_id,
                recommendation_reason: reason.clone(),
                in_wishlist,
            };
            let ghost before_recs = out@;
            let ghost before_seen = seen@;
            out.push(rec);
            seen.push(key);
            assert(rec_views(out@) =~= rec_views(before_recs).push(stream_rec(dls@[j as int]@, ctx)));
            assert(text::views(seen@) =~= text::views(before_seen).push(key@));
            if out.len() >= limit {
                proof {
                    let nxt = top_up_step(cur, dv.skip(j as int)[0], ctx);
                    assert(nxt.done);
                    assert(nxt.recs == rec_views(out@));
                    assert(top_up(cur, dv.skip(j as int), ctx) == top_up(nxt, dv.skip(j as int).skip(1), ctx));
                }
                return out;
            }
        }
        j = j + 1;
    }
    out
}

// ---------------------------------------------------------------- cloud replies

/// The address of a cloud endpoint: the server URL without trailing `/`,
/// then the endpoint's path.
pub fn api_url(worker_url: &str, path: &str) -> (r: String)
    ensures
        r@ == strip_suffixes(worker_url@, "/"@) + path@,
{
    let wv = text::chars_of(worker_url);
    let base = strip_suffixes_exec(&wv, "/");
    let bs = text::string_of(&base);
    text::concat2(bs.as_str(), path)
}

/// Why a cloud request failed.
#[derive(Debug)]
pub enum ReplyFailure {
    /// The cloud refused the request (a 4xx status): a validation error.
    Rejected(String),
    /// Anything else: a network error.
    Unavailable(String),
}

/// How a cloud reply is judged: `None` when it reports success; else the
/// failure, rejected for a client-error status, with the reply's error text
/// or `fallback`.
pub open spec fn reply_verdict(success: bool, error: Option<Seq<char>>, status: u16, fallback: Seq<char>) -> Option<(bool, Seq<char>)> {
    if success {
        None
    } else {
        let msg = match error {
            Some(e) => e,
            None => fallback,
        };
        Some((400 <= status && status <= 499, msg))
    }
}

/// Judges a cloud reply.
pub fn judge_reply(success: bool, error: Option<String>, status: u16, fallback: &str) -> (r: Option<ReplyFailure>)
    ensures
        match r {
            None => reply_verdict(success, matcher::opt_view(error), status, fallback@) is None,
            Some(ReplyFailure::Rejected(m)) => reply_verdict(success, matcher::opt_view(error), status, fallback@)
                == Some((true, m@)),
            Some(ReplyFailure::Unavailable(m)) => reply_verdict(success, matcher::opt_view(error), status, fallback@)
                == Some((false, m@)),
        },
{
    if success {
        return None;
    }
    let msg = match error {
        Some(e) => e,
        None => fallback.to_string(),
    };
    if 400 <= status && status <= 499 {
        Some(ReplyFailure::Rejected(msg))
    } else {
        Some(ReplyFailure::Unavailable(msg))
    }
}

} // verus!
