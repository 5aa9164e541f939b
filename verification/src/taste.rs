//! The taste signals that steer discovery: the user's genres ranked by how
//! often they occur (a library track counts once, a top genre of the
//! listening profile ten times), the store genre IDs and regional storefronts
//! they call for, and whether the discovery pool should be refreshed.
use vstd::prelude::*;
use crate::text;
use crate::ranking;
use crate::genre;
use crate::discovery;

verus! {

/// A name lowercased and trimmed.
pub open spec fn clean_name(s: Seq<char>) -> Seq<char> {
    text::trim(text::spec_str_lowercase(s))
}

/// The items of `s` in order, each kept at its first occurrence only.
pub open spec fn distinct(s: Seq<Seq<char>>) -> Seq<Seq<char>>
    decreases s.len(),
{
    if s.len() == 0 {
        seq![]
    } else {
        let p = distinct(s.drop_last());
        if p.contains(s.last()) {
            p
        } else {
            p.push(s.last())
        }
    }
}

pub proof fn lemma_distinct(s: Seq<Seq<char>>)
    ensures
        forall|k: Seq<char>| distinct(s).contains(k) <==> s.contains(k),
        distinct(s).no_duplicates(),
    decreases s.len(),
{
    if s.len() > 0 {
        let init = s.drop_last();
        lemma_distinct(init);
        assert forall|k: Seq<char>| distinct(s).contains(k) <==> s.contains(k) by {
            if s.contains(k) {
                let i = choose|i: int| 0 <= i < s.len() && s[i] == k;
                if i < s.len() - 1 {
                    assert(init[i] == k);
                    assert(init.contains(k));
                }
            }
            if init.contains(k) {
                let i = choose|i: int| 0 <= i < init.len() && init[i] == k;
                assert(s[i] == k);
            }
            if distinct(s) != distinct(init) {
                assert(distinct(s) == distinct(init).push(s.last()));
                if distinct(s).contains(k) && !distinct(init).contains(k) {
                    let i = choose|i: int| 0 <= i < distinct(s).len() && distinct(s)[i] == k;
                    if i < distinct(init).len() {
                        assert(distinct(init)[i] == k);
                    }
                    assert(s[s.len() - 1] == k);
                }
                if distinct(init).contains(k) {
                    let i = choose|i: int| 0 <= i < distinct(init).len() && distinct(init)[i] == k;
                    assert(distinct(s)[i] == k);
                }
                if k == s.last() {
                    assert(distinct(s)[distinct(s).len() - 1] == k);
                }
            }
        }
    }
}

/// The genres of the library tracks, cleaned, each weighing 1 (empty ones left out).
pub open spec fn track_genre_entries(genres: Seq<Option<String>>) -> Seq<(Seq<char>, nat)>
    decreases genres.len(),
{
    if genres.len() == 0 {
        seq![]
    } else {
        let p = track_genre_entries(genres.drop_last());
        match genres.last() {
            Some(g) => if clean_name(g@).len() > 0 {
                p.push((clean_name(g@), 1nat))
            } else {
                p
            },
            None => p,
        }
    }
}

/// The top genres of the listening profile, cleaned, each weighing 10 (empty ones left out).
pub open spec fn top_genre_entries(top: Seq<String>) -> Seq<(Seq<char>, nat)>
    decreases top.len(),
{
    if top.len() == 0 {
        seq![]
    } else {
        let p = top_genre_entries(top.drop_last());
        if clean_name(top.last()@).len() > 0 {
            p.push((clean_name(top.last()@), 10nat))
        } else {
            p
        }
    }
}

/// Every weighted genre occurrence, library tracks first.
pub open spec fn genre_entries(genres: Seq<Option<String>>, top: Seq<String>) -> Seq<(Seq<char>, nat)> {
    track_genre_entries(genres) + top_genre_entries(top)
}

pub open spec fn entry_names(es: Seq<(Seq<char>, nat)>) -> Seq<Seq<char>> {
    es.map_values(|e: (Seq<char>, nat)| e.0)
}

/// The count of genre `k`: the summed weight of its occurrences.
pub open spec fn weight_of(es: Seq<(Seq<char>, nat)>, k: Seq<char>) -> nat
    decreases es.len(),
{
    if es.len() == 0 {
        0
    } else {
        weight_of(es.drop_last(), k) + if es.last().0 == k {
            es.last().1
        } else {
            0
        }
    }
}

pub open spec fn total_weight(es: Seq<(Seq<char>, nat)>) -> nat
    decreases es.len(),
{
    if es.len() == 0 {
        0
    } else {
        total_weight(es.drop_last()) + es.last().1
    }
}

proof fn lemma_weight_bounded(es: Seq<(Seq<char>, nat)>, k: Seq<char>)
    ensures
        weight_of(es, k) <= total_weight(es),
        !entry_names(es).contains(k) ==> weight_of(es, k) == 0,
    decreases es.len(),
{
    if es.len() > 0 {
        let init = es.drop_last();
        lemma_weight_bounded(init, k);
        if !entry_names(es).contains(k) {
            assert(entry_names(es)[es.len() - 1] == es.last().0);
            if entry_names(init).contains(k) {
                let i = choose|i: int| 0 <= i < entry_names(init).len() && entry_names(init)[i] == k;
                assert(entry_names(es)[i] == k);
            }
        }
    }
}

proof fn lemma_total_prefix(es: Seq<(Seq<char>, nat)>, i: int)
    requires
        0 <= i <= es.len(),
    ensures
        total_weight(es.take(i)) <= total_weight(es),
    decreases es.len(),
{
    if i < es.len() {
        assert(es.drop_last().take(i) =~= es.take(i));
        lemma_total_prefix(es.drop_last(), i);
    } else {
        assert(es.take(i) =~= es);
    }
}

proof fn lemma_track_total(genres: Seq<Option<String>>)
    ensures
        total_weight(track_genre_entries(genres)) <= genres.len(),
    decreases genres.len(),
{
    if genres.len() > 0 {
        let p = track_genre_entries(genres.drop_last());
        lemma_track_total(genres.drop_last());
        match genres.last() {
            Some(g) => {
                assert(p.push((clean_name(g@), 1nat)).drop_last() =~= p);
            },
            None => {},
        }
    }
}

proof fn lemma_top_total(top: Seq<String>)
    ensures
        total_weight(top_genre_entries(top)) <= 10 * top.len(),
    decreases top.len(),
{
    if top.len() > 0 {
        let p = top_genre_entries(top.drop_last());
        lemma_top_total(top.drop_last());
        assert(p.push((clean_name(top.last()@), 10nat)).drop_last() =~= p);
    }
}

proof fn lemma_total_concat(a: Seq<(Seq<char>, nat)>, b: Seq<(Seq<char>, nat)>)
    ensures
        total_weight(a + b) == total_weight(a) + total_weight(b),
    decreases b.len(),
{
    if b.len() > 0 {
        assert((a + b).drop_last() =~= a + b.drop_last());
        lemma_total_concat(a, b.drop_last());
    } else {
        assert(a + b =~= a);
    }
}

/// The distinct genres counted, in order of first occurrence.
pub open spec fn counted_genres(genres: Seq<Option<String>>, top: Seq<String>) -> Seq<Seq<char>> {
    distinct(entry_names(genre_entries(genres, top)))
}

/// The ranking keys of the counted genres (count descending).
pub open spec fn count_keys(genres: Seq<Option<String>>, top: Seq<String>) -> Seq<(u8, i128)> {
    let es = genre_entries(genres, top);
    let names = counted_genres(genres, top);
    Seq::new(names.len(), |j: int| (0u8, weight_of(es, names[j]) as i128))
}

pub open spec fn entries_view(v: Seq<(Vec<char>, usize)>) -> Seq<(Seq<char>, nat)> {
    v.map_values(|e: (Vec<char>, usize)| (e.0@, e.1 as nat))
}

fn genre_entries_exec(genres: &Vec<Option<String>>, top: &Vec<String>) -> (r: Vec<(Vec<char>, usize)>)
    ensures
        entries_view(r@) == genre_entries(genres@, top@),
{
    let mut r: Vec<(Vec<char>, usize)> = Vec::new();
    let mut i: usize = 0;
    while i < genres.len()
        invariant
            i <= genres.len(),
            entries_view(r@) == track_genre_entries(genres@.take(i as int)),
        decreases genres.len() - i,
    {
        assert(genres@.take(i + 1).drop_last() =~= genres@.take(i as int));
        let ghost before = r@;
        match &genres[i] {
            Some(g) => {
                let c = discovery::artist_key_exec(g.as_str());
                if c.len() > 0 {
                    r.push((c, 1));
                    assert(entries_view(r@) =~= entries_view(before).push((c@, 1nat)));
                }
            },
            None => {},
        }
        i = i + 1;
    }
    assert(genres@.take(genres.len() as int) =~= genres@);
    let ghost tracks = entries_view(r@);
    let mut j: usize = 0;
    while j < top.len()
        invariant
            j <= top.len(),
            tracks == track_genre_entries(genres@),
            entries_view(r@) == tracks + top_genre_entries(top@.take(j as int)),
        decreases top.len() - j,
    {
        assert(top@.take(j + 1).drop_last() =~= top@.take(j as int));
        let ghost before = r@;
        let c = discovery::artist_key_exec(top[j].as_str());
        if c.len() > 0 {
            r.push((c, 10));
            assert(entries_view(r@) =~= entries_view(before).push((c@, 10nat)));
        }
        j = j + 1;
    }
    assert(top@.take(top.len() as int) =~= top@);
    r
}

fn position_of(keys: &Vec<Vec<char>>, k: &Vec<char>) -> (r: Option<usize>)
    ensures
        match r {
            Some(j) => j < keys.len() && keys@[j as int]@ == k@,
            None => !text::views(keys@).contains(k@),
        },
{
    let mut j: usize = 0;
    while j < keys.len()
        invariant
            j <= keys.len(),
            forall|t: int| 0 <= t < j ==> keys@[t]@ != k@,
        decreases keys.len() - j,
    {
        if text::chars_eq(&keys[j], k) {
            return Some(j);
        }
        j = j + 1;
    }
    proof {
        if text::views(keys@).contains(k@) {
            let t = choose|t: int| 0 <= t < text::views(keys@).len() && text::views(keys@)[t] == k@;
            assert(keys@[t]@ == k@);
        }
    }
    None
}

/// The distinct genres in order of first occurrence, with their counts.
fn tally(es: &Vec<(Vec<char>, usize)>) -> (r: (Vec<Vec<char>>, Vec<usize>))
    requires
        total_weight(entries_view(es@)) <= usize::MAX,
    ensures
        text::views(r.0@) == distinct(entry_names(entries_view(es@))),
        r.1.len() == r.0.len(),
        forall|j: int| 0 <= j < r.1.len() ==> r.1@[j] == weight_of(entries_view(es@), #[trigger] r.0@[j]@),
{
    let ghost all = entries_view(es@);
    let mut keys: Vec<Vec<char>> = Vec::new();
    let mut counts: Vec<usize> = Vec::new();
    let mut i: usize = 0;
    while i < es.len()
        invariant
            i <= es.len(),
            all == entries_view(es@),
            total_weight(all) <= usize::MAX,
            text::views(keys@) == distinct(entry_names(all.take(i as int))),
            counts.len() == keys.len(),
            forall|j: int| 0 <= j < counts.len() ==> counts@[j] == weight_of(all.take(i as int), #[trigger] keys@[j]@),
        decreases es.len() - i,
    {
        let ghost prev = all.take(i as int);
        let ghost next = all.take(i + 1);
        assert(next.drop_last() =~= prev);
        assert(entry_names(next).drop_last() =~= entry_names(prev));
        let k = es[i].0.clone();
        let w = es[i].1;
        assert(k@ == es@[i as int].0@);
        assert(next.last() == (k@, w as nat));
        proof {
            lemma_distinct(entry_names(prev));
            lemma_total_prefix(all, i + 1);
            lemma_weight_bounded(next, k@);
        }
        match position_of(&keys, &k) {
            Some(j0) => {
                assert(text::views(keys@)[j0 as int] == k@);
                let c = counts[j0];
                assert(c + w == weight_of(next, k@));
                counts.set(j0, c + w);
                proof {
                    assert forall|j: int| 0 <= j < counts.len() implies counts@[j] == weight_of(
                        next,
                        #[trigger] keys@[j]@,
                    ) by {
                        if j != j0 {
                            assert(text::views(keys@)[j] != text::views(keys@)[j0 as int]);
                        }
                    }
                    assert(distinct(entry_names(prev)).contains(k@));
                }
            },
            None => {
                proof {
                    lemma_weight_bounded(prev, k@);
                    assert(!entry_names(prev).contains(k@));
                }
                let ghost before = keys@;
                keys.push(k);
                counts.push(w);
                proof {
                    assert(text::views(keys@) =~= text::views(before).push(k@));
                    assert forall|j: int| 0 <= j < counts.len() implies counts@[j] == weight_of(
                        next,
                        #[trigger] keys@[j]@,
                    ) by {
                        if j < counts.len() - 1 {
                            assert(keys@[j] == before[j]);
                            assert(text::views(before)[j] != k@);
                        }
                    }
                }
            },
        }
        i = i + 1;
    }
    assert(all.take(es.len() as int) =~= all);
    (keys, counts)
}

// ---------------------------------------------------------------- signals

/// The library artists: each track's artist cleaned, empty ones left out, in
/// order of first occurrence.
pub open spec fn library_artist_names(artists: Seq<Option<String>>) -> Seq<Seq<char>>
    decreases artists.len(),
{
    if artists.len() == 0 {
        seq![]
    } else {
        let p = library_artist_names(artists.drop_last());
        match artists.last() {
            Some(a) => if clean_name(a@).len() > 0 {
                p.push(clean_name(a@))
            } else {
                p
            },
            None => p,
        }
    }
}

/// The listened artists: the profile's top artists cleaned.
pub open spec fn listened_artist_names(top: Seq<String>) -> Seq<Seq<char>> {
    top.map_values(|a: String| clean_name(a@))
}

/// The first up to three distinct store genre IDs of the ranked genres, in
/// rank order, among the first `n` genres.
pub open spec fn genre_ids_upto(ranked: Seq<Seq<char>>, n: nat) -> Seq<u32>
    decreases n,
{
    if n == 0 || n > ranked.len() {
        seq![]
    } else {
        let p = genre_ids_upto(ranked, (n - 1) as nat);
        if p.len() >= 3 {
            p
        } else {
            match genre::itunes_genre_id(ranked[n - 1]) {
                Some(id) => if p.contains(id) {
                    p
                } else {
                    p.push(id)
                },
                None => p,
            }
        }
    }
}

/// Whether `s` holds a character in the range `lo..=hi`.
pub open spec fn has_char_in(s: Seq<char>, lo: u32, hi: u32) -> bool {
    exists|i: int| 0 <= i < s.len() && lo <= (#[trigger] s[i] as u32) <= hi
}

/// Which region a genre name points to: 0 Japan, 1 Korea, 2 India, 3 Brazil,
/// 4 Latin America, 5 Malayalam music.
pub open spec fn genre_flag(g: Seq<char>, kind: int) -> bool {
    let l = text::spec_str_lowercase(g);
    if kind == 0 {
        text::contains(l, "asian"@) || text::contains(l, "j-pop"@) || text::contains(l, "japanese"@)
            || text::contains(l, "anime"@)
    } else if kind == 1 {
        text::contains(l, "k-pop"@) || text::contains(l, "korean"@)
    } else if kind == 2 {
        text::contains(l, "bollywood"@) || text::contains(l, "indian"@) || text::contains(l, "hindi"@)
            || text::contains(l, "punjabi"@) || text::contains(l, "desi"@)
    } else if kind == 3 {
        text::contains(l, "brazil"@) || text::contains(l, "samba"@) || text::contains(l, "bossa"@)
    } else if kind == 4 {
        text::contains(l, "latin"@) || text::contains(l, "reggaeton"@) || text::contains(l, "spanish"@)
    } else {
        text::contains(l, "malayalam"@)
    }
}

/// Which region a library artist's name points to: 0 Japan, 1 Korea,
/// 2 India, 3 Malayalam music.
pub open spec fn artist_flag(a: Seq<char>, kind: int) -> bool {
    if kind == 0 {
        text::contains(a, "ado"@) || text::contains(a, "yoasobi"@) || text::contains(a, "kajiura"@)
            || text::contains(a, "nemu"@) || has_char_in(a, 0x3040, 0x30ff) || has_char_in(a, 0x4e00, 0x9fff)
    } else if kind == 1 {
        has_char_in(a, 0xac00, 0xd7af)
    } else if kind == 2 {
        has_char_in(a, 0x900, 0x97f)
    } else {
        let al = text::spec_str_lowercase(a);
        text::contains(al, "sushin"@) || text::contains(al, "dabzee"@) || text::contains(al, "shaan rahman"@)
            || text::contains(al, "yesudas"@) || text::contains(al, "hanumankind"@) || text::contains(
            al,
            "ranjin raj"@,
        ) || text::contains(al, "anirudh"@) || text::contains(al, "chithra"@) || text::contains(
            al,
            "malayalam"@,
        ) || has_char_in(a, 0xd00, 0xd7f)
    }
}

/// Whether a library track's title points to Malayalam music.
pub open spec fn malayalam_title(t: Seq<char>) -> bool {
    let tl = text::spec_str_lowercase(t);
    text::contains(tl, "illuminati"@) || text::contains(tl, "malare"@) || text::contains(tl, "poomuthole"@)
        || text::contains(tl, "aalolam"@) || has_char_in(t, 0xd00, 0xd7f)
}

pub open spec fn any_genre(gs: Seq<Seq<char>>, kind: int) -> bool {
    exists|i: int| 0 <= i < gs.len() && #[trigger] genre_flag(gs[i], kind)
}

pub open spec fn any_artist(artists: Seq<Seq<char>>, kind: int) -> bool {
    exists|i: int| 0 <= i < artists.len() && #[trigger] artist_flag(artists[i], kind)
}

pub open spec fn any_malayalam_title(titles: Seq<String>) -> bool {
    exists|i: int| 0 <= i < titles.len() && #[trigger] malayalam_title(titles[i]@)
}

/// Whether the library or the listening taste holds Malayalam music.
pub open spec fn malayalam_taste(ranked: Seq<Seq<char>>, lib: Seq<Seq<char>>, titles: Seq<String>) -> bool {
    any_artist(lib, 3) || any_malayalam_title(titles) || any_genre(ranked, 5)
}

/// The storefronts to take charts from: "us" always, then "jp", "kr", "in"
/// and "br" where the taste points to Japan, Korea, India (or Malayalam
/// music) and Brazil (or Latin America).
pub open spec fn storefronts_for(ranked: Seq<Seq<char>>, lib: Seq<Seq<char>>, titles: Seq<String>) -> Seq<Seq<char>> {
    let jp = any_genre(ranked, 0) || any_artist(lib, 0);
    let kr = any_genre(ranked, 1) || any_artist(lib, 1);
    let ind = any_genre(ranked, 2) || any_artist(lib, 2) || malayalam_taste(ranked, lib, titles);
    let br = any_genre(ranked, 3) || any_genre(ranked, 4);
    seq!["us"@] + (if jp {
        seq!["jp"@]
    } else {
        seq![]
    }) + (if kr {
        seq!["kr"@]
    } else {
        seq![]
    }) + (if ind {
        seq!["in"@]
    } else {
        seq![]
    }) + (if br {
        seq!["br"@]
    } else {
        seq![]
    })
}

/// The regional search queries: "malayalam" and "malayalam hits" for a
/// Malayalam taste, else none.
pub open spec fn regional_queries_for(malayalam: bool) -> Seq<Seq<char>> {
    if malayalam {
        seq!["malayalam"@, "malayalam hits"@]
    } else {
        seq![]
    }
}

/// What the library and the listening profile say of the user's taste.
#[derive(Clone, Debug)]
pub struct TasteSignals {
    /// The counted genres (lowercase, trimmed), most counted first.
    pub ranked_genres: Vec<String>,
    /// The library artists (lowercase, trimmed), in order of first occurrence.
    pub library_artists: Vec<String>,
    /// The profile's top artists (lowercase, trimmed), in order of first occurrence.
    pub listened_artists: Vec<String>,
    /// Up to three store genre IDs for the charts.
    pub genre_ids: Vec<u32>,
    /// The storefronts to take charts from.
    pub storefronts: Vec<String>,
    /// Extra regional search queries.
    pub regional_queries: Vec<String>,
    pub has_malayalam: bool,
}

fn string_vec_contains(v: &Vec<Vec<char>>, k: &Vec<char>) -> (b: bool)
    ensures
        b == text::views(v@).contains(k@),
{
    match position_of(v, k) {
        Some(j) => {
            assert(text::views(v@)[j as int] == k@);
            true
        },
        None => false,
    }
}

fn library_artists_exec(artists: &Vec<Option<String>>) -> (r: Vec<Vec<char>>)
    ensures
        text::views(r@) == distinct(library_artist_names(artists@)),
{
    let mut r: Vec<Vec<char>> = Vec::new();
    let mut i: usize = 0;
    while i < artists.len()
        invariant
            i <= artists.len(),
            text::views(r@) == distinct(library_artist_names(artists@.take(i as int))),
        decreases artists.len() - i,
    {
        let ghost prev = artists@.take(i as int);
        assert(artists@.take(i + 1).drop_last() =~= prev);
        let ghost before = r@;
        match &artists[i] {
            Some(a) => {
                let c = discovery::artist_key_exec(a.as_str());
                if c.len() > 0 {
                    let ghost names = library_artist_names(prev).push(c@);
                    assert(names.drop_last() =~= library_artist_names(prev));
                    if !string_vec_contains(&r, &c) {
                        r.push(c);
                        assert(text::views(r@) =~= text::views(before).push(names.last()));
                    }
                }
            },
            None => {},
        }
        i = i + 1;
    }
    assert(artists@.take(artists.len() as int) =~= artists@);
    r
}

fn listened_artists_exec(top: &Vec<String>) -> (r: Vec<Vec<char>>)
    ensures
        text::views(r@) == distinct(listened_artist_names(top@)),
{
    let mut r: Vec<Vec<char>> = Vec::new();
    let mut i: usize = 0;
    while i < top.len()
        invariant
            i <= top.len(),
            text::views(r@) == distinct(listened_artist_names(top@.take(i as int))),
        decreases top.len() - i,
    {
        let ghost prev = top@.take(i as int);
        assert(listened_artist_names(top@.take(i + 1)).drop_last() =~= listened_artist_names(prev));
        let ghost before = r@;
        let c = discovery::artist_key_exec(top[i].as_str());
        assert(listened_artist_names(top@.take(i + 1)).last() == c@);
        if !string_vec_contains(&r, &c) {
            r.push(c);
            assert(text::views(r@) =~= text::views(before).push(c@));
        }
        i = i + 1;
    }
    assert(top@.take(top.len() as int) =~= top@);
    r
}

fn has_char_in_exec(s: &Vec<char>, lo: u32, hi: u32) -> (b: bool)
    ensures
        b == has_char_in(s@, lo, hi),
{
    let mut i: usize = 0;
    while i < s.len()
        invariant
            i <= s.len(),
            forall|k: int| 0 <= k < i ==> !(lo <= (#[trigger] s@[k] as u32) <= hi),
        decreases s.len() - i,
    {
        let n = s[i] as u32;
        if lo <= n && n <= hi {
            assert(lo <= (s@[i as int] as u32) <= hi);
            return true;
        }
        i = i + 1;
    }
    false
}

fn has(h: &Vec<char>, kw: &str) -> (b: bool)
    ensures
        b == text::contains(h@, kw@),
{
    text::contains_str(h, kw)
}

fn genre_flags_exec(g: &str) -> (r: (bool, bool, bool, bool, bool, bool))
    ensures
        r.0 == genre_flag(g@, 0),
        r.1 == genre_flag(g@, 1),
        r.2 == genre_flag(g@, 2),
        r.3 == genre_flag(g@, 3),
        r.4 == genre_flag(g@, 4),
        r.5 == genre_flag(g@, 5),
{
    let l = text::lower_chars(g);
    (
        has(&l, "asian") || has(&l, "j-pop") || has(&l, "japanese") || has(&l, "anime"),
        has(&l, "k-pop") || has(&l, "korean"),
        has(&l, "bollywood") || has(&l, "indian") || has(&l, "hindi") || has(&l, "punjabi") || has(
            &l,
            "desi",
        ),
        has(&l, "brazil") || has(&l, "samba") || has(&l, "bossa"),
        has(&l, "latin") || has(&l, "reggaeton") || has(&l, "spanish"),
        has(&l, "malayalam"),
    )
}

fn artist_flags_exec(a: &Vec<char>) -> (r: (bool, bool, bool, bool))
    ensures
        r.0 == artist_flag(a@, 0),
        r.1 == artist_flag(a@, 1),
        r.2 == artist_flag(a@, 2),
        r.3 == artist_flag(a@, 3),
{
    let jp = has(a, "ado") || has(a, "yoasobi") || has(a, "kajiura") || has(a, "nemu") || has_char_in_exec(
        a,
        0x3040,
        0x30ff,
    ) || has_char_in_exec(a, 0x4e00, 0x9fff);
    let kr = has_char_in_exec(a, 0xac00, 0xd7af);
    let ind = has_char_in_exec(a, 0x900, 0x97f);
    let s = text::string_of(a);
    let al = text::lower_chars(s.as_str());
    let ml = has(&al, "sushin") || has(&al, "dabzee") || has(&al, "shaan rahman") || has(&al, "yesudas")
        || has(&al, "hanumankind") || has(&al, "ranjin raj") || has(&al, "anirudh") || has(&al, "chithra")
        || has(&al, "malayalam") || has_char_in_exec(a, 0xd00, 0xd7f);
    (jp, kr, ind, ml)
}

fn malayalam_title_exec(t: &str) -> (b: bool)
    ensures
        b == malayalam_title(t@),
{
    let tl = text::lower_chars(t);
    let tv = text::chars_of(t);
    has(&tl, "illuminati") || has(&tl, "malare") || has(&tl, "poomuthole") || has(&tl, "aalolam")
        || has_char_in_exec(&tv, 0xd00, 0xd7f)
}

/// The genre flags of the ranked genres, kind by kind.
fn genre_flags_of(gs: &Vec<String>) -> (r: (bool, bool, bool, bool, bool, bool))
    ensures
        r.0 == any_genre(discovery::string_views(gs@), 0),
        r.1 == any_genre(discovery::string_views(gs@), 1),
        r.2 == any_genre(discovery::string_views(gs@), 2),
        r.3 == any_genre(discovery::string_views(gs@), 3),
        r.4 == any_genre(discovery::string_views(gs@), 4),
        r.5 == any_genre(discovery::string_views(gs@), 5),
{
    let ghost v = discovery::string_views(gs@);
    let mut f0 = false;
    let mut f1 = false;
    let mut f2 = false;
    let mut f3 = false;
    let mut f4 = false;
    let mut f5 = false;
    let mut i: usize = 0;
    while i < gs.len()
        invariant
            i <= gs.len(),
            v == discovery::string_views(gs@),
            f0 == exists|k: int| 0 <= k < i && #[trigger] genre_flag(v[k], 0),
            f1 == exists|k: int| 0 <= k < i && #[trigger] genre_flag(v[k], 1),
            f2 == exists|k: int| 0 <= k < i && #[trigger] genre_flag(v[k], 2),
            f3 == exists|k: int| 0 <= k < i && #[trigger] genre_flag(v[k], 3),
            f4 == exists|k: int| 0 <= k < i && #[trigger] genre_flag(v[k], 4),
            f5 == exists|k: int| 0 <= k < i && #[trigger] genre_flag(v[k], 5),
        decreases gs.len() - i,
    {
        let fl = genre_flags_exec(gs[i].as_str());
        assert(v[i as int] == gs@[i as int]@);
        f0 = f0 || fl.0;
        f1 = f1 || fl.1;
        f2 = f2 || fl.2;
        f3 = f3 || fl.3;
        f4 = f4 || fl.4;
        f5 = f5 || fl.5;
        i = i + 1;
    }
    (f0, f1, f2, f3, f4, f5)
}

fn artist_flags_of(lib: &Vec<Vec<char>>) -> (r: (bool, bool, bool, bool))
    ensures
        r.0 == any_artist(text::views(lib@), 0),
        r.1 == any_artist(text::views(lib@), 1),
        r.2 == any_artist(text::views(lib@), 2),
        r.3 == any_artist(text::views(lib@), 3),
{
    let ghost v = text::views(lib@);
    let mut f0 = false;
    let mut f1 = false;
    let mut f2 = false;
    let mut f3 = false;
    let mut i: usize = 0;
    while i < lib.len()
        invariant
            i <= lib.len(),
            v == text::views(lib@),
            f0 == exists|k: int| 0 <= k < i && #[trigger] artist_flag(v[k], 0),
            f1 == exists|k: int| 0 <= k < i && #[trigger] artist_flag(v[k], 1),
            f2 == exists|k: int| 0 <= k < i && #[trigger] artist_flag(v[k], 2),
            f3 == exists|k: int| 0 <= k < i && #[trigger] artist_flag(v[k], 3),
        decreases lib.len() - i,
    {
        let fl = artist_flags_exec(&lib[i]);
        assert(v[i as int] == lib@[i as int]@);
        f0 = f0 || fl.0;
        f1 = f1 || fl.1;
        f2 = f2 || fl.2;
        f3 = f3 || fl.3;
        i = i + 1;
    }
    (f0, f1, f2, f3)
}

fn any_malayalam_title_exec(titles: &Vec<String>) -> (b: bool)
    ensures
        b == any_malayalam_title(titles@),
{
    let mut i: usize = 0;
    while i < titles.len()
        invariant
            i <= titles.len(),
            forall|k: int| 0 <= k < i ==> !#[trigger] malayalam_title(titles@[k]@),
        decreases titles.len() - i,
    {
        if malayalam_title_exec(titles[i].as_str()) {
            return true;
        }
        i = i + 1;
    }
    false
}

fn genre_ids_exec(ranked: &Vec<String>) -> (r: Vec<u32>)
    ensures
        r@ == genre_ids_upto(discovery::string_views(ranked@), ranked@.len()),
{
    let ghost v = discovery::string_views(ranked@);
    let mut r: Vec<u32> = Vec::new();
    let mut i: usize = 0;
    while i < ranked.len()
        invariant
            i <= ranked.len(),
            v == discovery::string_views(ranked@),
            r@ == genre_ids_upto(v, i as nat),
        decreases ranked.len() - i,
    {
        assert(v[i as int] == ranked@[i as int]@);
        if r.len() < 3 {
            match genre::map_genre_to_itunes_genre_id(ranked[i].as_str()) {
                Some(id) => {
                    let mut seen = false;
                    let mut j: usize = 0;
                    while j < r.len()
                        invariant
                            j <= r.len(),
                            seen == exists|t: int| 0 <= t < j && r@[t] == id,
                        decreases r.len() - j,
                    {
                        if r[j] == id {
                            seen = true;
                        }
                        j = j + 1;
                    }
                    if !seen {
                        r.push(id);
                    } else {
                        proof {
                            let t = choose|t: int| 0 <= t < r@.len() && r@[t] == id;
                            assert(r@.contains(id));
                        }
                    }
                },
                None => {},
            }
        }
        i = i + 1;
    }
    r
}

fn strings_of(v: &Vec<Vec<char>>) -> (r: Vec<String>)
    ensures
        discovery::string_views(r@) == text::views(v@),
{
    let mut r: Vec<String> = Vec::new();
    let mut i: usize = 0;
    while i < v.len()
        invariant
            i <= v.len(),
            discovery::string_views(r@) == text::views(v@.take(i as int)),
        decreases v.len() - i,
    {
        let ghost before = r@;
        let st = text::string_of(&v[i]);
        r.push(st);
        assert(discovery::string_views(r@) =~= discovery::string_views(before).push(v@[i as int]@));
        assert(text::views(v@.take(i + 1)) =~= text::views(v@.take(i as int)).push(v@[i as int]@));
        i = i + 1;
    }
    assert(v@.take(v.len() as int) =~= v@);
    r
}

/// Reads the user's taste from the library tracks (their genres, artists and
/// titles, one entry per track) and the listening profile (its top artists
/// and top genres). Genres are counted (1 per library track, 10 per top
/// genre) and ranked by count, most counted first (equal counts in order of
/// first occurrence); the first three distinct store genre IDs among them
/// are taken for the charts; the storefronts and regional queries follow
/// from the genres, the library artists and the titles.
pub fn taste_signals(
    genres: &Vec<Option<String>>,
    artists: &Vec<Option<String>>,
    titles: &Vec<String>,
    top_artists: &Vec<String>,
    top_genres: &Vec<String>,
) -> (r: TasteSignals)
    requires
        genres@.len() + 10 * top_genres@.len() <= usize::MAX,
    ensures
        ({
            let counted = counted_genres(genres@, top_genres@);
            let ranked = discovery::string_views(r.ranked_genres@);
            let lib = discovery::string_views(r.library_artists@);
            &&& exists|order: Seq<usize>|
                {
                    &&& ranking::is_permutation_of_positions(order, counted.len())
                    &&& ranking::is_ranked(count_keys(genres@, top_genres@), order)
                    &&& ranked.len() == counted.len()
                    &&& forall|k: int| 0 <= k < ranked.len() ==> #[trigger] ranked[k] == counted[order[k] as int]
                }
            &&& lib == distinct(library_artist_names(artists@))
            &&& discovery::string_views(r.listened_artists@) == distinct(listened_artist_names(top_artists@))
            &&& r.genre_ids@ == genre_ids_upto(ranked, ranked.len())
            &&& r.has_malayalam == malayalam_taste(ranked, lib, titles@)
            &&& discovery::string_views(r.storefronts@) == storefronts_for(ranked, lib, titles@)
            &&& discovery::string_views(r.regional_queries@) == regional_queries_for(r.has_malayalam)
        }),
{
    let es = genre_entries_exec(genres, top_genres);
    proof {
        lemma_track_total(genres@);
        lemma_top_total(top_genres@);
        lemma_total_concat(track_genre_entries(genres@), top_genre_entries(top_genres@));
    }
    let (keys, counts) = tally(&es);
    let ghost es_v = entries_view(es@);
    let mut rank_keys: Vec<(u8, i128)> = Vec::new();
    let mut j: usize = 0;
    while j < counts.len()
        invariant
            j <= counts.len(),
            rank_keys.len() == j,
            forall|t: int| 0 <= t < j ==> #[trigger] rank_keys@[t] == (0u8, counts@[t] as i128),
        decreases counts.len() - j,
    {
        rank_keys.push((0u8, counts[j] as i128));
        j = j + 1;
    }
    let order = ranking::rank_positions(&rank_keys);
    let ghost counted = counted_genres(genres@, top_genres@);
    assert(rank_keys@ =~= count_keys(genres@, top_genres@)) by {
        assert(text::views(keys@) == counted);
        assert forall|t: int| 0 <= t < rank_keys.len() implies #[trigger] rank_keys@[t] == count_keys(
            genres@,
            top_genres@,
        )[t] by {
            assert(text::views(keys@)[t] == keys@[t]@);
        }
    }
    let mut ranked: Vec<String> = Vec::new();
    let mut k: usize = 0;
    while k < order.len()
        invariant
            k <= order.len(),
            order.len() == keys.len(),
            ranking::is_permutation_of_positions(order@, keys@.len() as nat),
            ranked.len() == k,
            forall|t: int| 0 <= t < k ==> (#[trigger] ranked@[t])@ == keys@[order@[t] as int]@,
        decreases order.len() - k,
    {
        let o = order[k];
        ranked.push(text::string_of(&keys[o]));
        k = k + 1;
    }
    proof {
        assert forall|t: int| 0 <= t < ranked.len() implies #[trigger] discovery::string_views(ranked@)[t]
            == counted[order@[t] as int] by {
            assert(text::views(keys@)[order@[t] as int] == keys@[order@[t] as int]@);
        }
    }
    let lib = library_artists_exec(artists);
    let listened = listened_artists_exec(top_artists);
    let genre_ids = genre_ids_exec(&ranked);
    let gf = genre_flags_of(&ranked);
    let af = artist_flags_of(&lib);
    let mt = any_malayalam_title_exec(titles);
    let has_malayalam = af.3 || mt || gf.5;
    let mut storefronts: Vec<String> = Vec::new();
    storefronts.push("us".to_string());
    if gf.0 || af.0 {
        storefronts.push("jp".to_string());
    }
    if gf.1 || af.1 {
        storefronts.push("kr".to_string());
    }
    if gf.2 || af.2 || has_malayalam {
        storefronts.push("in".to_string());
    }
    if gf.3 || gf.4 {
        storefronts.push("br".to_string());
    }
    let mut regional_queries: Vec<String> = Vec::new();
    if has_malayalam {
        regional_queries.push("malayalam".to_string());
        regional_queries.push("malayalam hits".to_string());
    }
    let library_artists = strings_of(&lib);
    let listened_artists = strings_of(&listened);
    proof {
        let rv = discovery::string_views(ranked@);
        let lv = discovery::string_views(library_artists@);
        assert(discovery::string_views(storefronts@) =~= storefronts_for(rv, lv, titles@));
        assert(discovery::string_views(regional_queries@) =~= regional_queries_for(has_malayalam));
    }
    TasteSignals {
        ranked_genres: ranked,
        library_artists,
        listened_artists,
        genre_ids,
        storefronts,
        regional_queries,
        has_malayalam,
    }
}

/// Whether the discovery pool is refreshed before ranking: only with a
/// provider, and then when asked to, or when the pool has fewer than ten
/// distinct artists, fewer tracks than asked for, or no track with a preview.
pub open spec fn refresh_needed(
    has_provider: bool,
    force: bool,
    distinct_artists: nat,
    pool_len: nat,
    limit: nat,
    has_previews: bool,
) -> bool {
    has_provider && (force || distinct_artists < 10 || pool_len < limit || !has_previews)
}

/// Whether the discovery pool is refreshed before ranking.
pub fn needs_refresh(
    has_provider: bool,
    force: bool,
    distinct_artists: usize,
    pool_len: usize,
    limit: usize,
    has_previews: bool,
) -> (b: bool)
    ensures
        b == refresh_needed(
            has_provider,
            force,
            distinct_artists as nat,
            pool_len as nat,
            limit as nat,
            has_previews,
        ),
{
    has_provider && (force || distinct_artists < 10 || pool_len < limit || !has_previews)
}

} // verus!
