//! Two-way cloud synchronisation: what of the cloud's state is applied
//! locally (never what the user deleted here), and what local state is
//! pushed (memberships, the songs they reference, and the deletions).
//!
//! Deletions are remembered as tombstones: a deleted playlist by its id, a
//! removed membership by "playlist_id:song_id".
use vstd::prelude::*;
use crate::text;
use crate::cloud::{CloudPlaylist, CloudPlaylistSong, CloudPlaylistSongRef};

verus! {

/// A remembered local deletion.
#[derive(Debug)]
pub struct Tombstone {
    pub entity_type: String,
    pub entity_id: String,
}

/// The ids of the tombstones of type `kind`, in order.
pub open spec fn tombstoned(ts: Seq<Tombstone>, kind: Seq<char>) -> Seq<Seq<char>>
    decreases ts.len(),
{
    if ts.len() == 0 {
        Seq::empty()
    } else {
        let rest = tombstoned(ts.drop_last(), kind);
        if ts.last().entity_type@ == kind {
            rest.push(ts.last().entity_id@)
        } else {
            rest
        }
    }
}

/// The membership key of a playlist and a song.
pub open spec fn membership_key(playlist_id: Seq<char>, song_id: Seq<char>) -> Seq<char> {
    playlist_id + ":"@ + song_id
}

/// Whether a remote playlist is applied: the user has not deleted it here.
pub open spec fn playlist_applies(p: CloudPlaylist, ts: Seq<Tombstone>) -> bool {
    !tombstoned(ts, "playlist"@).contains(p.id@)
}

/// Whether a remote membership is applied: neither its playlist nor the
/// membership itself was deleted here.
pub open spec fn membership_applies(m: CloudPlaylistSong, ts: Seq<Tombstone>) -> bool {
    !tombstoned(ts, "playlist"@).contains(m.playlist_id@) && !tombstoned(ts, "playlist_song"@).contains(
        membership_key(m.playlist_id@, m.song_id@),
    )
}

/// The positions, among the first `n`, of the remote playlists applied.
pub open spec fn applied_playlists(remote: Seq<CloudPlaylist>, ts: Seq<Tombstone>, n: nat) -> Seq<usize>
    decreases n,
{
    if n == 0 || n > remote.len() {
        Seq::empty()
    } else {
        let rest = applied_playlists(remote, ts, (n - 1) as nat);
        if playlist_applies(remote[n - 1], ts) {
            rest.push((n - 1) as usize)
        } else {
            rest
        }
    }
}

/// The positions, among the first `n`, of the remote memberships applied.
pub open spec fn applied_memberships(remote: Seq<CloudPlaylistSong>, ts: Seq<Tombstone>, n: nat) -> Seq<usize>
    decreases n,
{
    if n == 0 || n > remote.len() {
        Seq::empty()
    } else {
        let rest = applied_memberships(remote, ts, (n - 1) as nat);
        if membership_applies(remote[n - 1], ts) {
            rest.push((n - 1) as usize)
        } else {
            rest
        }
    }
}

fn contains_str(v: &Vec<String>, s: &str) -> (b: bool)
    ensures
        b == v@.map_values(|x: String| x@).contains(s@),
{
    let ghost vv = v@.map_values(|x: String| x@);
    let mut i: usize = 0;
    while i < v.len()
        invariant
            i <= v.len(),
            vv == v@.map_values(|x: String| x@),
            forall|k: int| 0 <= k < i ==> vv[k] != s@,
        decreases v.len() - i,
    {
        if text::str_eq(v[i].as_str(), s) {
            assert(vv[i as int] == s@);
            return true;
        }
        i = i + 1;
    }
    false
}

/// The ids of the tombstones of type `kind`.
pub fn tombstoned_ids(ts: &Vec<Tombstone>, kind: &str) -> (r: Vec<String>)
    ensures
        r@.map_values(|x: String| x@) == tombstoned(ts@, kind@),
{
    let mut out: Vec<String> = Vec::new();
    let mut i: usize = 0;
    while i < ts.len()
        invariant
            i <= ts.len(),
            out@.map_values(|x: String| x@) == tombstoned(ts@.take(i as int), kind@),
        decreases ts.len() - i,
    {
        assert(ts@.take(i + 1).drop_last() =~= ts@.take(i as int));
        assert(ts@.take(i + 1).last() == ts@[i as int]);
        if text::str_eq(ts[i].entity_type.as_str(), kind) {
            let ghost before = out@;
            out.push(ts[i].entity_id.clone());
            assert(out@.map_values(|x: String| x@) =~= before.map_values(|x: String| x@).push(ts@[i as int].entity_id@));
        }
        i = i + 1;
    }
    assert(ts@.take(ts.len() as int) =~= ts@);
    out
}

/// The positions of the remote playlists to apply locally.
pub fn playlists_to_apply(remote: &Vec<CloudPlaylist>, ts: &Vec<Tombstone>) -> (r: Vec<usize>)
    ensures
        r@ == applied_playlists(remote@, ts@, remote@.len()),
{
    let deleted = tombstoned_ids(ts, "playlist");
    let mut out: Vec<usize> = Vec::new();
    let mut i: usize = 0;
    while i < remote.len()
        invariant
            i <= remote.len(),
            deleted@.map_values(|x: String| x@) == tombstoned(ts@, "playlist"@),
            out@ == applied_playlists(remote@, ts@, i as nat),
        decreases remote.len() - i,
    {
        if !contains_str(&deleted, remote[i].id.as_str()) {
            out.push(i);
        }
        i = i + 1;
    }
    out
}

/// The positions of the remote memberships to apply locally.
pub fn memberships_to_apply(remote: &Vec<CloudPlaylistSong>, ts: &Vec<Tombstone>) -> (r: Vec<usize>)
    ensures
        r@ == applied_memberships(remote@, ts@, remote@.len()),
{
    let deleted = tombstoned_ids(ts, "playlist");
    let removed = tombstoned_ids(ts, "playlist_song");
    let mut out: Vec<usize> = Vec::new();
    let mut i: usize = 0;
    while i < remote.len()
        invariant
            i <= remote.len(),
            deleted@.map_values(|x: String| x@) == tombstoned(ts@, "playlist"@),
            removed@.map_values(|x: String| x@) == tombstoned(ts@, "playlist_song"@),
            out@ == applied_memberships(remote@, ts@, i as nat),
        decreases remote.len() - i,
    {
        let m = &remote[i];
        let key = text::concat3(m.playlist_id.as_str(), ":", m.song_id.as_str());
        if !contains_str(&deleted, m.playlist_id.as_str()) && !contains_str(&removed, key.as_str()) {
            out.push(i);
        }
        i = i + 1;
    }
    out
}

proof fn lemma_applied_playlists(remote: Seq<CloudPlaylist>, ts: Seq<Tombstone>, n: nat)
    requires
        n <= remote.len(),
        remote.len() <= usize::MAX,
    ensures
        forall|k: int|
            0 <= k < applied_playlists(remote, ts, n).len() ==> {
                let pos = #[trigger] applied_playlists(remote, ts, n)[k];
                pos < n && playlist_applies(remote[pos as int], ts)
            },
        forall|j: int|
            0 <= j < n && playlist_applies(#[trigger] remote[j], ts) ==> applied_playlists(remote, ts, n).contains(
                j as usize,
            ),
    decreases n,
{
    if n > 0 {
        lemma_applied_playlists(remote, ts, (n - 1) as nat);
        let rest = applied_playlists(remote, ts, (n - 1) as nat);
        let cur = applied_playlists(remote, ts, n);
        assert forall|k: int| 0 <= k < cur.len() implies (#[trigger] cur[k]) < n && playlist_applies(
            remote[cur[k] as int],
            ts,
        ) by {
            if k < rest.len() {
                assert(cur[k] == rest[k]);
            }
        }
        assert forall|j: int| 0 <= j < n && playlist_applies(#[trigger] remote[j], ts) implies cur.contains(
            j as usize,
        ) by {
            if j < n - 1 {
                let w = choose|w: int| 0 <= w < rest.len() && rest[w] == j as usize;
                assert(cur[w] == j as usize);
            } else {
                assert(cur[cur.len() - 1] == j as usize);
            }
        }
    }
}

proof fn lemma_applied_memberships(remote: Seq<CloudPlaylistSong>, ts: Seq<Tombstone>, n: nat)
    requires
        n <= remote.len(),
        remote.len() <= usize::MAX,
    ensures
        forall|k: int|
            0 <= k < applied_memberships(remote, ts, n).len() ==> {
                let pos = #[trigger] applied_memberships(remote, ts, n)[k];
                pos < n && membership_applies(remote[pos as int], ts)
            },
        forall|j: int|
            0 <= j < n && membership_applies(#[trigger] remote[j], ts) ==> applied_memberships(remote, ts, n).contains(
                j as usize,
            ),
    decreases n,
{
    if n > 0 {
        lemma_applied_memberships(remote, ts, (n - 1) as nat);
        let rest = applied_memberships(remote, ts, (n - 1) as nat);
        let cur = applied_memberships(remote, ts, n);
        assert forall|k: int| 0 <= k < cur.len() implies (#[trigger] cur[k]) < n && membership_applies(
            remote[cur[k] as int],
            ts,
        ) by {
            if k < rest.len() {
                assert(cur[k] == rest[k]);
            }
        }
        assert forall|j: int| 0 <= j < n && membership_applies(#[trigger] remote[j], ts) implies cur.contains(
            j as usize,
        ) by {
            if j < n - 1 {
                let w = choose|w: int| 0 <= w < rest.len() && rest[w] == j as usize;
                assert(cur[w] == j as usize);
            } else {
                assert(cur[cur.len() - 1] == j as usize);
            }
        }
    }
}

/// A playlist the user deleted here is never applied from the cloud, and
/// every other remote playlist is.
pub proof fn law_deleted_playlists_stay_deleted(remote: Seq<CloudPlaylist>, ts: Seq<Tombstone>)
    requires
        remote.len() <= usize::MAX,
    ensures
        forall|k: int|
            0 <= k < applied_playlists(remote, ts, remote.len()).len() ==> !tombstoned(ts, "playlist"@).contains(
                remote[(#[trigger] applied_playlists(remote, ts, remote.len())[k]) as int].id@,
            ),
        forall|j: int|
            0 <= j < remote.len() && !tombstoned(ts, "playlist"@).contains((#[trigger] remote[j]).id@)
                ==> applied_playlists(remote, ts, remote.len()).contains(j as usize),
{
    lemma_applied_playlists(remote, ts, remote.len());
}

/// A membership the user removed here, or one of a playlist deleted here, is
/// never applied from the cloud, and every other remote membership is.
pub proof fn law_removed_memberships_stay_removed(remote: Seq<CloudPlaylistSong>, ts: Seq<Tombstone>)
    requires
        remote.len() <= usize::MAX,
    ensures
        forall|k: int|
            0 <= k < applied_memberships(remote, ts, remote.len()).len() ==> {
                let m = remote[(#[trigger] applied_memberships(remote, ts, remote.len())[k]) as int];
                !tombstoned(ts, "playlist"@).contains(m.playlist_id@) && !tombstoned(ts, "playlist_song"@).contains(
                    membership_key(m.playlist_id@, m.song_id@),
                )
            },
        forall|j: int|
            0 <= j < remote.len() && membership_applies(#[trigger] remote[j], ts) ==> applied_memberships(
                remote,
                ts,
                remote.len(),
            ).contains(j as usize),
{
    lemma_applied_memberships(remote, ts, remote.len());
}

// ---------------------------------------------------------------- pushing

/// The memberships pushed for local playlist rows (playlist, song, position,
/// added at) of `user_id`.
pub open spec fn pushed_membership(user_id: Seq<char>, row: (String, String, i64, i64), m: CloudPlaylistSong) -> bool {
    &&& m.id@ == membership_key(row.0@, row.1@)
    &&& m.user_id@ == user_id
    &&& m.playlist_id@ == row.0@
    &&& m.song_id@ == row.1@
    &&& m.position == row.2
    &&& m.added_at == row.3
}

/// The memberships to push, one per local row, in row order.
pub fn local_memberships(user_id: &str, rows: &Vec<(String, String, i64, i64)>) -> (r: Vec<CloudPlaylistSong>)
    ensures
        r.len() == rows.len(),
        forall|i: int| 0 <= i < rows.len() ==> pushed_membership(user_id@, #[trigger] rows@[i], r@[i]),
{
    let mut out: Vec<CloudPlaylistSong> = Vec::new();
    let mut i: usize = 0;
    while i < rows.len()
        invariant
            i <= rows.len(),
            out.len() == i,
            forall|k: int| 0 <= k < i ==> pushed_membership(user_id@, #[trigger] rows@[k], out@[k]),
        decreases rows.len() - i,
    {
        let row = &rows[i];
        out.push(
            CloudPlaylistSong {
                id: text::concat3(row.0.as_str(), ":", row.1.as_str()),
                user_id: user_id.to_string(),
                playlist_id: row.0.clone(),
                song_id: row.1.clone(),
                position: row.2,
                added_at: row.3,
            },
        );
        i = i + 1;
    }
    out
}

/// The views of a sequence of strings.
pub open spec fn strs(v: Seq<String>) -> Seq<Seq<char>> {
    v.map_values(|x: String| x@)
}

proof fn lemma_push_contains(s: Seq<Seq<char>>, x: Seq<char>, t: Seq<char>)
    ensures
        s.push(x).contains(t) <==> (s.contains(t) || t == x),
{
    if s.push(x).contains(t) {
        let w = choose|w: int| 0 <= w < s.push(x).len() && s.push(x)[w] == t;
        if w < s.len() {
            assert(s[w] == t);
        }
    }
    if s.contains(t) {
        let w = choose|w: int| 0 <= w < s.len() && s[w] == t;
        assert(s.push(x)[w] == t);
    }
    if t == x {
        assert(s.push(x)[s.len() as int] == t);
    }
}

/// Whether the strings of `v` are pairwise distinct.
pub open spec fn distinct_strs(v: Seq<String>) -> bool {
    forall|i: int, j: int| 0 <= i < j < v.len() ==> v[i]@ != v[j]@
}

fn push_unique(out: &mut Vec<String>, s: &String)
    requires
        distinct_strs(old(out)@),
    ensures
        distinct_strs(final(out)@),
        forall|t: Seq<char>| #[trigger] strs(final(out)@).contains(t) <==> (strs(old(out)@).contains(t) || t == s@),
{
    if !contains_str(out, s.as_str()) {
        let ghost before = out@;
        out.push(s.clone());
        proof {
            assert(strs(out@) =~= strs(before).push(s@));
            assert forall|t: Seq<char>| #[trigger] strs(out@).contains(t) <==> (strs(before).contains(t) || t == s@) by {
                lemma_push_contains(strs(before), s@, t);
            }
            assert forall|x: int| 0 <= x < before.len() implies before[x]@ != s@ by {
                assert(strs(before)[x] == before[x]@);
            }
        }
    } else {
        assert forall|t: Seq<char>| #[trigger] strs(out@).contains(t) <==> (strs(out@).contains(t) || t == s@) by {
        }
    }
}

/// The songs a push describes: those of the local memberships and those the
/// user rated or played, each once.
pub fn synced_song_ids(membership_song_ids: &Vec<String>, rated: &Vec<String>) -> (r: Vec<String>)
    ensures
        distinct_strs(r@),
        forall|s: Seq<char>|
            #[trigger] strs(r@).contains(s) <==> (strs(membership_song_ids@).contains(s) || strs(rated@).contains(s)),
{
    let mut out: Vec<String> = Vec::new();
    let ghost a = strs(membership_song_ids@);
    let ghost b = strs(rated@);
    let mut i: usize = 0;
    while i < membership_song_ids.len()
        invariant
            i <= membership_song_ids.len(),
            a == strs(membership_song_ids@),
            distinct_strs(out@),
            forall|t: Seq<char>| #[trigger] strs(out@).contains(t) <==> a.take(i as int).contains(t),
        decreases membership_song_ids.len() - i,
    {
        let ghost before = out@;
        push_unique(&mut out, &membership_song_ids[i]);
        proof {
            let x = membership_song_ids@[i as int]@;
            assert(a.take(i + 1) =~= a.take(i as int).push(x));
            assert forall|t: Seq<char>| #[trigger] strs(out@).contains(t) <==> a.take(i + 1).contains(t) by {
                lemma_push_contains(a.take(i as int), x, t);
                assert(strs(before).contains(t) <==> a.take(i as int).contains(t));
            }
        }
        i = i + 1;
    }
    assert(a.take(membership_song_ids.len() as int) =~= a);
    let mut j: usize = 0;
    while j < rated.len()
        invariant
            j <= rated.len(),
            a == strs(membership_song_ids@),
            b == strs(rated@),
            distinct_strs(out@),
            forall|t: Seq<char>| #[trigger] strs(out@).contains(t) <==> (a.contains(t) || b.take(j as int).contains(t)),
        decreases rated.len() - j,
    {
        let ghost before = out@;
        push_unique(&mut out, &rated[j]);
        proof {
            let x = rated@[j as int]@;
            assert(b.take(j + 1) =~= b.take(j as int).push(x));
            assert forall|t: Seq<char>| #[trigger] strs(out@).contains(t) <==> (a.contains(t) || b.take(j + 1).contains(t)) by {
                lemma_push_contains(b.take(j as int), x, t);
                assert(strs(before).contains(t) <==> (a.contains(t) || b.take(j as int).contains(t)));
            }
        }
        j = j + 1;
    }
    assert(b.take(rated.len() as int) =~= b);
    out
}

/// The deletions a push reports: the deleted playlists, and the removed
/// memberships whose key splits at a `:` into playlist and song.
pub open spec fn removed_refs(ts: Seq<Tombstone>) -> Seq<(Seq<char>, Seq<char>)>
    decreases ts.len(),
{
    if ts.len() == 0 {
        Seq::empty()
    } else {
        let rest = removed_refs(ts.drop_last());
        let t = ts.last();
        if t.entity_type@ == "playlist_song"@ {
            match text::find(t.entity_id@, ":"@) {
                Some(p) => rest.push((t.entity_id@.take(p), t.entity_id@.skip(p + 1))),
                None => rest,
            }
        } else {
            rest
        }
    }
}

/// The removed memberships a push reports.
pub fn removed_memberships(ts: &Vec<Tombstone>) -> (r: Vec<CloudPlaylistSongRef>)
    ensures
        r@.map_values(|x: CloudPlaylistSongRef| (x.playlist_id@, x.song_id@)) == removed_refs(ts@),
{
    let mut out: Vec<CloudPlaylistSongRef> = Vec::new();
    let colon = text::chars_of(":");
    let mut i: usize = 0;
    while i < ts.len()
        invariant
            i <= ts.len(),
            colon@ == ":"@,
            out@.map_values(|x: CloudPlaylistSongRef| (x.playlist_id@, x.song_id@)) == removed_refs(
                ts@.take(i as int),
            ),
        decreases ts.len() - i,
    {
        assert(ts@.take(i + 1).drop_last() =~= ts@.take(i as int));
        assert(ts@.take(i + 1).last() == ts@[i as int]);
        let t = &ts[i];
        if text::str_eq(t.entity_type.as_str(), "playlist_song") {
            let idv = text::chars_of(t.entity_id.as_str());
            match text::find_exec(&idv, &colon) {
                Some(p) => {
                    proof {
                        reveal_strlit(":");
                        assert(colon@.len() == 1);
                        text::lemma_find_bounds(idv@, colon@, 0);
                        assert(text::find_from(idv@, colon@, 0) == Some(p as int));
                    }
                    assert(p + 1 <= idv.len());
                    let a = text::slice_chars(&idv, 0, p);
                    let b = text::slice_chars(&idv, p + 1, idv.len());
                    assert(b@ =~= idv@.skip(p + 1));
                    let ghost before = out@;
                    out.push(CloudPlaylistSongRef { playlist_id: text::string_of(&a), song_id: text::string_of(&b) });
                    assert(out@.map_values(|x: CloudPlaylistSongRef| (x.playlist_id@, x.song_id@)) =~= before.map_values(
                        |x: CloudPlaylistSongRef| (x.playlist_id@, x.song_id@),
                    ).push((idv@.take(p as int), idv@.skip(p + 1))));
                },
                None => {},
            }
        }
        i = i + 1;
    }
    assert(ts@.take(ts.len() as int) =~= ts@);
    out
}

// ---------------------------------------------------------------- listening counters

/// The integer listening counters of one track for one user, and the
/// like mark (1 liked, -1 disliked, 0 neutral).
#[derive(Clone, Copy, Debug, PartialEq, Eq, Structural)]
pub struct SongCounters {
    pub play_count: i64,
    pub completion_count: i64,
    pub skip_count: i64,
    pub last_played_at: Option<i64>,
    pub manual_like: i64,
}

pub open spec fn max_i64(a: i64, b: i64) -> i64 {
    if a >= b {
        a
    } else {
        b
    }
}

/// A time that may be unknown, read as 0 when it is.
pub open spec fn or_zero(t: Option<i64>) -> i64 {
    match t {
        Some(v) => v,
        None => 0,
    }
}

/// The counters stored after the cloud's counters `remote` are applied over
/// the local ones, if any: with no local row the remote counters are stored
/// as they are; otherwise each count keeps the larger of the two, the last
/// play time the later of the two (an unknown time read as 0), and the like
/// mark is the cloud's.
pub open spec fn merged_counters(local: Option<SongCounters>, remote: SongCounters) -> SongCounters {
    match local {
        None => remote,
        Some(l) => SongCounters {
            play_count: max_i64(l.play_count, remote.play_count),
            completion_count: max_i64(l.completion_count, remote.completion_count),
            skip_count: max_i64(l.skip_count, remote.skip_count),
            last_played_at: Some(max_i64(or_zero(l.last_played_at), or_zero(remote.last_played_at))),
            manual_like: remote.manual_like,
        },
    }
}

fn max_exec(a: i64, b: i64) -> (r: i64)
    ensures
        r == max_i64(a, b),
{
    if a >= b {
        a
    } else {
        b
    }
}

/// Applies the cloud's listening counters of a track over the local ones.
pub fn merge_song_counters(local: Option<SongCounters>, remote: SongCounters) -> (r: SongCounters)
    ensures
        r == merged_counters(local, remote),
{
    match local {
        None => remote,
        Some(l) => {
            let lt = match l.last_played_at {
                Some(v) => v,
                None => 0,
            };
            let rt = match remote.last_played_at {
                Some(v) => v,
                None => 0,
            };
            SongCounters {
                play_count: max_exec(l.play_count, remote.play_count),
                completion_count: max_exec(l.completion_count, remote.completion_count),
                skip_count: max_exec(l.skip_count, remote.skip_count),
                last_played_at: Some(max_exec(lt, rt)),
                manual_like: remote.manual_like,
            }
        },
    }
}

/// The user a synced track statistic belongs to: its own user, or the
/// signed-in user when it names none.
pub fn stat_user_id(stat_user: &str, user_id: &str) -> (r: String)
    ensures
        r@ == (if stat_user@.len() == 0 {
            user_id@
        } else {
            stat_user@
        }),
{
    let own = text::chars_of(stat_user);
    if own.len() == 0 {
        text::string_of(&text::chars_of(user_id))
    } else {
        text::string_of(&own)
    }
}

/// Syncing never loses listening: after the cloud's counters are applied,
/// every count and the last play time are at least what either side had.
pub proof fn law_merge_never_loses_counts(local: SongCounters, remote: SongCounters)
    ensures
        ({
            let m = merged_counters(Some(local), remote);
            &&& m.play_count >= local.play_count && m.play_count >= remote.play_count
            &&& m.completion_count >= local.completion_count && m.completion_count >= remote.completion_count
            &&& m.skip_count >= local.skip_count && m.skip_count >= remote.skip_count
            &&& or_zero(m.last_played_at) >= or_zero(local.last_played_at)
            &&& or_zero(m.last_played_at) >= or_zero(remote.last_played_at)
        }),
{
}

/// Applying the same cloud counters again over a local row changes nothing.
pub proof fn law_merge_is_idempotent(local: SongCounters, remote: SongCounters)
    ensures
        merged_counters(Some(merged_counters(Some(local), remote)), remote) == merged_counters(
            Some(local),
            remote,
        ),
{
}

/// The counts agree whichever side is taken as local: two devices that apply
/// each other's counters end with the same counts and last play time.
pub proof fn law_merge_counts_agree_both_ways(a: SongCounters, b: SongCounters)
    ensures
        ({
            let x = merged_counters(Some(a), b);
            let y = merged_counters(Some(b), a);
            x.play_count == y.play_count && x.completion_count == y.completion_count && x.skip_count
                == y.skip_count && x.last_played_at == y.last_played_at
        }),
{
}

} // verus!
