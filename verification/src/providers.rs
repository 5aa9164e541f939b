//! Combining the download providers (routing a download, merging searches),
//! reading Soulseek daemon reports, and the bookkeeping of download tasks.
use vstd::prelude::*;
use crate::text;
use crate::downloads;
use crate::downloads::{DownloadProgress, DownloadSearchResult, DownloadStatus, SearchResultView};
use crate::matcher::opt_view;

verus! {

// ---------------------------------------------------------------- composite

/// The provider that handles a download.
#[derive(Clone, Copy, PartialEq, Eq, Debug, Structural)]
pub enum ProviderRoute {
    InternetArchive,
    Audius,
    YtDlp,
    Soulseek,
}

/// The provider that handles a result: by its provider name, yt-dlp also for
/// ids with the `ytdlp_` prefix, Soulseek for anything else.
pub open spec fn route_of(provider: Seq<char>, id: Seq<char>) -> ProviderRoute {
    if provider == "internet-archive"@ {
        ProviderRoute::InternetArchive
    } else if provider == "audius"@ {
        ProviderRoute::Audius
    } else if provider == "yt-dlp"@ || text::starts_with(id, "ytdlp_"@) {
        ProviderRoute::YtDlp
    } else {
        ProviderRoute::Soulseek
    }
}

/// The provider that handles the download of `result`.
pub fn route_download(result: &DownloadSearchResult) -> (r: ProviderRoute)
    ensures
        r == route_of(result.provider@, result.id@),
{
    let p = result.provider.as_str();
    if text::str_eq(p, "internet-archive") {
        ProviderRoute::InternetArchive
    } else if text::str_eq(p, "audius") {
        ProviderRoute::Audius
    } else {
        let idv = text::chars_of(result.id.as_str());
        let pre = text::chars_of("ytdlp_");
        if text::str_eq(p, "yt-dlp") || text::starts_with_exec(&idv, &pre) {
            ProviderRoute::YtDlp
        } else {
            ProviderRoute::Soulseek
        }
    }
}

/// Whether some result of `rs` has id `id`.
pub open spec fn has_id(rs: Seq<SearchResultView>, id: Seq<char>) -> bool {
    exists|i: int| 0 <= i < rs.len() && (#[trigger] rs[i]).id == id
}

/// The results of the providers that answered, in the order given, followed
/// by the stream source when no result has its id.
pub open spec fn merged_results(outcomes: Seq<Option<Vec<DownloadSearchResult>>>, source: Option<SearchResultView>) -> Seq<SearchResultView>
    decreases outcomes.len(),
{
    let all = answered(outcomes);
    match source {
        Some(s) => if has_id(all, s.id) {
            all
        } else {
            all.push(s)
        },
        None => all,
    }
}

/// The results of the providers that answered, in the order given.
pub open spec fn answered(outcomes: Seq<Option<Vec<DownloadSearchResult>>>) -> Seq<SearchResultView>
    decreases outcomes.len(),
{
    if outcomes.len() == 0 {
        Seq::empty()
    } else {
        answered(outcomes.drop_last()) + match outcomes.last() {
            Some(v) => downloads::result_views(v@),
            None => Seq::empty(),
        }
    }
}

fn has_id_exec(rs: &Vec<DownloadSearchResult>, id: &String) -> (b: bool)
    ensures
        b == has_id(downloads::result_views(rs@), id@),
{
    let mut i: usize = 0;
    while i < rs.len()
        invariant
            i <= rs.len(),
            forall|k: int| 0 <= k < i ==> (#[trigger] rs@[k]).id@ != id@,
        decreases rs.len() - i,
    {
        if text::str_eq(rs[i].id.as_str(), id.as_str()) {
            assert(downloads::result_views(rs@)[i as int].id == id@);
            return true;
        }
        i = i + 1;
    }
    assert forall|k: int| 0 <= k < rs.len() implies (#[trigger] downloads::result_views(rs@)[k]).id != id@ by {
        assert(downloads::result_views(rs@)[k] == rs@[k]@);
    }
    false
}

/// Merges the answers of the providers (`None` for one that failed) and the
/// stream source found for the track.
pub fn merge_search_results(outcomes: Vec<Option<Vec<DownloadSearchResult>>>, source: Option<DownloadSearchResult>) -> (r: Vec<DownloadSearchResult>)
    ensures
        downloads::result_views(r@) == merged_results(outcomes@, match source {
            Some(s) => Some(s@),
            None => None,
        }),
{
    let mut all: Vec<DownloadSearchResult> = Vec::new();
    let mut i: usize = 0;
    while i < outcomes.len()
        invariant
            i <= outcomes.len(),
            downloads::result_views(all@) == answered(outcomes@.take(i as int)),
        decreases outcomes.len() - i,
    {
        assert(outcomes@.take(i + 1).drop_last() =~= outcomes@.take(i as int));
        assert(outcomes@.take(i + 1).last() == outcomes@[i as int]);
        match &outcomes[i] {
            Some(v) => {
                let ghost before = all@;
                let mut k: usize = 0;
                while k < v.len()
                    invariant
                        k <= v.len(),
                        all@.len() == before.len() + k,
                        all@.take(before.len() as int) == before,
                        forall|j: int| 0 <= j < k ==> (#[trigger] all@[before.len() + j])@ == v@[j]@,
                    decreases v.len() - k,
                {
                    all.push(v[k].copy());
                    k = k + 1;
                }
                assert(downloads::result_views(all@) =~= downloads::result_views(before)
                    + downloads::result_views(v@)) by {
                    assert forall|j: int| 0 <= j < all@.len() implies #[trigger] downloads::result_views(all@)[j]
                        == (downloads::result_views(before) + downloads::result_views(v@))[j] by {
                        if j < before.len() {
                            assert(all@.take(before.len() as int)[j] == all@[j]);
                        } else {
                            assert(all@[before.len() + (j - before.len())]@ == v@[j - before.len()]@);
                        }
                    }
                }
            },
            None => {
                assert(answered(outcomes@.take(i + 1)) =~= answered(outcomes@.take(i as int)));
            },
        }
        i = i + 1;
    }
    assert(outcomes@.take(outcomes.len() as int) =~= outcomes@);
    match source {
        Some(s) => {
            if !has_id_exec(&all, &s.id) {
                let ghost before = all@;
                all.push(s);
                assert(downloads::result_views(all@) =~= downloads::result_views(before).push(
                    all@[all.len() - 1]@,
                ));
            }
            all
        },
        None => all,
    }
}

// ---------------------------------------------------------------- Soulseek

/// A file of a Soulseek search answer.
#[derive(Debug)]
pub struct SoulseekFile {
    pub username: String,
    pub filename: String,
    pub size: i64,
    pub bit_rate: Option<u32>,
    pub sample_rate: Option<u32>,
    pub has_free_upload_slot: Option<bool>,
    pub upload_speed: Option<u64>,
}

/// The id of a Soulseek transfer: "user:filename".
pub open spec fn transfer_key(user: Seq<char>, filename: Seq<char>) -> Seq<char> {
    user + ":"@ + filename
}

/// The offer made of a Soulseek search file; its format is the lowercased
/// extension of the file name, "mp3" when it has none.
pub open spec fn soulseek_offer(f: SoulseekFile) -> SearchResultView {
    SearchResultView {
        id: transfer_key(f.username@, f.filename@),
        provider: "soulseek"@,
        username: f.username@,
        filename: f.filename@,
        file_size: f.size,
        bitrate: f.bit_rate,
        sample_rate: f.sample_rate,
        format: text::spec_str_lowercase(
            match downloads::path_extension(f.filename@) {
                Some(e) => e,
                None => "mp3"@,
            },
        ),
        slots_free: f.has_free_upload_slot == Some(true),
        speed_bps: match f.upload_speed {
            Some(s) => s,
            None => 0,
        },
    }
}

/// The offer made of a Soulseek search file.
pub fn soulseek_result(f: &SoulseekFile) -> (r: DownloadSearchResult)
    ensures
        r@ == soulseek_offer(*f),
{
    let fv = text::chars_of(f.filename.as_str());
    let ext: String = match downloads::file_name_of(&fv) {
        Some(n) => match downloads::extension_of(&n) {
            Some(e) => text::string_of(&e),
            None => "mp3".to_string(),
        },
        None => "mp3".to_string(),
    };
    let format = text::str_to_lowercase(ext.as_str());
    DownloadSearchResult {
        id: text::concat3(f.username.as_str(), ":", f.filename.as_str()),
        provider: "soulseek".to_string(),
        username: f.username.clone(),
        filename: f.filename.clone(),
        file_size: f.size,
        bitrate: f.bit_rate,
        sample_rate: f.sample_rate,
        format,
        slots_free: match f.has_free_upload_slot {
            Some(b) => b,
            None => false,
        },
        speed_bps: match f.upload_speed {
            Some(s) => s,
            None => 0,
        },
    }
}

/// The task state a Soulseek transfer state stands for (read in lowercase).
pub open spec fn transfer_state(lower: Seq<char>) -> DownloadStatus {
    if lower == "completed"@ || lower == "succeeded"@ {
        DownloadStatus::Completed
    } else if lower == "cancelled"@ || lower == "aborted"@ {
        DownloadStatus::Cancelled
    } else if lower == "errored"@ || lower == "failed"@ {
        DownloadStatus::Failed
    } else if lower == "downloading"@ || lower == "in_progress"@ {
        DownloadStatus::Downloading
    } else {
        DownloadStatus::Queued
    }
}

/// The task state of a Soulseek transfer state.
pub fn transfer_status(state: &str) -> (r: DownloadStatus)
    ensures
        r == transfer_state(text::spec_str_lowercase(state@)),
{
    let l = text::str_to_lowercase(state);
    let s = l.as_str();
    if text::str_eq(s, "completed") || text::str_eq(s, "succeeded") {
        DownloadStatus::Completed
    } else if text::str_eq(s, "cancelled") || text::str_eq(s, "aborted") {
        DownloadStatus::Cancelled
    } else if text::str_eq(s, "errored") || text::str_eq(s, "failed") {
        DownloadStatus::Failed
    } else if text::str_eq(s, "downloading") || text::str_eq(s, "in_progress") {
        DownloadStatus::Downloading
    } else {
        DownloadStatus::Queued
    }
}

/// A file of a transfer list, its fields when present.
#[derive(Debug)]
pub struct TransferFile {
    pub filename: Option<String>,
    pub bytes_transferred: Option<i64>,
    pub size: Option<i64>,
    pub average_speed: Option<u64>,
    pub state: Option<String>,
}

/// A directory of a transfer list.
#[derive(Debug)]
pub struct TransferDirectory {
    pub files: Option<Vec<TransferFile>>,
}

/// A user's entry of a transfer list.
#[derive(Debug)]
pub struct Transfer {
    pub username: Option<String>,
    pub directories: Option<Vec<TransferDirectory>>,
}

pub struct ProgressView {
    pub task_id: Seq<char>,
    pub bytes_downloaded: i64,
    pub total_bytes: i64,
    pub speed_bps: u64,
    pub status: DownloadStatus,
}

impl View for DownloadProgress {
    type V = ProgressView;

    open spec fn view(&self) -> ProgressView {
        ProgressView {
            task_id: self.task_id@,
            bytes_downloaded: self.bytes_downloaded,
            total_bytes: self.total_bytes,
            speed_bps: self.speed_bps,
            status: self.status,
        }
    }
}

/// A string field, empty when absent.
pub open spec fn or_empty(o: Option<String>) -> Seq<char> {
    match o {
        Some(s) => s@,
        None => Seq::empty(),
    }
}

/// The progress of the transfer `task` if `f`, of user `user`, is it; a
/// missing size counts as 1, other missing numbers as 0.
pub open spec fn file_progress(user: Seq<char>, f: TransferFile, task: Seq<char>) -> Option<ProgressView> {
    if transfer_key(user, or_empty(f.filename)) == task {
        Some(
            ProgressView {
                task_id: task,
                bytes_downloaded: match f.bytes_transferred {
                    Some(b) => b,
                    None => 0,
                },
                total_bytes: match f.size {
                    Some(s) => s,
                    None => 1,
                },
                speed_bps: match f.average_speed {
                    Some(s) => s,
                    None => 0,
                },
                status: transfer_state(text::spec_str_lowercase(or_empty(f.state))),
            },
        )
    } else {
        None
    }
}

/// The first file of `files` that is the transfer `task`.
pub open spec fn progress_in_files(user: Seq<char>, files: Seq<TransferFile>, task: Seq<char>) -> Option<ProgressView>
    decreases files.len(),
{
    if files.len() == 0 {
        None
    } else {
        match file_progress(user, files[0], task) {
            Some(p) => Some(p),
            None => progress_in_files(user, files.skip(1), task),
        }
    }
}

/// The first file of the directories `dirs` that is the transfer `task`.
pub open spec fn progress_in_dirs(user: Seq<char>, dirs: Seq<TransferDirectory>, task: Seq<char>) -> Option<ProgressView>
    decreases dirs.len(),
{
    if dirs.len() == 0 {
        None
    } else {
        let here = match dirs[0].files {
            Some(fs) => progress_in_files(user, fs@, task),
            None => None,
        };
        match here {
            Some(p) => Some(p),
            None => progress_in_dirs(user, dirs.skip(1), task),
        }
    }
}

/// The first file of the transfer list that is the transfer `task`.
pub open spec fn progress_in_transfers(ts: Seq<Transfer>, task: Seq<char>) -> Option<ProgressView>
    decreases ts.len(),
{
    if ts.len() == 0 {
        None
    } else {
        let here = match ts[0].directories {
            Some(ds) => progress_in_dirs(or_empty(ts[0].username), ds@, task),
            None => None,
        };
        match here {
            Some(p) => Some(p),
            None => progress_in_transfers(ts.skip(1), task),
        }
    }
}

fn or_empty_exec(o: &Option<String>) -> (r: String)
    ensures
        r@ == or_empty(*o),
{
    match o {
        Some(s) => s.clone(),
        None => String::new(),
    }
}

fn file_progress_exec(user: &String, f: &TransferFile, task: &str) -> (r: Option<DownloadProgress>)
    ensures
        match r {
            Some(p) => file_progress(user@, *f, task@) == Some(p@),
            None => file_progress(user@, *f, task@) is None,
        },
{
    let name = or_empty_exec(&f.filename);
    let key = text::concat3(user.as_str(), ":", name.as_str());
    if !text::str_eq(key.as_str(), task) {
        return None;
    }
    let state = or_empty_exec(&f.state);
    Some(
        DownloadProgress {
            task_id: task.to_string(),
            bytes_downloaded: match f.bytes_transferred {
                Some(b) => b,
                None => 0,
            },
            total_bytes: match f.size {
                Some(s) => s,
                None => 1,
            },
            speed_bps: match f.average_speed {
                Some(s) => s,
                None => 0,
            },
            status: transfer_status(state.as_str()),
        },
    )
}

fn progress_in_files_exec(user: &String, files: &Vec<TransferFile>, task: &str) -> (r: Option<DownloadProgress>)
    ensures
        match r {
            Some(p) => progress_in_files(user@, files@, task@) == Some(p@),
            None => progress_in_files(user@, files@, task@) is None,
        },
{
    let mut i: usize = 0;
    assert(files@.skip(0) =~= files@);
    while i < files.len()
        invariant
            i <= files.len(),
            progress_in_files(user@, files@, task@) == progress_in_files(user@, files@.skip(i as int), task@),
        decreases files.len() - i,
    {
        assert(files@.skip(i as int).skip(1) =~= files@.skip(i + 1));
        assert(files@.skip(i as int)[0] == files@[i as int]);
        match file_progress_exec(user, &files[i], task) {
            Some(p) => {
                return Some(p);
            },
            None => {},
        }
        i = i + 1;
    }
    None
}

fn progress_in_dirs_exec(user: &String, dirs: &Vec<TransferDirectory>, task: &str) -> (r: Option<DownloadProgress>)
    ensures
        match r {
            Some(p) => progress_in_dirs(user@, dirs@, task@) == Some(p@),
            None => progress_in_dirs(user@, dirs@, task@) is None,
        },
{
    let mut i: usize = 0;
    assert(dirs@.skip(0) =~= dirs@);
    while i < dirs.len()
        invariant
            i <= dirs.len(),
            progress_in_dirs(user@, dirs@, task@) == progress_in_dirs(user@, dirs@.skip(i as int), task@),
        decreases dirs.len() - i,
    {
        assert(dirs@.skip(i as int).skip(1) =~= dirs@.skip(i + 1));
        assert(dirs@.skip(i as int)[0] == dirs@[i as int]);
        match &dirs[i].files {
            Some(fs) => match progress_in_files_exec(user, fs, task) {
                Some(p) => {
                    return Some(p);
                },
                None => {},
            },
            None => {},
        }
        i = i + 1;
    }
    None
}

/// The progress of the transfer `task_id` in a Soulseek transfer list: the
/// first file whose "user:filename" is the id.
pub fn find_transfer_progress(transfers: &Vec<Transfer>, task_id: &str) -> (r: Option<DownloadProgress>)
    ensures
        match r {
            Some(p) => progress_in_transfers(transfers@, task_id@) == Some(p@),
            None => progress_in_transfers(transfers@, task_id@) is None,
        },
{
    let mut i: usize = 0;
    assert(transfers@.skip(0) =~= transfers@);
    while i < transfers.len()
        invariant
            i <= transfers.len(),
            progress_in_transfers(transfers@, task_id@) == progress_in_transfers(
                transfers@.skip(i as int),
                task_id@,
            ),
        decreases transfers.len() - i,
    {
        assert(transfers@.skip(i as int).skip(1) =~= transfers@.skip(i + 1));
        assert(transfers@.skip(i as int)[0] == transfers@[i as int]);
        let t = &transfers[i];
        let user = or_empty_exec(&t.username);
        match &t.directories {
            Some(ds) => match progress_in_dirs_exec(&user, ds, task_id) {
                Some(p) => {
                    return Some(p);
                },
                None => {},
            },
            None => {},
        }
        i = i + 1;
    }
    None
}

/// The user whose transfer a Soulseek task id names: the part before its
/// first `:`, if it has one.
pub open spec fn task_user(task_id: Seq<char>) -> Option<Seq<char>> {
    match text::find(task_id, ":"@) {
        Some(p) => Some(task_id.take(p)),
        None => None,
    }
}

/// The user whose transfer a Soulseek task id names.
pub fn cancel_username(task_id: &str) -> (r: Option<String>)
    ensures
        opt_view(r) == task_user(task_id@),
{
    let v = text::chars_of(task_id);
    let colon = text::chars_of(":");
    match text::find_exec(&v, &colon) {
        Some(p) => {
            proof {
                text::lemma_find_bounds(v@, colon@, 0);
            }
            let head = text::slice_chars(&v, 0, p);
            Some(text::string_of(&head))
        },
        None => None,
    }
}

// ---------------------------------------------------------------- tasks

/// A download task as stored.
#[derive(Debug)]
pub struct DownloadTaskRecord {
    pub id: String,
    pub provider: String,
    pub provider_task_id: Option<String>,
    pub title: String,
    pub artist: String,
    pub album: Option<String>,
    pub filename: String,
    pub destination_path: Option<String>,
    pub file_size: Option<i64>,
    pub bytes_downloaded: i64,
    pub status: String,
    pub error_message: Option<String>,
    pub wishlist_id: Option<String>,
    pub created_at: i64,
    pub completed_at: Option<i64>,
}

/// The task recorded when a download starts: downloading, nothing received,
/// artist and title read from the result's file name.
pub open spec fn started_task(
    t: DownloadTaskRecord,
    task_id: Seq<char>,
    provider: Seq<char>,
    provider_task_id: Seq<char>,
    result: SearchResultView,
    destination: Seq<char>,
    wishlist_id: Option<Seq<char>>,
    now: i64,
) -> bool {
    let at = downloads::artist_title_of(result.filename);
    &&& t.id@ == task_id
    &&& t.provider@ == provider
    &&& opt_view(t.provider_task_id) == Some(provider_task_id)
    &&& t.artist@ == at.0
    &&& t.title@ == at.1
    &&& t.album is None
    &&& t.filename@ == result.filename
    &&& opt_view(t.destination_path) == Some(destination)
    &&& t.file_size == Some(result.file_size)
    &&& t.bytes_downloaded == 0
    &&& t.status@ == "DOWNLOADING"@
    &&& t.error_message is None
    &&& opt_view(t.wishlist_id) == wishlist_id
    &&& t.created_at == now
    &&& t.completed_at is None
}

/// The task recorded when the download of `result` starts.
pub fn new_download_task(
    task_id: String,
    provider: String,
    provider_task_id: String,
    result: &DownloadSearchResult,
    destination: String,
    wishlist_id: Option<String>,
    now: i64,
) -> (t: DownloadTaskRecord)
    ensures
        started_task(t, task_id@, provider@, provider_task_id@, result@, destination@, opt_view(wishlist_id), now),
{
    let (artist, title) = downloads::parse_artist_title_from_filename(result.filename.as_str());
    DownloadTaskRecord {
        id: task_id,
        provider,
        provider_task_id: Some(provider_task_id),
        title,
        artist,
        album: None,
        filename: result.filename.clone(),
        destination_path: Some(destination),
        file_size: Some(result.file_size),
        bytes_downloaded: 0,
        status: "DOWNLOADING".to_string(),
        error_message: None,
        wishlist_id,
        created_at: now,
        completed_at: None,
    }
}

/// Whether a task in stored state `status` is still polled.
pub open spec fn pollable(status: Seq<char>) -> bool {
    status == "DOWNLOADING"@ || status == "QUEUED"@
}

/// Whether a task in stored state `status` is still polled.
pub fn is_pollable(status: &str) -> (b: bool)
    ensures
        b == pollable(status@),
{
    text::str_eq(status, "DOWNLOADING") || text::str_eq(status, "QUEUED")
}

/// What polling does with a task once its provider reports `status`.
#[derive(Clone, Copy, PartialEq, Eq, Debug, Structural)]
pub enum PollStep {
    Complete,
    Fail,
    Continue,
}

/// What polling does with a task whose provider reports `status`.
pub fn poll_step(status: DownloadStatus) -> (r: PollStep)
    ensures
        r == (match status {
            DownloadStatus::Completed => PollStep::Complete,
            DownloadStatus::Failed => PollStep::Fail,
            _ => PollStep::Continue,
        }),
{
    match status {
        DownloadStatus::Completed => PollStep::Complete,
        DownloadStatus::Failed => PollStep::Fail,
        _ => PollStep::Continue,
    }
}

} // verus!
