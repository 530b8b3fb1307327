//! The ISO downloader: fetch an OS image named in the catalog into the ISO Store.
//!
//! One download runs at a time. Its mirrors are tried in order; the image streams into a
//! `.part` file, which is renamed onto its final name once it is complete. A file that is
//! already in the Store is never overwritten.

use vstd::prelude::*;

use crate::instance::catalog;
use crate::instance::catalog::Catalog;
use crate::instance::iso_store;
use crate::instance::store_path;
use crate::instance::store_path::StoreSnapshot;
use crate::text;

verus! {

/// How long a mirror may send nothing before it is given up, in seconds.
pub const STALL_TIMEOUT: u64 = 60;

/// Raised for a download that cannot be started.
#[derive(Debug, Clone, PartialEq, Eq)]
pub struct DownloadError(pub String);

/// Raised when a mirror fails.
#[derive(Debug, Clone, PartialEq, Eq)]
pub struct FetchError(pub String);

// ---------------------------------------------------------------------------
// Fetching from a mirror
// ---------------------------------------------------------------------------

/// The content type of a web page.
pub open spec fn is_html(content_type: Seq<char>) -> bool {
    text::has_prefix(text::ascii_lower(text::trim_start(content_type)), "text/html"@)
}

/// Check the content type of a mirror's answer: an image is never served as a web page, so
/// one that is is a login or error page.
pub fn check_content_type(url: &str, content_type: Option<&str>) -> (r: Result<(), FetchError>)
    ensures
        match r {
            Ok(_) => !(content_type matches Some(ct) && is_html(ct@)),
            Err(e) => content_type matches Some(ct) && is_html(ct@) && e.0@ == url@
                + " returned an HTML page (content-type "@ + ct@
                + "), not a file — likely a login/error page, not the image"@,
        },
{
    if let Some(ct) = content_type {
        let start = text::trim_left(ct);
        let lower = text::ascii_lowercase(start.as_str());
        if text::starts_with(lower.as_str(), "text/html") {
            return Err(
                FetchError(
                    text::cat4(
                        url,
                        " returned an HTML page (content-type ",
                        ct,
                        "), not a file — likely a login/error page, not the image",
                    ),
                ),
            );
        }
    }
    Ok(())
}

/// What goes wrong while an image is fetched.
#[derive(Debug, Clone, PartialEq, Eq)]
pub enum FetchTrouble {
    /// The request could not be made.
    Request(String),
    /// The mirror answered with an error status.
    Status(String),
    /// The file could not be created.
    Create(String),
    /// No data came for `STALL_TIMEOUT`.
    Stalled,
    /// The file could not be written to.
    Write(String),
    /// The transfer broke off.
    Transfer(String),
    /// The file could not be completed.
    Flush(String),
}

/// The message for what went wrong while `url` was fetched into `dest`.
pub open spec fn trouble_text(url: Seq<char>, dest: Seq<char>, trouble: FetchTrouble) -> Seq<char> {
    match trouble {
        FetchTrouble::Request(e) => "request to "@ + url + " failed: "@ + e@,
        FetchTrouble::Status(e) => url + " returned an error status: "@ + e@,
        FetchTrouble::Create(e) => "cannot create "@ + dest + ": "@ + e@,
        FetchTrouble::Stalled => url + " stalled (no data for "@ + text::decimal(
            STALL_TIMEOUT as nat,
        ) + "s)"@,
        FetchTrouble::Write(e) => "write to "@ + dest + " failed: "@ + e@,
        FetchTrouble::Transfer(e) => "download from "@ + url + " failed: "@ + e@,
        FetchTrouble::Flush(e) => "flush "@ + dest + " failed: "@ + e@,
    }
}

/// The error for what went wrong while `url` was fetched into `dest`.
pub fn fetch_error(url: &str, dest: &str, trouble: FetchTrouble) -> (r: FetchError)
    ensures
        r.0@ == trouble_text(url@, dest@, trouble),
{
    let m = match trouble {
        FetchTrouble::Request(e) => text::cat4("request to ", url, " failed: ", e.as_str()),
        FetchTrouble::Status(e) => text::cat3(url, " returned an error status: ", e.as_str()),
        FetchTrouble::Create(e) => text::cat4("cannot create ", dest, ": ", e.as_str()),
        FetchTrouble::Stalled => {
            let secs = text::decimal_u64(STALL_TIMEOUT);
            text::cat4(url, " stalled (no data for ", secs.as_str(), "s)")
        },
        FetchTrouble::Write(e) => text::cat4("write to ", dest, " failed: ", e.as_str()),
        FetchTrouble::Transfer(e) => text::cat4("download from ", url, " failed: ", e.as_str()),
        FetchTrouble::Flush(e) => text::cat4("flush ", dest, " failed: ", e.as_str()),
    };
    FetchError(m)
}

// ---------------------------------------------------------------------------
// Status
// ---------------------------------------------------------------------------

/// The state of a download.
#[derive(Debug, Clone, Copy, PartialEq, Eq, Structural)]
pub enum DownloadState {
    /// Bytes are streaming into the temporary file.
    Downloading,
    /// The image was renamed onto its final path.
    Completed,
    /// Every mirror failed, or the image could not be finalized.
    Failed,
}

/// A snapshot of one download's progress or outcome.
#[derive(Debug, PartialEq, Eq)]
pub struct DownloadStatus {
    /// The catalog id.
    pub id: String,
    /// The distribution's name.
    pub name: String,
    /// The bare name of the image in the ISO Store.
    pub filename: String,
    /// The state.
    pub state: DownloadState,
    /// Bytes written so far, of the current attempt.
    pub bytes_downloaded: u64,
    /// The total size, where the mirror gave it.
    pub total_bytes: Option<u64>,
    /// Whole percent complete, where the total is known.
    pub percent: Option<u32>,
    /// The mirror that is tried, or that succeeded or failed.
    pub mirror: Option<String>,
    /// The position of the mirror in the entry's list.
    pub mirror_index: usize,
    /// How many mirrors the entry has.
    pub mirrors_total: usize,
    /// The final path, once the download has completed.
    pub path: Option<String>,
    /// Why the download failed, once it has.
    pub error: Option<String>,
}

/// What a status says.
pub struct StatusText {
    /// The catalog id.
    pub id: Seq<char>,
    /// The distribution's name.
    pub name: Seq<char>,
    /// The name of the image.
    pub filename: Seq<char>,
    /// The state.
    pub state: DownloadState,
    /// Bytes written so far.
    pub bytes_downloaded: u64,
    /// The total size.
    pub total_bytes: Option<u64>,
    /// Whole percent complete.
    pub percent: Option<u32>,
    /// The mirror.
    pub mirror: Option<Seq<char>>,
    /// The position of the mirror.
    pub mirror_index: nat,
    /// How many mirrors there are.
    pub mirrors_total: nat,
    /// The final path.
    pub path: Option<Seq<char>>,
    /// Why the download failed.
    pub error: Option<Seq<char>>,
}

impl View for DownloadStatus {
    type V = StatusText;

    open spec fn view(&self) -> StatusText {
        StatusText {
            id: self.id@,
            name: self.name@,
            filename: self.filename@,
            state: self.state,
            bytes_downloaded: self.bytes_downloaded,
            total_bytes: self.total_bytes,
            percent: self.percent,
            mirror: text::string_of(self.mirror),
            mirror_index: self.mirror_index as nat,
            mirrors_total: self.mirrors_total as nat,
            path: text::string_of(self.path),
            error: text::string_of(self.error),
        }
    }
}

impl Clone for DownloadStatus {
    fn clone(&self) -> (r: DownloadStatus)
        ensures
            r@ == self@,
    {
        DownloadStatus {
            id: self.id.clone(),
            name: self.name.clone(),
            filename: self.filename.clone(),
            state: self.state,
            bytes_downloaded: self.bytes_downloaded,
            total_bytes: self.total_bytes,
            percent: self.percent,
            mirror: text::clone_option(&self.mirror),
            mirror_index: self.mirror_index,
            mirrors_total: self.mirrors_total,
            path: text::clone_option(&self.path),
            error: text::clone_option(&self.error),
        }
    }
}

/// What an optional status says.
pub open spec fn status_of(s: Option<DownloadStatus>) -> Option<StatusText> {
    match s {
        Some(s) => Some(s@),
        None => None,
    }
}

fn clone_status(s: &Option<DownloadStatus>) -> (r: Option<DownloadStatus>)
    ensures
        status_of(r) == status_of(*s),
{
    match s {
        Some(x) => Some(x.clone()),
        None => None,
    }
}

/// Whole percent complete.
pub open spec fn percent_of(done: u64, total: u64) -> u32 {
    if done >= total {
        100
    } else {
        (done as nat * 100 / total as nat) as u32
    }
}

fn percent(done: u64, total: u64) -> (r: u32)
    requires
        total > 0,
    ensures
        r == percent_of(done, total),
        r <= 100,
{
    if done >= total {
        100
    } else {
        let hundredfold: u128 = done as u128 * 100;
        let quotient: u128 = hundredfold / (total as u128);
        assert(quotient <= 100) by (nonlinear_arith)
            requires
                quotient == hundredfold / (total as u128),
                hundredfold == done as u128 * 100,
                done < total,
                total > 0,
        ;
        quotient as u32
    }
}

impl StatusText {
    /// The status when a mirror is about to be tried.
    pub open spec fn trying(self, mirrors: Seq<Seq<char>>, i: nat) -> StatusText {
        StatusText {
            mirror: Some(mirrors[i as int]),
            mirror_index: i,
            bytes_downloaded: 0,
            total_bytes: None,
            percent: None,
            ..self
        }
    }

    /// The status after bytes were written.
    pub open spec fn progressed(self, done: u64) -> StatusText {
        StatusText {
            bytes_downloaded: done,
            percent: match self.total_bytes {
                Some(total) => if total > 0 {
                    Some(percent_of(done, total))
                } else {
                    self.percent
                },
                None => self.percent,
            },
            ..self
        }
    }

    /// The status of a download that has completed at a path.
    pub open spec fn completed(self, path: Seq<char>) -> StatusText {
        StatusText {
            state: DownloadState::Completed,
            path: Some(path),
            percent: if self.total_bytes is Some {
                Some(100)
            } else {
                self.percent
            },
            ..self
        }
    }

    /// The status of a download that has failed.
    pub open spec fn failed(self, why: Seq<char>) -> StatusText {
        StatusText { state: DownloadState::Failed, error: Some(why), ..self }
    }
}

// ---------------------------------------------------------------------------
// The manager
// ---------------------------------------------------------------------------

/// How far the active download has come.
#[derive(Debug, Clone, Copy, PartialEq, Eq, Structural)]
pub enum Phase {
    /// It has claimed the slot.
    Claimed,
    /// A mirror is being fetched from.
    Fetching,
    /// The temporary file is being renamed.
    Renaming,
}

struct Run {
    status: DownloadStatus,
    mirrors: Vec<String>,
    dest: String,
    phase: Phase,
}

/// The active download.
pub struct RunText {
    /// Its status.
    pub status: StatusText,
    /// Its mirrors, in order.
    pub mirrors: Seq<Seq<char>>,
    /// The final path of the image.
    pub dest: Seq<char>,
    /// How far it has come.
    pub phase: Phase,
}

/// The state of the downloader.
pub struct ManagerModel {
    /// The ISO Store directory.
    pub iso_dir: Seq<char>,
    /// Whether downloading is enabled.
    pub allowed: bool,
    /// The catalog.
    pub catalog: Catalog,
    /// The active download, if any.
    pub active: Option<RunText>,
    /// The download that finished last, if any.
    pub last: Option<StatusText>,
}

impl RunText {
    /// The active download is downloading, and once it has started its mirror is one of its
    /// mirrors.
    pub open spec fn valid(self) -> bool {
        &&& self.status.state == DownloadState::Downloading
        &&& self.status.mirrors_total == self.mirrors.len()
        &&& self.phase != Phase::Claimed ==> self.status.mirror_index < self.mirrors.len()
    }
}

impl ManagerModel {
    /// The active download, if any, is valid.
    pub open spec fn valid(self) -> bool {
        self.active matches Some(run) ==> run.valid()
    }

    /// The state once the active download has ended with a status: the slot is free again.
    pub open spec fn finished(self, status: StatusText) -> ManagerModel {
        ManagerModel { active: None, last: Some(status), ..self }
    }

    /// The state once the mirror at `i` is being fetched from.
    pub open spec fn fetching(self, i: nat) -> ManagerModel {
        let run = self.active->0;
        ManagerModel {
            active: Some(
                RunText {
                    status: run.status.trying(run.mirrors, i),
                    phase: Phase::Fetching,
                    ..run
                },
            ),
            ..self
        }
    }
}

/// The message for a downloader that is switched off.
pub open spec fn disabled() -> Seq<char> {
    "Downloading is disabled. Set QMP_MCP_ALLOW_DOWNLOAD=true to enable download_iso (it fetches an OS image over the network into the ISO Store)."@
}

fn disabled_text() -> (r: String)
    ensures
        r@ == disabled(),
{
    "Downloading is disabled. Set QMP_MCP_ALLOW_DOWNLOAD=true to enable download_iso (it fetches an OS image over the network into the ISO Store).".to_string()
}

/// The status of a download of an entry that has just claimed the slot.
pub open spec fn initial_status(entry: catalog::CatalogEntry) -> StatusText {
    StatusText {
        id: entry.id@,
        name: entry.name@,
        filename: entry.filename@,
        state: DownloadState::Downloading,
        bytes_downloaded: 0,
        total_bytes: None,
        percent: None,
        mirror: if entry.mirrors@.len() > 0 {
            Some(entry.mirrors@[0]@)
        } else {
            None
        },
        mirror_index: 0,
        mirrors_total: entry.mirrors@.len(),
        path: None,
        error: None,
    }
}

/// The download that a request starts, or why it is refused.
pub open spec fn start_outcome(m: ManagerModel, id: Seq<char>, snapshot: StoreSnapshot) -> Result<
    RunText,
    Seq<char>,
> {
    if !m.allowed {
        Err(disabled())
    } else {
        match catalog::entry_of(m.catalog.entries@, id) {
            None => Err(
                "unknown ISO id \""@ + id
                    + "\". Use list_iso_catalog to see the available ids ("@ + text::joined(
                    catalog::ids(m.catalog.entries@),
                    ", "@,
                ) + ")."@,
            ),
            Some(entry) => match store_path::resolution(
                entry.filename@,
                m.iso_dir,
                iso_store::iso_wording(),
                snapshot,
            ) {
                Err(e) => Err(e),
                Ok(dest) => if snapshot.at(entry.filename@) is Some {
                    Err(
                        "\""@ + entry.filename@
                            + "\" is already present in the ISO Store; downloading would overwrite it. Delete it first, or it is already available (see list_isos)."@,
                    )
                } else {
                    match m.active {
                        Some(cur) => Err(
                            "a download is already in progress (\""@ + cur.status.filename
                                + "\", id \""@ + cur.status.id
                                + "\"). Only one download runs at a time — wait for it to finish (poll get_download) or let it fail."@,
                        ),
                        None => Ok(
                            RunText {
                                status: initial_status(entry),
                                mirrors: text::texts(entry.mirrors@),
                                dest,
                                phase: Phase::Claimed,
                            },
                        ),
                    }
                },
            },
        }
    }
}

/// What happened to the active download.
#[derive(Debug, Clone, PartialEq, Eq)]
pub enum DownloadEvent {
    /// Its work begins.
    Begun,
    /// The mirror was fetched from to the end.
    Fetched,
    /// The mirror failed.
    FetchFailed(FetchError),
    /// The temporary file was renamed.
    Renamed,
    /// The temporary file could not be renamed.
    RenameFailed(String),
}

/// What the active download does next. The temporary file is removed first where
/// `discard` says so.
#[derive(Debug, PartialEq, Eq)]
pub enum DownloadAction {
    /// Fetch from a mirror into the temporary file.
    Fetch {
        /// The mirror.
        url: String,
        /// The temporary file.
        temp: String,
        /// Whether to remove the temporary file first.
        discard: bool,
    },
    /// Rename the temporary file onto the final path.
    Rename {
        /// The temporary file.
        temp: String,
        /// The final path.
        dest: String,
    },
    /// Nothing: the download has ended.
    End {
        /// The temporary file.
        temp: String,
        /// Whether to remove the temporary file.
        discard: bool,
    },
}

/// The path of the temporary file for a final path.
pub open spec fn temp_path(dest: Seq<char>) -> Seq<char> {
    dest + ".part"@
}

/// The path of the temporary file for a final path: it lies beside it, so a rename never
/// crosses a filesystem.
pub fn temp_path_for(dest: &str) -> (r: String)
    ensures
        r@ == temp_path(dest@),
{
    text::cat2(dest, ".part")
}

/// An event can happen to the active download.
pub open spec fn can_happen(phase: Phase, event: DownloadEvent) -> bool {
    match phase {
        Phase::Claimed => event is Begun,
        Phase::Fetching => event is Fetched || event is FetchFailed,
        Phase::Renaming => event is Renamed || event is RenameFailed,
    }
}

/// The message for a temporary file that cannot be renamed.
pub open spec fn finalize_text(dest: Seq<char>, why: Seq<char>) -> Seq<char> {
    "failed to finalize "@ + dest + ": "@ + why
}

/// The state that an event leads to. The mirrors are tried in order until one succeeds; a
/// rename that fails is not a mirror's fault and ends the download.
pub open spec fn after_event(m: ManagerModel, event: DownloadEvent) -> ManagerModel {
    let run = m.active->0;
    match event {
        DownloadEvent::Begun => if run.mirrors.len() == 0 {
            m.finished(run.status.failed("no mirrors were configured for this entry"@))
        } else {
            m.fetching(0)
        },
        DownloadEvent::Fetched => ManagerModel {
            active: Some(RunText { phase: Phase::Renaming, ..run }),
            ..m
        },
        DownloadEvent::FetchFailed(e) => if run.status.mirror_index + 1 < run.mirrors.len() {
            m.fetching(run.status.mirror_index + 1)
        } else {
            m.finished(run.status.failed(e.0@))
        },
        DownloadEvent::Renamed => m.finished(run.status.completed(run.dest)),
        DownloadEvent::RenameFailed(why) => m.finished(
            run.status.failed(finalize_text(run.dest, why@)),
        ),
    }
}

/// What an event makes the download do next.
pub open spec fn leads_to(m: ManagerModel, event: DownloadEvent, action: DownloadAction) -> bool {
    let run = m.active->0;
    let next = after_event(m, event);
    match next.active {
        Some(n) => match n.phase {
            Phase::Renaming => action matches DownloadAction::Rename { temp, dest } && temp@
                == temp_path(run.dest) && dest@ == run.dest,
            _ => action matches DownloadAction::Fetch { url, temp, discard } && url@
                == n.mirrors[n.status.mirror_index as int] && temp@ == temp_path(run.dest)
                && discard,
        },
        None => action matches DownloadAction::End { temp, discard } && temp@ == temp_path(run.dest)
            && discard == !(event is Renamed),
    }
}

/// What the downloader is made with.
#[derive(Debug)]
pub struct DownloadManagerOptions {
    /// The ISO Store directory.
    pub iso_dir: String,
    /// Whether downloading is enabled.
    pub allow_download: bool,
    /// The validated catalog.
    pub catalog: Catalog,
}

/// The downloader's capability, and its current or last download.
#[derive(Debug, PartialEq, Eq)]
pub struct DownloadReport {
    /// Whether downloading is enabled.
    pub available: bool,
    /// Why it is not, or a confirming note.
    pub reason: String,
    /// Where the catalog came from.
    pub catalog_source: String,
    /// How many entries the catalog has.
    pub catalog_count: usize,
    /// Whether a download is in progress.
    pub active: bool,
    /// The current or last download, if any.
    pub download: Option<DownloadStatus>,
    /// The ISO Store directory.
    pub iso_dir: String,
}

/// The ISO downloader.
pub struct DownloadManager {
    iso_dir: String,
    allow_download: bool,
    catalog: Catalog,
    active: Option<Run>,
    last: Option<DownloadStatus>,
}

spec fn run_text(run: Run) -> RunText {
    RunText {
        status: run.status@,
        mirrors: text::texts(run.mirrors@),
        dest: run.dest@,
        phase: run.phase,
    }
}

impl View for DownloadManager {
    type V = ManagerModel;

    closed spec fn view(&self) -> ManagerModel {
        ManagerModel {
            iso_dir: self.iso_dir@,
            allowed: self.allow_download,
            catalog: self.catalog,
            active: match self.active {
                Some(run) => Some(run_text(run)),
                None => None,
            },
            last: status_of(self.last),
        }
    }
}

impl DownloadManager {
    /// A downloader with a free slot.
    pub fn new(options: DownloadManagerOptions) -> (r: DownloadManager)
        ensures
            r@ == (ManagerModel {
                iso_dir: options.iso_dir@,
                allowed: options.allow_download,
                catalog: options.catalog,
                active: None,
                last: None,
            }),
            r@.valid(),
    {
        DownloadManager {
            iso_dir: options.iso_dir,
            allow_download: options.allow_download,
            catalog: options.catalog,
            active: None,
            last: None,
        }
    }

    /// The catalog.
    pub fn catalog(&self) -> (r: &Catalog)
        ensures
            *r == self@.catalog,
    {
        &self.catalog
    }

    /// The downloader's capability, and the current download or else the last one.
    pub fn describe(&self) -> (r: DownloadReport)
        ensures
            r.available == self@.allowed,
            r.reason@ == (if self@.allowed {
                "Downloading is available ("@ + text::decimal(self@.catalog.entries@.len())
                    + " entries in the catalog from "@ + self@.catalog.source@ + ")."@
            } else {
                disabled()
            }),
            r.catalog_source@ == self@.catalog.source@,
            r.catalog_count == self@.catalog.entries@.len(),
            r.active == (self@.active is Some),
            status_of(r.download) == (match self@.active {
                Some(run) => Some(run.status),
                None => self@.last,
            }),
            r.iso_dir@ == self@.iso_dir,
    {
        let (active, download) = match &self.active {
            Some(run) => (true, Some(run.status.clone())),
            None => (false, clone_status(&self.last)),
        };
        let count: usize = self.catalog.entries.len();
        let reason = if self.allow_download {
            let n = text::decimal_u64(count as u64);
            text::cat5(
                "Downloading is available (",
                n.as_str(),
                " entries in the catalog from ",
                self.catalog.source.as_str(),
                ").",
            )
        } else {
            disabled_text()
        };
        DownloadReport {
            available: self.allow_download,
            reason,
            catalog_source: self.catalog.source.clone(),
            catalog_count: count,
            active,
            download,
            iso_dir: self.iso_dir.clone(),
        }
    }

    /// Start downloading the catalog entry with an id: claim the slot, and return the initial
    /// status. Refused when downloading is off, the id is unknown, the target is not a safe
    /// place in the Store or is already present, or a download is in progress.
    pub fn start(&mut self, id: &str, snapshot: &StoreSnapshot) -> (r: Result<
        DownloadStatus,
        DownloadError,
    >)
        requires
            old(self)@.valid(),
        ensures
            final(self)@.valid(),
            match start_outcome(old(self)@, id@, *snapshot) {
                Ok(run) => r matches Ok(s) && s@ == run.status && final(self)@ == (ManagerModel {
                    active: Some(run),
                    ..old(self)@
                }),
                Err(m) => r matches Err(e) && e.0@ == m && final(self)@ == old(self)@,
            },
    {
        broadcast use text::group_texts;

        if !self.allow_download {
            return Err(DownloadError(disabled_text()));
        }
        let entry = match self.catalog.find(id) {
            Some(entry) => entry,
            None => {
                let hint = self.catalog.ids_hint();
                return Err(
                    DownloadError(
                        text::cat5(
                            "unknown ISO id \"",
                            id,
                            "\". Use list_iso_catalog to see the available ids (",
                            hint.as_str(),
                            ").",
                        ),
                    ),
                );
            },
        };
        let dest = match iso_store::resolve_iso_path(
            entry.filename.as_str(),
            self.iso_dir.as_str(),
            snapshot,
        ) {
            Ok(dest) => dest,
            Err(e) => return Err(DownloadError(e.0)),
        };
        if snapshot.leaf(entry.filename.as_str()).is_some() {
            return Err(
                DownloadError(
                    text::cat3(
                        "\"",
                        entry.filename.as_str(),
                        "\" is already present in the ISO Store; downloading would overwrite it. Delete it first, or it is already available (see list_isos).",
                    ),
                ),
            );
        }
        if let Some(run) = &self.active {
            return Err(
                DownloadError(
                    text::cat5(
                        "a download is already in progress (\"",
                        run.status.filename.as_str(),
                        "\", id \"",
                        run.status.id.as_str(),
                        "\"). Only one download runs at a time — wait for it to finish (poll get_download) or let it fail.",
                    ),
                ),
            );
        }
        let mirror = if entry.mirrors.len() > 0 {
            Some(entry.mirrors[0].clone())
        } else {
            None
        };
        let status = DownloadStatus {
            id: entry.id.clone(),
            name: entry.name.clone(),
            filename: entry.filename.clone(),
            state: DownloadState::Downloading,
            bytes_downloaded: 0,
            total_bytes: None,
            percent: None,
            mirror,
            mirror_index: 0,
            mirrors_total: entry.mirrors.len(),
            path: None,
            error: None,
        };
        let mirrors = text::clone_strings(&entry.mirrors);
        let initial = status.clone();
        self.active = Some(Run { status, mirrors, dest, phase: Phase::Claimed });
        Ok(initial)
    }

    /// Note the total size that the mirror gave, if any.
    pub fn on_total(&mut self, total: Option<u64>)
        requires
            old(self)@.valid(),
            old(self)@.active is Some,
        ensures
            final(self)@.valid(),
            final(self)@ == (ManagerModel {
                active: Some(
                    RunText {
                        status: StatusText {
                            total_bytes: total,
                            ..old(self)@.active->0.status
                        },
                        ..old(self)@.active->0
                    },
                ),
                ..old(self)@
            }),
    {
        if let Some(mut run) = self.active.take() {
            run.status.total_bytes = total;
            self.active = Some(run);
        }
    }

    /// Note how many bytes were written.
    pub fn on_progress(&mut self, downloaded: u64)
        requires
            old(self)@.valid(),
            old(self)@.active is Some,
        ensures
            final(self)@.valid(),
            final(self)@ == (ManagerModel {
                active: Some(
                    RunText {
                        status: old(self)@.active->0.status.progressed(downloaded),
                        ..old(self)@.active->0
                    },
                ),
                ..old(self)@
            }),
    {
        if let Some(mut run) = self.active.take() {
            run.status.bytes_downloaded = downloaded;
            if let Some(total) = run.status.total_bytes {
                if total > 0 {
                    run.status.percent = Some(percent(downloaded, total));
                }
            }
            self.active = Some(run);
        }
    }

    /// Take note of what happened to the active download, and say what it does next. Ending
    /// it, either way, frees the slot.
    pub fn advance(&mut self, event: DownloadEvent) -> (r: DownloadAction)
        requires
            old(self)@.valid(),
            old(self)@.active matches Some(run) && can_happen(run.phase, event),
        ensures
            final(self)@.valid(),
            final(self)@ == after_event(old(self)@, event),
            leads_to(old(self)@, event, r),
    {
        let mut run = match self.active.take() {
            Some(run) => run,
            None => return DownloadAction::End { temp: String::new(), discard: false },
        };
        let temp = temp_path_for(run.dest.as_str());
        match event {
            DownloadEvent::Begun => {
                if run.mirrors.len() == 0 {
                    self.fail(run, "no mirrors were configured for this entry");
                    DownloadAction::End { temp, discard: true }
                } else {
                    let url = run.mirrors[0].clone();
                    self.attempt(run, 0);
                    DownloadAction::Fetch { url, temp, discard: true }
                }
            },
            DownloadEvent::Fetched => {
                let dest = run.dest.clone();
                run.phase = Phase::Renaming;
                self.active = Some(run);
                DownloadAction::Rename { temp, dest }
            },
            DownloadEvent::FetchFailed(e) => {
                let i = run.status.mirror_index;
                if i + 1 < run.mirrors.len() {
                    let url = run.mirrors[i + 1].clone();
                    self.attempt(run, i + 1);
                    DownloadAction::Fetch { url, temp, discard: true }
                } else {
                    self.fail(run, e.0.as_str());
                    DownloadAction::End { temp, discard: true }
                }
            },
            DownloadEvent::Renamed => {
                run.status.state = DownloadState::Completed;
                run.status.path = Some(run.dest.clone());
                if run.status.total_bytes.is_some() {
                    run.status.percent = Some(100);
                }
                self.last = Some(run.status);
                DownloadAction::End { temp, discard: false }
            },
            DownloadEvent::RenameFailed(why) => {
                let m = text::cat4("failed to finalize ", run.dest.as_str(), ": ", why.as_str());
                self.fail(run, m.as_str());
                DownloadAction::End { temp, discard: true }
            },
        }
    }

    fn attempt(&mut self, run: Run, i: usize)
        requires
            i < run.mirrors@.len(),
        ensures
            final(self)@ == (ManagerModel { active: Some(run_text(run)), ..old(self)@ }).fetching(
                i as nat,
            ),
    {
        let mut run = run;
        let url = run.mirrors[i].clone();
        run.status.mirror = Some(url);
        run.status.mirror_index = i;
        run.status.bytes_downloaded = 0;
        run.status.total_bytes = None;
        run.status.percent = None;
        run.phase = Phase::Fetching;
        self.active = Some(run);
    }

    fn fail(&mut self, run: Run, why: &str)
        ensures
            final(self)@ == old(self)@.finished(run.status@.failed(why@)),
    {
        let mut status = run.status;
        status.state = DownloadState::Failed;
        status.error = Some(why.to_string());
        self.active = None;
        self.last = Some(status);
    }
}

// ---------------------------------------------------------------------------
// Laws
// ---------------------------------------------------------------------------

/// Downloads are append-only: a request whose target is already in the Store never starts.
pub proof fn present_files_are_never_overwritten(
    m: ManagerModel,
    id: Seq<char>,
    snapshot: StoreSnapshot,
)
    requires
        start_outcome(m, id, snapshot) is Ok,
    ensures
        catalog::entry_of(m.catalog.entries@, id) matches Some(entry) && snapshot.at(
            entry.filename@,
        ) is None,
{
}

/// Only one download runs at a time: a request never starts while another is active, and
/// never where downloading is off.
pub proof fn downloads_run_one_at_a_time(m: ManagerModel, id: Seq<char>, snapshot: StoreSnapshot)
    requires
        start_outcome(m, id, snapshot) is Ok,
    ensures
        m.active is None,
        m.allowed,
{
}

/// The target of a download lies directly in the real directory of the Store.
pub proof fn downloads_land_in_the_store(m: ManagerModel, id: Seq<char>, snapshot: StoreSnapshot)
    requires
        start_outcome(m, id, snapshot) is Ok,
    ensures
        snapshot.real_dir matches Some(dir) && catalog::entry_of(
            m.catalog.entries@,
            id,
        ) matches Some(entry) && start_outcome(m, id, snapshot)->Ok_0.dest
            == crate::config::path_join(dir@, entry.filename@),
{
}

/// A download that ends always frees the slot and leaves its outcome behind, and it leaves
/// a temporary file behind in no case: it was renamed, or is removed.
pub proof fn ended_downloads_free_the_slot(
    m: ManagerModel,
    event: DownloadEvent,
    action: DownloadAction,
)
    requires
        m.valid(),
        m.active matches Some(run) && can_happen(run.phase, event),
        leads_to(m, event, action),
        action is End,
    ensures
        after_event(m, event).active is None,
        after_event(m, event).last matches Some(s) && (s.state == DownloadState::Completed
            || s.state == DownloadState::Failed) && (s.state == DownloadState::Completed
            <==> event is Renamed),
        action matches DownloadAction::End { discard, .. } && (discard || event is Renamed),
{
}

/// The mirrors are tried in order, each at most once: while a download goes on, a failed
/// mirror is followed by the next one.
pub proof fn mirrors_are_tried_in_order(m: ManagerModel, e: FetchError)
    requires
        m.valid(),
        m.active matches Some(run) && run.phase == Phase::Fetching,
    ensures
        match after_event(m, DownloadEvent::FetchFailed(e)).active {
            Some(next) => next.status.mirror_index == m.active->0.status.mirror_index + 1
                && next.mirrors == m.active->0.mirrors,
            None => m.active->0.status.mirror_index + 1 == m.active->0.mirrors.len(),
        },
{
}

/// The percentage never exceeds a hundred.
pub proof fn percentages_are_bounded(done: u64, total: u64)
    requires
        total > 0,
    ensures
        percent_of(done, total) <= 100,
{
    if done < total {
        assert(done as nat * 100 / (total as nat) <= 100) by (nonlinear_arith)
            requires
                done < total,
                total > 0,
        ;
    }
}

/// What is fetched is the mirror that the status names, at the position that the status
/// gives: the first one when the download begins, and after each failure the one that follows.
/// So no mirror is skipped, and none is fetched twice.
pub proof fn fetches_follow_the_mirrors(
    m: ManagerModel,
    event: DownloadEvent,
    action: DownloadAction,
)
    requires
        m.valid(),
        m.active matches Some(run) && can_happen(run.phase, event),
        leads_to(m, event, action),
    ensures
        action matches DownloadAction::Fetch { url, .. } ==> {
            let run = m.active->0;
            let k = if event is Begun {
                0
            } else {
                run.status.mirror_index + 1
            };
            &&& event is Begun || event is FetchFailed
            &&& k < run.mirrors.len()
            &&& url@ == run.mirrors[k as int]
            &&& after_event(m, event).active matches Some(next) && next.status.mirror_index == k
                && next.status.mirror == Some(url@) && next.mirrors == run.mirrors && next.phase
                == Phase::Fetching && next.dest == run.dest
        },
        event is Begun && m.active->0.mirrors.len() > 0 ==> action is Fetch,
        event is FetchFailed && m.active->0.status.mirror_index + 1 < m.active->0.mirrors.len()
            ==> action is Fetch,
{
}

/// The failures of mirrors, one after another.
pub open spec fn after_failures(m: ManagerModel, failures: Seq<FetchError>) -> ManagerModel
    decreases failures.len(),
{
    if failures.len() == 0 {
        m
    } else {
        after_event(
            after_failures(m, failures.drop_last()),
            DownloadEvent::FetchFailed(failures.last()),
        )
    }
}

/// After `k` failed mirrors the one at position `k` is being fetched, with nothing counted of
/// what the others gave. Once all have failed the download has failed, with the last reason.
pub proof fn every_mirror_is_tried_once(m: ManagerModel, failures: Seq<FetchError>)
    requires
        m.active matches Some(run) && run.valid() && run.phase == Phase::Claimed
            && run.mirrors.len() > 0 && failures.len() <= run.mirrors.len(),
    ensures
        ({
            let run = m.active->0;
            let now = after_failures(after_event(m, DownloadEvent::Begun), failures);
            if failures.len() < run.mirrors.len() {
                &&& now.active matches Some(next) && next.mirrors == run.mirrors && next.dest
                    == run.dest && next.phase == Phase::Fetching && next.status.mirror_index
                    == failures.len() && next.status.mirror == Some(
                    run.mirrors[failures.len() as int],
                ) && next.status.bytes_downloaded == 0 && next.status.total_bytes is None
                    && next.status.percent is None && next.status.mirrors_total
                    == run.mirrors.len() && next.valid()
                &&& now.last == m.last
            } else {
                &&& now.active is None
                &&& now.last matches Some(s) && s.state == DownloadState::Failed && s.error == Some(
                    failures.last().0@,
                )
            }
        }),
    decreases failures.len(),
{
    if failures.len() > 0 {
        every_mirror_is_tried_once(m, failures.drop_last());
    }
}

/// A fetched image is renamed from beside its final path onto it, and is then reported there
/// as complete. The temporary file is the final path with a suffix.
pub proof fn fetched_images_are_renamed(
    m: ManagerModel,
    action: DownloadAction,
    done: DownloadAction,
)
    requires
        m.active matches Some(run) && run.valid() && run.phase == Phase::Fetching,
        leads_to(m, DownloadEvent::Fetched, action),
        leads_to(after_event(m, DownloadEvent::Fetched), DownloadEvent::Renamed, done),
    ensures
        ({
            let run = m.active->0;
            let end = after_event(after_event(m, DownloadEvent::Fetched), DownloadEvent::Renamed);
            &&& action matches DownloadAction::Rename { temp, dest } && dest@ == run.dest && temp@
                == run.dest + ".part"@
            &&& done matches DownloadAction::End { discard, .. } && !discard
            &&& end.active is None
            &&& end.last matches Some(s) && s.state == DownloadState::Completed && s.path == Some(
                run.dest,
            ) && s.bytes_downloaded == run.status.bytes_downloaded && s.mirror == run.status.mirror
                && s.mirror_index == run.status.mirror_index && s.id == run.status.id && s.filename
                == run.status.filename && s.total_bytes == run.status.total_bytes && (
            run.status.total_bytes is Some ==> s.percent == Some(100u32)) && s.error
                == run.status.error
        }),
{
}

/// A download that fails keeps what it is a download of, has no path, and gives the reason: of
/// the last mirror, or that the image could not be renamed onto its path.
pub proof fn failures_are_reported(m: ManagerModel, event: DownloadEvent)
    requires
        m.active matches Some(run) && run.valid() && can_happen(run.phase, event),
        after_event(m, event).active is None,
        !(event is Renamed),
    ensures
        after_event(m, event).last matches Some(s) && s.state == DownloadState::Failed && s.error
            is Some && s.path == m.active->0.status.path && s.id == m.active->0.status.id && s.name
            == m.active->0.status.name && s.filename == m.active->0.status.filename,
        event matches DownloadEvent::FetchFailed(e) ==> after_event(m, event).last->0.error == Some(
            e.0@,
        ),
        event matches DownloadEvent::RenameFailed(why) ==> text::has_infix(
            after_event(m, event).last->0.error->0,
            why@,
        ) && text::has_infix(after_event(m, event).last->0.error->0, m.active->0.dest),
        after_event(m, event).iso_dir == m.iso_dir,
        after_event(m, event).allowed == m.allowed,
        after_event(m, event).catalog == m.catalog,
{
    let dest = m.active->0.dest;
    if let DownloadEvent::RenameFailed(why) = event {
        let e = finalize_text(dest, why@);
        assert(e =~= "failed to finalize "@ + dest + (": "@ + why@));
        text::parts_are_found("failed to finalize "@, dest, ": "@ + why@, e);
        let front = "failed to finalize "@ + dest + ": "@;
        assert(e =~= front + why@ + Seq::<char>::empty());
        text::parts_are_found(front, why@, Seq::empty(), e);
    }
}

/// The percentage is the whole part of the hundredfold share, and a hundred once all is there.
pub proof fn percentages_are_whole_shares(done: u64, total: u64)
    requires
        total > 0,
    ensures
        done >= total ==> percent_of(done, total) == 100,
        done < total ==> percent_of(done, total) * total <= done * 100 < (percent_of(done, total)
            + 1) * total,
{
    if done < total {
        let q = done as nat * 100 / (total as nat);
        assert(q <= 100 && q * total <= done * 100 < (q + 1) * total) by (nonlinear_arith)
            requires
                q == done as nat * 100 / (total as nat),
                done < total,
                total > 0,
        ;
    }
}

/// Progress is what was written last, with its share where the size is known; nothing else
/// changes.
pub proof fn progress_is_what_was_written(s: StatusText, done: u64)
    ensures
        s.progressed(done).bytes_downloaded == done,
        s.total_bytes matches Some(total) && total > 0 ==> s.progressed(done).percent == Some(
            percent_of(done, s.total_bytes->0),
        ),
        s.total_bytes is None ==> s.progressed(done).percent == s.percent,
        s.progressed(done).total_bytes == s.total_bytes,
        s.progressed(done).state == s.state,
        s.progressed(done).mirror == s.mirror,
        s.progressed(done).mirror_index == s.mirror_index,
        s.progressed(done).path == s.path,
        s.progressed(done).error == s.error,
        s.progressed(done).id == s.id,
        s.progressed(done).name == s.name,
        s.progressed(done).filename == s.filename,
        s.progressed(done).mirrors_total == s.mirrors_total,
{
}

/// A request starts where downloading is on, the slot is free, the catalog has the id, and the
/// image's name resolves in the ISO Store and is not taken there: then, and only then. The
/// download is of the entry with that id, from its mirrors in their order.
pub proof fn requests_start_what_they_name(m: ManagerModel, id: Seq<char>, snapshot: StoreSnapshot)
    ensures
        ({
            let found = catalog::entry_of(m.catalog.entries@, id);
            let outcome = start_outcome(m, id, snapshot);
            &&& outcome is Ok <==> {
                &&& m.allowed
                &&& m.active is None
                &&& found matches Some(entry) && store_path::resolution(
                    entry.filename@,
                    m.iso_dir,
                    iso_store::iso_wording(),
                    snapshot,
                ) is Ok && snapshot.at(entry.filename@) is None
            }
            &&& outcome matches Ok(run) ==> found matches Some(entry) && {
                &&& run.phase == Phase::Claimed
                &&& run.mirrors.len() == entry.mirrors@.len()
                &&& forall|i: int|
                    0 <= i < entry.mirrors@.len() ==> #[trigger] run.mirrors[i]
                        == entry.mirrors@[i]@
                &&& run.status.id == entry.id@
                &&& run.status.name == entry.name@
                &&& run.status.filename == entry.filename@
                &&& run.status.state == DownloadState::Downloading
                &&& run.status.bytes_downloaded == 0
                &&& run.status.total_bytes is None
                &&& run.status.percent is None
                &&& run.status.mirror_index == 0
                &&& run.status.mirrors_total == entry.mirrors@.len()
                &&& run.status.path is None
                &&& run.status.error is None
                &&& entry.mirrors@.len() > 0 ==> run.status.mirror == Some(entry.mirrors@[0]@)
            }
        }),
{
}

/// A download goes from claimed to fetching to renaming, and no event but those of its phase
/// can happen to it.
pub proof fn downloads_go_through_their_phases(phase: Phase, event: DownloadEvent)
    ensures
        can_happen(phase, event) <==> ((phase == Phase::Claimed && event is Begun) || (phase
            == Phase::Fetching && (event is Fetched || event is FetchFailed)) || (phase
            == Phase::Renaming && (event is Renamed || event is RenameFailed))),
{
}

/// What a status says is what its fields hold.
pub proof fn statuses_are_seen_whole(s: DownloadStatus)
    ensures
        s@.id == s.id@,
        s@.name == s.name@,
        s@.filename == s.filename@,
        s@.state == s.state,
        s@.bytes_downloaded == s.bytes_downloaded,
        s@.total_bytes == s.total_bytes,
        s@.percent == s.percent,
        s@.mirror == text::string_of(s.mirror),
        s@.mirror_index == s.mirror_index,
        s@.mirrors_total == s.mirrors_total,
        s@.path == text::string_of(s.path),
        s@.error == text::string_of(s.error),
        status_of(Some(s)) == Some(s@),
{
}

/// A page is told from an image by its type: `text/html` in any letter case, white space before it
/// aside, whatever parameters follow.
pub proof fn pages_are_told_by_their_type(t: Seq<char>, c: char)
    ensures
        t.len() > 0 && !text::is_white_space(t[0]) ==> (is_html(t)
            <==> "text/html"@.is_prefix_of(text::ascii_lower(t))),
        text::is_white_space(c) ==> is_html(seq![c] + t) == is_html(t),
        !is_html(Seq::empty()),
{
    reveal_strlit("text/html");
    let p = "text/html"@;
    let l = text::ascii_lower(t);
    if t.len() > 0 && !text::is_white_space(t[0]) {
        assert(text::trim_start(t) == t);
        if p.len() <= l.len() {
            assert(l.take(p.len() as int) =~= l.subrange(0, p.len() as int));
        }
    }
    if text::is_white_space(c) {
        let s = seq![c] + t;
        assert(s[0] == c);
        assert(s.skip(1) =~= t);
        assert(text::trim_start(s) == text::trim_start(t));
    }
    assert(text::trim_start(Seq::empty()) =~= Seq::empty());
}

/// What went wrong with a fetch is said with the address or the file that it is about.
pub proof fn troubles_say_what_they_are_about(url: Seq<char>, dest: Seq<char>, e: String)
    ensures
        trouble_text(url, dest, FetchTrouble::Request(e)) == "request to "@ + url + " failed: "@
            + e@,
        trouble_text(url, dest, FetchTrouble::Status(e)) == url + " returned an error status: "@
            + e@,
        trouble_text(url, dest, FetchTrouble::Create(e)) == "cannot create "@ + dest + ": "@ + e@,
        trouble_text(url, dest, FetchTrouble::Stalled) == url + " stalled (no data for "@
            + text::decimal(60) + "s)"@,
        trouble_text(url, dest, FetchTrouble::Write(e)) == "write to "@ + dest + " failed: "@ + e@,
        trouble_text(url, dest, FetchTrouble::Transfer(e)) == "download from "@ + url
            + " failed: "@ + e@,
        trouble_text(url, dest, FetchTrouble::Flush(e)) == "flush "@ + dest + " failed: "@ + e@,
{
}

/// Every fetch goes to the temporary file beside the target, and what an earlier one left there is
/// thrown away first. It is thrown away at the end too, unless it has become the target.
pub proof fn temporary_files_are_thrown_away(
    m: ManagerModel,
    event: DownloadEvent,
    action: DownloadAction,
)
    requires
        m.valid(),
        m.active matches Some(run) && can_happen(run.phase, event),
        leads_to(m, event, action),
    ensures
        action matches DownloadAction::Fetch { temp, discard, .. } ==> temp@ == m.active->0.dest
            + ".part"@ && discard,
        action matches DownloadAction::Rename { temp, dest } ==> temp@ == m.active->0.dest
            + ".part"@ && dest@ == m.active->0.dest,
        action matches DownloadAction::End { temp, discard } ==> temp@ == m.active->0.dest
            + ".part"@ && (discard <==> !(event is Renamed)),
        action is Rename <==> event is Fetched,
        event is Renamed || event is RenameFailed ==> action is End,
        event is Begun && m.active->0.mirrors.len() == 0 ==> action is End,
        event is FetchFailed && m.active->0.status.mirror_index + 1 == m.active->0.mirrors.len()
            ==> action is End,
{
}

/// A download that has no mirrors fails with that. One that completes is at a hundred percent
/// where its size was known, and as it was otherwise.
pub proof fn ends_are_reported(m: ManagerModel)
    requires
        m.active is Some,
    ensures
        m.active->0.mirrors.len() == 0 ==> (after_event(m, DownloadEvent::Begun).last matches Some(
            s,
        ) && s.error == Some("no mirrors were configured for this entry"@) && s.state
            == DownloadState::Failed),
        after_event(m, DownloadEvent::Renamed).last matches Some(s) && s.percent == (
        if m.active->0.status.total_bytes is Some {
            Some(100u32)
        } else {
            m.active->0.status.percent
        }) && s.name == m.active->0.status.name && s.mirrors_total
            == m.active->0.status.mirrors_total,
        m.active->0.status.total_bytes == Some(0u64) ==> m.active->0.status.progressed(0).percent
            == m.active->0.status.percent,
{
}

/// A request is refused because downloading is off, or else because no entry has the id, or else
/// because the file has no place in the store, or else because it is there already, or else
/// because another download runs. The refusal names the id, the file, or the other download.
pub proof fn requests_are_refused_for_what_is_in_the_way(
    m: ManagerModel,
    id: Seq<char>,
    snapshot: StoreSnapshot,
)
    ensures
        ({
            let r = start_outcome(m, id, snapshot);
            let refused = |t: Seq<char>| r == Err::<RunText, Seq<char>>(t);
            let found = catalog::entry_of(m.catalog.entries@, id);
            let file = found->0.filename@;
            let place = store_path::resolution(file, m.iso_dir, iso_store::iso_wording(), snapshot);
            &&& !m.allowed ==> refused(
                "Downloading is disabled. Set QMP_MCP_ALLOW_DOWNLOAD=true to enable download_iso (it fetches an OS image over the network into the ISO Store)."@,
            )
            &&& m.allowed && found is None ==> refused(
                "unknown ISO id \""@ + id + "\". Use list_iso_catalog to see the available ids ("@
                    + text::joined(catalog::ids(m.catalog.entries@), ", "@) + ")."@,
            )
            &&& m.allowed && found is Some && place is Err ==> refused(place->Err_0)
            &&& m.allowed && found is Some && place is Ok && snapshot.at(file) is Some ==> refused(
                "\""@ + file
                    + "\" is already present in the ISO Store; downloading would overwrite it. Delete it first, or it is already available (see list_isos)."@,
            )
            &&& m.allowed && found is Some && place is Ok && snapshot.at(file) is None && m.active
                is Some ==> refused(
                "a download is already in progress (\""@ + m.active->0.status.filename
                    + "\", id \""@ + m.active->0.status.id
                    + "\"). Only one download runs at a time — wait for it to finish (poll get_download) or let it fail."@,
            )
            &&& r matches Ok(run) ==> run.dest == place->Ok_0
        }),
{
}

/// A run is in order exactly where it is still downloading, its status counts its mirrors, and it
/// is at one of them once it has begun. A manager is where its run is, if it has one.
pub proof fn runs_are_at_one_of_their_mirrors(run: RunText, m: ManagerModel)
    ensures
        run.valid() <==> run.status.state == DownloadState::Downloading && run.status.mirrors_total
            == run.mirrors.len() && (run.phase == Phase::Fetching || run.phase == Phase::Renaming
            ==> run.status.mirror_index < run.mirrors.len()),
        m.valid() <==> m.active is None || m.active->0.valid(),
{
}

/// A download of an entry without mirrors names none at first.
pub proof fn entries_without_mirrors_name_none(entry: catalog::CatalogEntry)
    ensures
        initial_status(entry).mirror is None <==> entry.mirrors@.len() == 0,
        entry.mirrors@.len() > 0 ==> initial_status(entry).mirror == Some(entry.mirrors@[0]@),
{
}

} // verus!
