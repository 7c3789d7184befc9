//! Synchronisation with the hub: checking, pulling, publishing, signing in and
//! linking. The requests themselves are made elsewhere; here is what is asked
//! for next and what each answer does to the window.

use vstd::prelude::*;

use crate::document;
use crate::state::{DocPath, Spreadsheet};
use crate::text;

verus! {

/// How the file stands to its remote dataset.
#[derive(Debug, Clone, Copy, PartialEq, Eq, Structural)]
pub enum HubStatus {
    Unlinked,
    Idle,
    Ahead,
    Behind,
    Diverged,
    Syncing,
    Offline,
    Forbidden,
}

/// What a synchronisation is busy with.
#[derive(Debug, Clone, Copy, PartialEq, Eq, Structural)]
pub enum HubActivity {
    Checking,
    Downloading,
    Verifying,
    Writing,
    Reloading,
    Uploading,
    Finalizing,
}

/// The dataset that a file is linked to.
#[derive(Debug, PartialEq, Eq)]
pub struct HubLink {
    pub repo_owner: String,
    pub repo_slug: String,
    pub dataset_id: String,
    pub local_head_id: Option<String>,
    pub local_head_hash: Option<String>,
    pub link_mode: String,
    pub linked_at: String,
    pub api_base: String,
}

impl Clone for HubLink {
    fn clone(&self) -> (r: HubLink)
        ensures
            r == *self,
    {
        HubLink {
            repo_owner: self.repo_owner.clone(),
            repo_slug: self.repo_slug.clone(),
            dataset_id: self.dataset_id.clone(),
            local_head_id: document::clone_text(&self.local_head_id),
            local_head_hash: document::clone_text(&self.local_head_hash),
            link_mode: self.link_mode.clone(),
            linked_at: self.linked_at.clone(),
            api_base: self.api_base.clone(),
        }
    }
}

#[derive(Debug, PartialEq, Eq)]
pub struct RepoInfo {
    pub owner: String,
    pub slug: String,
}

#[derive(Debug, PartialEq, Eq)]
pub struct DatasetInfo {
    pub id: String,
    pub name: String,
}

/// The hub part of a window.
#[derive(Debug, PartialEq, Eq)]
pub struct HubState {
    pub link: Option<HubLink>,
    pub status: HubStatus,
    pub activity: Option<HubActivity>,
    pub last_error: Option<String>,
    pub check_in_progress: bool,
    pub token_input: String,
    pub repos: Vec<RepoInfo>,
    pub selected_repo: Option<usize>,
    pub datasets: Vec<DatasetInfo>,
    pub selected_dataset: Option<usize>,
    pub new_dataset_name: String,
    pub link_loading: bool,
}

/// What the hub says of a dataset.
#[derive(Debug, PartialEq, Eq)]
pub struct RemoteStatus {
    pub current_revision_id: Option<String>,
    pub content_hash: Option<String>,
}

/// A transfer from the hub that is under way: into the open file, or into a
/// copy beside it.
#[derive(Debug, PartialEq, Eq)]
pub struct HubTransfer {
    pub as_copy: bool,
    pub path: DocPath,
    pub link: HubLink,
    pub revision_id: String,
    pub expected_hash: Option<String>,
}

/// What has to be done next.
#[derive(Debug, PartialEq, Eq)]
pub enum HubStep {
    /// Nothing: the operation is over.
    Stop,
    /// Ask the hub how the linked dataset stands.
    FetchStatus(HubTransfer),
    /// Download the revision of the transfer.
    Download(HubTransfer),
    /// Write the downloaded bytes.
    Write(HubTransfer),
    /// Save the link with the new head beside the written file.
    SaveLink(HubTransfer, HubLink),
    /// Load the written file.
    Reload(HubTransfer, HubLink),
}

/// The hub part of a new window.
pub open spec fn no_hub(h: HubState) -> bool {
    &&& h.link is None && h.status == HubStatus::Unlinked && h.activity is None
    &&& h.last_error is None && !h.check_in_progress
    &&& h.token_input@.len() == 0 && h.repos@.len() == 0 && h.selected_repo is None
    &&& h.datasets@.len() == 0 && h.selected_dataset is None
    &&& h.new_dataset_name@.len() == 0 && !h.link_loading
}

impl HubState {
    pub fn new() -> (h: HubState)
        ensures
            no_hub(h),
    {
        HubState {
            link: None,
            status: HubStatus::Unlinked,
            activity: None,
            last_error: None,
            check_in_progress: false,
            token_input: String::new(),
            repos: Vec::new(),
            selected_repo: None,
            datasets: Vec::new(),
            selected_dataset: None,
            new_dataset_name: String::new(),
            link_loading: false,
        }
    }
}

/// Only the status bar changed, and it says `m`.
pub open spec fn only_says(old: Spreadsheet, new: Spreadsheet, m: Seq<char>) -> bool {
    &&& new == (Spreadsheet { status_message: new.status_message, ..old })
    &&& text::opt_text(new.status_message) == Some(m)
}

/// The hub status, activity and last error are these, the status bar says `m`,
/// and nothing else changed.
pub open spec fn hub_says(
    old: Spreadsheet,
    new: Spreadsheet,
    status: HubStatus,
    activity: Option<HubActivity>,
    error: Option<Seq<char>>,
    m: Seq<char>,
) -> bool {
    &&& new == (Spreadsheet { status_message: new.status_message, hub: new.hub, ..old })
    &&& new.hub == (HubState { status, activity, last_error: new.hub.last_error, ..old.hub })
    &&& text::opt_text(new.hub.last_error) == error
    &&& text::opt_text(new.status_message) == Some(m)
}

/// Only the hub status, activity and last error changed.
pub open spec fn hub_moves(
    old: Spreadsheet,
    new: Spreadsheet,
    status: HubStatus,
    activity: Option<HubActivity>,
    error: Option<Seq<char>>,
) -> bool {
    &&& new == (Spreadsheet { hub: new.hub, ..old })
    &&& new.hub == (HubState { status, activity, last_error: new.hub.last_error, ..old.hub })
    &&& text::opt_text(new.hub.last_error) == error
}

impl Spreadsheet {
    fn hub_fail(&mut self, status: HubStatus, error: &str, message: &str, detail: &str)
        ensures
            hub_says(*old(self), *final(self), status, None, Some(error@), message@ + detail@),
    {
        self.hub.status = status;
        self.hub.activity = None;
        self.hub.last_error = Some(text::lit(error));
        self.status_message = Some(text::cat(message, detail));
    }

    /// Start to open the remote version as a copy beside the file. The file
    /// itself is never touched.
    pub fn hub_open_remote_as_copy(&mut self, signed_in: bool) -> (step: HubStep)
        ensures
            copy_started(*old(self), *final(self), signed_in, step),
    {
        let path = match &self.file.current_file {
            Some(p) => p.clone(),
            None => {
                self.say("No file open");
                return HubStep::Stop;
            },
        };
        let link = match &self.hub.link {
            Some(l) => l.clone(),
            None => {
                self.say("Not linked to a repository");
                return HubStep::Stop;
            },
        };
        if !signed_in {
            self.hub.last_error = Some(text::lit("Not authenticated"));
            self.say("Not signed in");
            return HubStep::Stop;
        }
        self.hub.status = HubStatus::Syncing;
        self.hub.activity = Some(HubActivity::Checking);
        self.hub.last_error = None;
        HubStep::FetchStatus(
            HubTransfer { as_copy: true, path, link, revision_id: String::new(), expected_hash: None },
        )
    }

    /// Start to pull the latest version into the open file. `can_pull` is
    /// whether the hub status allows it, `local_hash` the hash of the file on
    /// disk and whether it matches the linked head, or why it has none. A file
    /// with changes of its own is never overwritten: the remote version opens
    /// as a copy instead.
    pub fn hub_pull(
        &mut self,
        can_pull: bool,
        local_hash: &Result<bool, String>,
        signed_in: bool,
    ) -> (step: HubStep)
        ensures
            pull_started(*old(self), *final(self), can_pull, *local_hash, signed_in, step),
    {
        if !can_pull {
            self.say("No updates available");
            return HubStep::Stop;
        }
        let path = match &self.file.current_file {
            Some(p) => p.clone(),
            None => {
                return HubStep::Stop;
            },
        };
        let link = match &self.hub.link {
            Some(l) => l.clone(),
            None => {
                return HubStep::Stop;
            },
        };
        let matches_head = match local_hash {
            Ok(m) => *m,
            Err(e) => {
                self.hub.last_error = Some(e.clone());
                self.say_with("Cannot verify local state: ", e.as_str());
                return HubStep::Stop;
            },
        };
        if link.local_head_hash.is_none() || !matches_head {
            self.say("Local changes detected. Opening remote as copy...");
            return self.hub_open_remote_as_copy(signed_in);
        }
        if !signed_in {
            self.hub.last_error = Some(text::lit("Not authenticated"));
            self.say("Not signed in");
            return HubStep::Stop;
        }
        self.hub.status = HubStatus::Syncing;
        self.hub.activity = Some(HubActivity::Checking);
        self.hub.last_error = None;
        HubStep::FetchStatus(
            HubTransfer { as_copy: false, path, link, revision_id: String::new(), expected_hash: None },
        )
    }

    /// The hub has answered how the dataset stands.
    pub fn hub_status_fetched(
        &mut self,
        transfer: HubTransfer,
        answer: &Result<RemoteStatus, String>,
    ) -> (step: HubStep)
        ensures
            status_fetched(*old(self), *final(self), transfer, *answer, step),
    {
        match answer {
            Err(e) => {
                self.hub_fail(HubStatus::Offline, e.as_str(), "Failed to get status: ", e.as_str());
                HubStep::Stop
            },
            Ok(s) => match &s.current_revision_id {
                None => {
                    self.hub.activity = None;
                    self.say("No revisions available");
                    HubStep::Stop
                },
                Some(id) => {
                    self.hub.activity = Some(HubActivity::Downloading);
                    HubStep::Download(
                        HubTransfer {
                            as_copy: transfer.as_copy,
                            path: transfer.path,
                            link: transfer.link,
                            revision_id: id.clone(),
                            expected_hash: document::clone_text(&s.content_hash),
                        },
                    )
                },
            },
        }
    }

    /// The download is over. `intact` is whether the hash of the bytes matches
    /// the expected one; where none was expected it is not looked at. Bytes
    /// that are not intact are never written.
    pub fn hub_downloaded(
        &mut self,
        transfer: HubTransfer,
        download: &Result<(), String>,
        intact: bool,
    ) -> (step: HubStep)
        ensures
            revision_downloaded(*old(self), *final(self), transfer, *download, intact, step),
    {
        match download {
            Err(e) => {
                self.hub_fail(HubStatus::Offline, e.as_str(), "Download failed: ", e.as_str());
                HubStep::Stop
            },
            Ok(_) => {
                self.hub.activity = Some(HubActivity::Verifying);
                if transfer.expected_hash.is_some() && !intact {
                    self.hub.status = HubStatus::Offline;
                    self.hub.activity = None;
                    self.hub.last_error = Some(text::lit("Hash mismatch"));
                    self.say("Download failed integrity check. Please retry.");
                    return HubStep::Stop;
                }
                self.hub.activity = Some(HubActivity::Writing);
                HubStep::Write(transfer)
            },
        }
    }

    /// The bytes were written, with `actual_hash`, or could not be: `renaming`
    /// is whether it was putting the written file in place that failed.
    pub fn hub_written(
        &mut self,
        transfer: HubTransfer,
        written: &Result<(), String>,
        renaming: bool,
        actual_hash: &str,
    ) -> (step: HubStep)
        ensures
            revision_written(*old(self), *final(self), transfer, *written, renaming, actual_hash@, step),
    {
        match written {
            Err(e) => {
                let message = if renaming {
                    "Save failed: "
                } else {
                    "Write failed: "
                };
                let status = self.hub.status;
                self.hub_fail(status, e.as_str(), message, e.as_str());
                HubStep::Stop
            },
            Ok(_) => {
                let link = moved_link(&transfer.link, transfer.revision_id.as_str(), actual_hash);
                HubStep::SaveLink(transfer, link)
            },
        }
    }

    /// The link was saved, or could not be. In a copy that is a warning, since
    /// the file is there; in place it ends the pull.
    pub fn hub_link_saved(
        &mut self,
        transfer: HubTransfer,
        link: HubLink,
        saved: &Result<(), String>,
    ) -> (step: HubStep)
        ensures
            new_head_saved(*old(self), *final(self), transfer, link, *saved, step),
    {
        match saved {
            Ok(_) => {},
            Err(e) => {
                if transfer.as_copy {
                    self.say_with("Warning: could not update link: ", e.as_str());
                } else {
                    self.hub.last_error = Some(e.clone());
                    self.say_with("Failed to update link: ", e.as_str());
                    return HubStep::Stop;
                }
            },
        }
        self.hub.activity = Some(HubActivity::Reloading);
        HubStep::Reload(transfer, link)
    }

    /// The written file was loaded, or could not be. `written_path` is where
    /// it was written to.
    pub fn hub_reloaded(
        &mut self,
        transfer: HubTransfer,
        link: HubLink,
        written_path: DocPath,
        loaded: &Result<(), String>,
    )
        ensures
            revision_loaded(*old(self), *final(self), transfer, link, written_path, *loaded),
    {
        match loaded {
            Err(e) => {
                let message = if transfer.as_copy {
                    "Failed to open: "
                } else {
                    "Failed to reload: "
                };
                let status = self.hub.status;
                self.hub_fail(status, e.as_str(), message, e.as_str());
            },
            Ok(_) => {
                self.hub.link = Some(link);
                self.hub.status = HubStatus::Idle;
                self.hub.activity = None;
                self.hub.last_error = None;
                self.file.is_modified = false;
                if transfer.as_copy {
                    self.file.meta.display_name = file_name_or(&written_path, "Untitled");
                    self.file.meta.is_saved = true;
                    self.file.meta.path = Some(written_path.clone());
                    self.file.current_file = Some(written_path);
                    self.file.pending_title_refresh = true;
                    self.say("Opened remote copy");
                } else {
                    self.say("Updated from remote");
                }
            },
        }
    }
}

/// The file name of a path, or a stand-in where it has none.
pub open spec fn name_or(p: DocPath, other: Seq<char>) -> Seq<char> {
    match p.file_name {
        Some(n) => n@,
        None => other,
    }
}

pub fn file_name_or(p: &DocPath, other: &str) -> (r: String)
    ensures
        r@ == name_or(*p, other@),
{
    match &p.file_name {
        Some(n) => n.clone(),
        None => text::lit(other),
    }
}

/// `new` is `link` with its head at another revision.
pub open spec fn head_moved(link: HubLink, new: HubLink, id: Seq<char>, hash: Seq<char>) -> bool {
    &&& new == (HubLink {
        local_head_id: new.local_head_id,
        local_head_hash: new.local_head_hash,
        ..link
    })
    &&& text::opt_text(new.local_head_id) == Some(id)
    &&& text::opt_text(new.local_head_hash) == Some(hash)
}

pub fn moved_link(link: &HubLink, id: &str, hash: &str) -> (r: HubLink)
    ensures
        head_moved(*link, r, id@, hash@),
{
    let mut r = link.clone();
    r.local_head_id = Some(text::lit(id));
    r.local_head_hash = Some(text::lit(hash));
    r
}

// ---------------------------------------------------------------------------
// The name of a copy
// ---------------------------------------------------------------------------

/// The names that are tried for a copy, in order: plain first, then numbered
/// from two on.
pub open spec fn copy_name(stem: Seq<char>, attempt: int) -> Seq<char> {
    if attempt == 0 {
        stem + " (from VisiHub).sheet"@
    } else {
        stem + " (from VisiHub) ("@ + text::dec((attempt + 1) as nat) + ").sheet"@
    }
}

pub open spec fn copy_stem(stem: Option<String>) -> Seq<char> {
    match stem {
        Some(s) => s@,
        None => "workbook"@,
    }
}

/// The name that is tried as the `attempt`-th for a copy.
pub fn copy_candidate(stem: &Option<String>, attempt: usize) -> (r: String)
    requires
        attempt < 100,
    ensures
        r@ == copy_name(copy_stem(*stem), attempt as int),
{
    let mut s = match stem {
        Some(s) => s.clone(),
        None => text::lit("workbook"),
    };
    if attempt == 0 {
        s.append(" (from VisiHub).sheet");
        return s;
    }
    s.append(" (from VisiHub) (");
    let n = text::decimal(attempt as u64 + 1);
    s.append(n.as_str());
    s.append(").sheet");
    s
}

/// The name of a copy: the first of a hundred names that is free, or one with
/// the time in it. `taken` says of each name whether a file has it.
pub fn generate_copy_path(stem: &Option<String>, taken: &Vec<bool>, now_secs: u64) -> (r: String)
    requires
        taken@.len() == 100,
    ensures
        copy_path_is(r@, *stem, taken@, now_secs),
{
    let mut i: usize = 0;
    while i < 100
        invariant
            i <= 100,
            taken@.len() == 100,
            forall|j: int| 0 <= j < i ==> #[trigger] taken@[j],
        decreases 100 - i,
    {
        if !taken[i] {
            return copy_candidate(stem, i);
        }
        i = i + 1;
    }
    let mut s = match stem {
        Some(s) => s.clone(),
        None => text::lit("workbook"),
    };
    s.append(" (from VisiHub) ");
    let n = text::decimal(now_secs);
    s.append(n.as_str());
    s.append(".sheet");
    s
}

/// The linked dataset is to be opened as a copy.
pub open spec fn copy_started(
    old: Spreadsheet,
    new: Spreadsheet,
    signed_in: bool,
    step: HubStep,
) -> bool {
    &&& old.file.current_file is None ==> {
        &&& step == HubStep::Stop
        &&& only_says(old, new, "No file open"@)
    }
    &&& old.file.current_file is Some && old.hub.link is None ==> {
        &&& step == HubStep::Stop
        &&& only_says(old, new, "Not linked to a repository"@)
    }
    &&& old.file.current_file is Some && old.hub.link is Some && !signed_in ==> {
        &&& step == HubStep::Stop
        &&& hub_says(
            old,
            new,
            old.hub.status,
            old.hub.activity,
            Some("Not authenticated"@),
            "Not signed in"@,
        )
    }
    &&& old.file.current_file is Some && old.hub.link is Some && signed_in ==> {
        &&& hub_moves(
            old,
            new,
            HubStatus::Syncing,
            Some(HubActivity::Checking),
            None,
        )
        &&& step matches HubStep::FetchStatus(t) && t.as_copy && t.path
            == old.file.current_file->0 && t.link == old.hub.link->0
    }
}

/// The file is to be updated from the linked dataset.
pub open spec fn pull_started(
    old: Spreadsheet,
    new: Spreadsheet,
    can_pull: bool,
    local_hash: Result<bool, String>,
    signed_in: bool,
    step: HubStep,
) -> bool {
    &&& !can_pull ==> {
        &&& step == HubStep::Stop
        &&& only_says(old, new, "No updates available"@)
    }
    &&& can_pull && (old.file.current_file is None || old.hub.link is None) ==> {
        &&& step == HubStep::Stop
        &&& new == old
    }
    &&& can_pull && old.file.current_file is Some && old.hub.link is Some ==> {
        let link = old.hub.link->0;
        let clean = link.local_head_hash is Some && local_hash == Result::<bool, String>::Ok(true);
        &&& local_hash matches Err(e) ==> {
            &&& step == HubStep::Stop
            &&& hub_says(
                old,
                new,
                old.hub.status,
                old.hub.activity,
                Some(e@),
                "Cannot verify local state: "@ + e@,
            )
        }
        &&& local_hash is Ok && !clean && !signed_in ==> {
            &&& step == HubStep::Stop
            &&& hub_says(
                old,
                new,
                old.hub.status,
                old.hub.activity,
                Some("Not authenticated"@),
                "Not signed in"@,
            )
        }
        &&& local_hash is Ok && !clean && signed_in ==> {
            &&& hub_says(
                old,
                new,
                HubStatus::Syncing,
                Some(HubActivity::Checking),
                None,
                "Local changes detected. Opening remote as copy..."@,
            )
            &&& step matches HubStep::FetchStatus(t) && t.as_copy && t.path
                == old.file.current_file->0 && t.link == link
        }
        &&& clean && !signed_in ==> {
            &&& step == HubStep::Stop
            &&& hub_says(
                old,
                new,
                old.hub.status,
                old.hub.activity,
                Some("Not authenticated"@),
                "Not signed in"@,
            )
        }
        &&& clean && signed_in ==> {
            &&& hub_moves(
                old,
                new,
                HubStatus::Syncing,
                Some(HubActivity::Checking),
                None,
            )
            &&& step matches HubStep::FetchStatus(t) && !t.as_copy && t.path
                == old.file.current_file->0 && t.link == link
        }
    }
}

/// The hub was asked how the dataset stands.
pub open spec fn status_fetched(
    old: Spreadsheet,
    new: Spreadsheet,
    transfer: HubTransfer,
    answer: Result<RemoteStatus, String>,
    step: HubStep,
) -> bool {
    &&& match answer {
        Err(e) => step == HubStep::Stop && hub_says(
            old,
            new,
            HubStatus::Offline,
            None,
            Some(e@),
            "Failed to get status: "@ + e@,
        ),
        Ok(s) => match s.current_revision_id {
            None => step == HubStep::Stop && hub_says(
                old,
                new,
                old.hub.status,
                None,
                text::opt_text(old.hub.last_error),
                "No revisions available"@,
            ),
            Some(id) => {
                &&& hub_moves(
                    old,
                    new,
                    old.hub.status,
                    Some(HubActivity::Downloading),
                    text::opt_text(old.hub.last_error),
                )
                &&& step == HubStep::Download(
                    HubTransfer {
                        revision_id: id,
                        expected_hash: s.content_hash,
                        ..transfer
                    },
                )
            },
        },
    }
}

/// A revision was to be downloaded.
pub open spec fn revision_downloaded(
    old: Spreadsheet,
    new: Spreadsheet,
    transfer: HubTransfer,
    download: Result<(), String>,
    intact: bool,
    step: HubStep,
) -> bool {
    &&& match download {
        Err(e) => step == HubStep::Stop && hub_says(
            old,
            new,
            HubStatus::Offline,
            None,
            Some(e@),
            "Download failed: "@ + e@,
        ),
        Ok(_) => if transfer.expected_hash is Some && !intact {
            step == HubStep::Stop && hub_says(
                old,
                new,
                HubStatus::Offline,
                None,
                Some("Hash mismatch"@),
                "Download failed integrity check. Please retry."@,
            )
        } else {
            step == HubStep::Write(transfer) && hub_moves(
                old,
                new,
                old.hub.status,
                Some(HubActivity::Writing),
                text::opt_text(old.hub.last_error),
            )
        },
    }
}

/// What was downloaded was to be written.
pub open spec fn revision_written(
    old: Spreadsheet,
    new: Spreadsheet,
    transfer: HubTransfer,
    written: Result<(), String>,
    renaming: bool,
    actual_hash: Seq<char>,
    step: HubStep,
) -> bool {
    &&& match written {
        Err(e) => step == HubStep::Stop && hub_says(
            old,
            new,
            old.hub.status,
            None,
            Some(e@),
            if renaming {
                "Save failed: "@ + e@
            } else {
                "Write failed: "@ + e@
            },
        ),
        Ok(_) => {
            &&& new == old
            &&& step matches HubStep::SaveLink(t, l) && t == transfer && head_moved(
                transfer.link,
                l,
                transfer.revision_id@,
                actual_hash,
            )
        },
    }
}

/// The link with its new head was to be saved.
pub open spec fn new_head_saved(
    old: Spreadsheet,
    new: Spreadsheet,
    transfer: HubTransfer,
    link: HubLink,
    saved: Result<(), String>,
    step: HubStep,
) -> bool {
    &&& match saved {
        Ok(_) => step == HubStep::Reload(transfer, link) && hub_moves(
            old,
            new,
            old.hub.status,
            Some(HubActivity::Reloading),
            text::opt_text(old.hub.last_error),
        ),
        Err(e) => if transfer.as_copy {
            step == HubStep::Reload(transfer, link) && hub_says(
                old,
                new,
                old.hub.status,
                Some(HubActivity::Reloading),
                text::opt_text(old.hub.last_error),
                "Warning: could not update link: "@ + e@,
            )
        } else {
            step == HubStep::Stop && hub_says(
                old,
                new,
                old.hub.status,
                old.hub.activity,
                Some(e@),
                "Failed to update link: "@ + e@,
            )
        },
    }
}

/// What was written was to be loaded.
pub open spec fn revision_loaded(
    old: Spreadsheet,
    new: Spreadsheet,
    transfer: HubTransfer,
    link: HubLink,
    written_path: DocPath,
    loaded: Result<(), String>,
) -> bool {
    &&& match loaded {
        Err(e) => hub_says(
            old,
            new,
            old.hub.status,
            None,
            Some(e@),
            if transfer.as_copy {
                "Failed to open: "@ + e@
            } else {
                "Failed to reload: "@ + e@
            },
        ),
        Ok(_) => {
            &&& new == (Spreadsheet {
                status_message: new.status_message,
                hub: new.hub,
                file: new.file,
                ..old
            })
            &&& new.hub == (crate::hub::HubState {
                link: Some(link),
                status: HubStatus::Idle,
                activity: None,
                last_error: None,
                ..old.hub
            })
            &&& if transfer.as_copy {
                &&& text::opt_text(new.status_message) == Some(
                    "Opened remote copy"@,
                )
                &&& new.file == (crate::state::FileState {
                    current_file: Some(written_path),
                    is_modified: false,
                    meta: new.file.meta,
                    pending_title_refresh: true,
                    ..old.file
                })
                &&& new.file.meta == (crate::state::DocumentMeta {
                    display_name: new.file.meta.display_name,
                    is_saved: true,
                    path: Some(written_path),
                    ..old.file.meta
                })
                &&& new.file.meta.display_name@ == name_or(
                    written_path,
                    "Untitled"@,
                )
            } else {
                &&& text::opt_text(new.status_message) == Some(
                    "Updated from remote"@,
                )
                &&& new.file == (crate::state::FileState {
                    is_modified: false,
                    ..old.file
                })
            }
        },
    }
}

/// The name of a copy, where `taken` says which names there are already.
pub open spec fn copy_path_is(
    r: Seq<char>,
    stem: Option<String>,
    taken: Seq<bool>,
    now_secs: u64,
) -> bool {
    &&& forall|k: int|
        0 <= k < 100 && !taken[k] && (forall|j: int| 0 <= j < k ==> #[trigger] taken[j])
            ==> r == #[trigger] copy_name(copy_stem(stem), k)
    &&& (forall|j: int| 0 <= j < 100 ==> #[trigger] taken[j]) ==> r == copy_stem(stem)
        + " (from VisiHub) "@ + text::dec(now_secs as nat) + ".sheet"@
}

// ---------------------------------------------------------------------------
// Laws
// ---------------------------------------------------------------------------

/// A file that has changed since it was last in step is never overwritten: what is
/// pulled then is a copy. And nothing is pulled unless someone is signed in, there is
/// a link, and it could be told whether the file has changed.
pub proof fn local_changes_are_not_overwritten(
    old: Spreadsheet,
    new: Spreadsheet,
    can_pull: bool,
    local_hash: Result<bool, String>,
    signed_in: bool,
    step: HubStep,
)
    requires
        pull_started(old, new, can_pull, local_hash, signed_in, step),
    ensures
        step == HubStep::Stop || step is FetchStatus,
        step is FetchStatus <==> can_pull && signed_in && local_hash is Ok && old.file.current_file
            is Some && old.hub.link is Some,
        step matches HubStep::FetchStatus(t) ==> {
            &&& Some(t.path) == old.file.current_file && Some(t.link) == old.hub.link
            &&& local_hash == Result::<bool, String>::Ok(false) ==> t.as_copy
            &&& t.link.local_head_hash is None ==> t.as_copy
            &&& !t.as_copy ==> local_hash == Result::<bool, String>::Ok(true)
            &&& local_hash == Result::<bool, String>::Ok(true) && t.link.local_head_hash is Some
                ==> !t.as_copy
            &&& new.hub.status == HubStatus::Syncing && new.hub.last_error is None
        },
        step == HubStep::Stop ==> new.hub.status == old.hub.status && new.hub.activity
            == old.hub.activity,
        new.file == old.file && new.hub.link == old.hub.link,
{
}

/// The hub is asked for a copy exactly if there is a file, a link and someone signed
/// in, and what is fetched then is a copy of the linked dataset.
pub proof fn a_copy_is_of_the_linked_dataset(
    old: Spreadsheet,
    new: Spreadsheet,
    signed_in: bool,
    step: HubStep,
)
    requires
        copy_started(old, new, signed_in, step),
    ensures
        step is FetchStatus <==> signed_in && old.file.current_file is Some && old.hub.link is Some,
        step matches HubStep::FetchStatus(t) ==> t.as_copy && Some(t.path) == old.file.current_file
            && Some(t.link) == old.hub.link,
        !(step is FetchStatus) ==> step == HubStep::Stop,
        new.file == old.file && new.hub.link == old.hub.link,
{
}

/// What the hub has is written only as it is on the hub: the newest revision is
/// downloaded, and what does not have the hash that the hub gave is thrown away.
pub proof fn only_intact_revisions_are_written(
    a: Spreadsheet,
    b: Spreadsheet,
    c: Spreadsheet,
    transfer: HubTransfer,
    fetched: HubTransfer,
    answer: Result<RemoteStatus, String>,
    download: Result<(), String>,
    intact: bool,
    step: HubStep,
)
    requires
        status_fetched(a, b, transfer, answer, HubStep::Download(fetched)),
        revision_downloaded(b, c, fetched, download, intact, step),
    ensures
        answer matches Ok(s) && s.current_revision_id == Some(fetched.revision_id)
            && fetched.expected_hash == s.content_hash,
        fetched.path == transfer.path && fetched.link == transfer.link && fetched.as_copy
            == transfer.as_copy,
        step == HubStep::Write(fetched) || step == HubStep::Stop,
        step == HubStep::Write(fetched) <==> download is Ok && (fetched.expected_hash is None
            || intact),
        step == HubStep::Stop ==> c.hub.status == HubStatus::Offline && c.hub.activity is None
            && c.hub.last_error is Some,
        c.file == a.file && c.hub.link == a.hub.link,
{
}

/// Where the hub has no revision, or does not answer, nothing is downloaded.
pub proof fn nothing_is_downloaded_without_a_revision(
    old: Spreadsheet,
    new: Spreadsheet,
    transfer: HubTransfer,
    answer: Result<RemoteStatus, String>,
    step: HubStep,
)
    requires
        status_fetched(old, new, transfer, answer, step),
    ensures
        step is Download <==> (answer matches Ok(s) && s.current_revision_id is Some),
        !(step is Download) ==> step == HubStep::Stop && new.hub.activity is None,
        answer matches Err(e) ==> new.hub.status == HubStatus::Offline && text::opt_text(
            new.hub.last_error,
        ) == Some(e@),
        answer is Ok ==> new.hub.status == old.hub.status,
        new.file == old.file && new.hub.link == old.hub.link,
{
}

/// A pull that comes to its end leaves the file in step with what was downloaded: its
/// link is to the same dataset as before, with the revision and its hash as the head,
/// and nothing is left to do. A copy is the current file then; otherwise the file
/// stays where it is.
pub proof fn a_pull_leaves_the_file_in_step(
    a: Spreadsheet,
    b: Spreadsheet,
    c: Spreadsheet,
    d: Spreadsheet,
    transfer: HubTransfer,
    link: HubLink,
    actual_hash: Seq<char>,
    saved: Result<(), String>,
    written_path: DocPath,
)
    requires
        revision_written(
            a,
            b,
            transfer,
            Ok(()),
            false,
            actual_hash,
            HubStep::SaveLink(transfer, link),
        ),
        new_head_saved(b, c, transfer, link, saved, HubStep::Reload(transfer, link)),
        revision_loaded(c, d, transfer, link, written_path, Ok(())),
    ensures
        d.hub.link == Some(link),
        link.dataset_id == transfer.link.dataset_id && link.repo_owner == transfer.link.repo_owner
            && link.repo_slug == transfer.link.repo_slug && link.link_mode
            == transfer.link.link_mode && link.api_base == transfer.link.api_base,
        text::opt_text(link.local_head_id) == Some(transfer.revision_id@),
        text::opt_text(link.local_head_hash) == Some(actual_hash),
        d.hub.status == HubStatus::Idle && d.hub.activity is None && d.hub.last_error is None,
        !d.file.is_modified,
        transfer.as_copy ==> d.file.current_file == Some(written_path),
        !transfer.as_copy ==> d.file.current_file == a.file.current_file && saved is Ok,
        d.cloud == a.cloud && d.sizes == a.sizes,
{
}

/// A step of a pull that fails ends it: it says why, and neither the link nor the file
/// of the window changes. A copy is opened even where its link could not be saved.
pub proof fn a_failed_pull_changes_nothing(
    old: Spreadsheet,
    new: Spreadsheet,
    transfer: HubTransfer,
    link: HubLink,
    path: DocPath,
    hash: Seq<char>,
    renaming: bool,
    e: String,
    step: HubStep,
)
    requires
        revision_written(old, new, transfer, Err(e), renaming, hash, step) || new_head_saved(
            old,
            new,
            transfer,
            link,
            Err(e),
            step,
        ) || (step == HubStep::Stop && revision_loaded(old, new, transfer, link, path, Err(e))),
    ensures
        new.file == old.file && new.hub.link == old.hub.link,
        step == HubStep::Stop ==> text::opt_text(new.hub.last_error) == Some(e@),
        step != HubStep::Stop ==> transfer.as_copy && step == HubStep::Reload(transfer, link),
        new.status_message matches Some(m) && text::has_suffix(m@, e@),
{
    let none = Seq::<char>::empty();
    text::what_it_means_to_hold_a_text("Save failed: "@, e@, none);
    text::what_it_means_to_hold_a_text("Write failed: "@, e@, none);
    text::what_it_means_to_hold_a_text("Warning: could not update link: "@, e@, none);
    text::what_it_means_to_hold_a_text("Failed to update link: "@, e@, none);
    text::what_it_means_to_hold_a_text("Failed to open: "@, e@, none);
    text::what_it_means_to_hold_a_text("Failed to reload: "@, e@, none);
}

/// Different attempts at a name for a copy give different names, and each of them
/// begins with the name of the file and ends as a `.sheet` file.
pub proof fn names_of_copies_differ(stem: Seq<char>, a: int, b: int)
    requires
        0 <= a,
        0 <= b,
    ensures
        copy_name(stem, a) == copy_name(stem, b) ==> a == b,
        text::has_prefix(copy_name(stem, a), stem),
        text::has_suffix(copy_name(stem, a), ".sheet"@),
{
    reveal_strlit(" (from VisiHub).sheet");
    reveal_strlit(" (from VisiHub) (");
    reveal_strlit(").sheet");
    reveal_strlit(".sheet");
    let p = " (from VisiHub) ("@;
    let q = ").sheet"@;
    let n = stem.len() as int;
    let da = text::dec((a + 1) as nat);
    let db = text::dec((b + 1) as nat);
    text::decimal_texts_differ((a + 1) as nat, (b + 1) as nat);
    let x = copy_name(stem, a);
    let y = copy_name(stem, b);
    assert(x.take(n) =~= stem);
    assert(x.skip(x.len() - 6) =~= ".sheet"@);
    if x == y {
        if a == 0 && b > 0 {
            assert(x[n + 15] == '.');
            assert(y[n + 15] == p[15]);
        } else if b == 0 && a > 0 {
            assert(y[n + 15] == '.');
            assert(x[n + 15] == p[15]);
        } else if a > 0 && b > 0 {
            assert(x.len() == n + p.len() + da.len() + q.len());
            assert(y.len() == n + p.len() + db.len() + q.len());
            assert(x.subrange(n + p.len(), n + p.len() + da.len()) =~= da);
            assert(y.subrange(n + p.len(), n + p.len() + db.len()) =~= db);
        }
    }
}

/// A copy gets a name that is not taken, the first of those there are.
pub proof fn a_copy_takes_the_first_free_name(
    r: Seq<char>,
    stem: Option<String>,
    taken: Seq<bool>,
    now_secs: u64,
    k: int,
    j: int,
)
    requires
        copy_path_is(r, stem, taken, now_secs),
        taken.len() == 100,
        0 <= k < 100,
        !taken[k],
        0 <= j < 100,
        taken[j],
    ensures
        r != copy_name(copy_stem(stem), j),
        exists|i: int|
            0 <= i <= k && !taken[i] && r == #[trigger] copy_name(copy_stem(stem), i) && (forall|
                l: int,
            |
                0 <= l < i ==> #[trigger] taken[l]),
        stem matches Some(s) ==> text::has_prefix(r, s@),
{
    let f = lemma_first_free(taken, k);
    assert(r == copy_name(copy_stem(stem), f));
    names_of_copies_differ(copy_stem(stem), f, j);
}

proof fn lemma_first_free(taken: Seq<bool>, k: int) -> (f: int)
    requires
        0 <= k < taken.len(),
        !taken[k],
    ensures
        0 <= f <= k,
        !taken[f],
        forall|l: int| 0 <= l < f ==> #[trigger] taken[l],
    decreases k,
{
    if forall|l: int| 0 <= l < k ==> #[trigger] taken[l] {
        k
    } else {
        let j = choose|l: int| 0 <= l < k && !#[trigger] taken[l];
        lemma_first_free(taken, j)
    }
}

} // verus!
