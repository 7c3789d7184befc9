//! Sheets that are kept in the cloud: uploads after a save, opening, and what a
//! downloaded blob is turned into.

use std::collections::{BTreeMap, BTreeSet};

use vstd::prelude::*;

use crate::blob;
use crate::blob::CloudBlobKind;
use crate::collections;
use crate::document;
use crate::hub_link;
use crate::layout::SheetLayout;
use crate::state::{Mode, Spreadsheet};
use crate::text;
use crate::timestamps;

verus! {

/// The sheet in the cloud that a file belongs to.
#[derive(Debug, PartialEq, Eq)]
pub struct CloudIdentity {
    pub sheet_id: i64,
    pub public_id: String,
    pub sheet_name: String,
    pub api_base: String,
    pub last_synced_hash: Option<String>,
    pub last_synced_at: Option<String>,
}

#[derive(Debug, Clone, Copy, PartialEq, Eq, Structural)]
pub enum CloudSyncState {
    Local,
    Dirty,
    Syncing,
    Synced,
    Offline,
    Error,
}

/// A sheet in the list of the cloud.
#[derive(Debug, PartialEq, Eq)]
pub struct SheetInfo {
    pub id: i64,
    pub public_id: String,
    pub name: String,
    pub slug: String,
}

impl Clone for SheetInfo {
    fn clone(&self) -> (r: SheetInfo)
        ensures
            r == *self,
    {
        SheetInfo {
            id: self.id,
            public_id: self.public_id.clone(),
            name: self.name.clone(),
            slug: self.slug.clone(),
        }
    }
}

/// The cloud part of a window.
#[derive(Debug, PartialEq, Eq)]
pub struct CloudState {
    pub identity: Option<CloudIdentity>,
    pub sync_state: CloudSyncState,
    pub upload_generation: u64,
    pub last_error: Option<String>,
    pub sheets_list: Vec<SheetInfo>,
    pub selected_sheet: Option<usize>,
    pub sheets_loading: bool,
}

/// The cloud part of a new window.
pub open spec fn no_cloud(c: CloudState) -> bool {
    &&& c.identity is None && c.sync_state == CloudSyncState::Local && c.upload_generation == 0
    &&& c.last_error is None && c.sheets_list@.len() == 0 && c.selected_sheet is None
    &&& !c.sheets_loading
}

impl CloudState {
    pub fn new() -> (c: CloudState)
        ensures
            no_cloud(c),
    {
        CloudState {
            identity: None,
            sync_state: CloudSyncState::Local,
            upload_generation: 0,
            last_error: None,
            sheets_list: Vec::new(),
            selected_sheet: None,
            sheets_loading: false,
        }
    }
}

/// A scheduled upload.
#[derive(Debug, Clone, Copy, PartialEq, Eq, Structural)]
pub struct UploadTicket {
    pub generation: u64,
    pub sheet_id: i64,
}

/// How long an upload waits, in milliseconds, so that saves in quick succession
/// come to one upload.
pub const UPLOAD_DEBOUNCE_MS: u64 = 500;

/// How an upload went.
#[derive(Debug, PartialEq, Eq)]
pub enum UploadResult {
    /// The bytes with this hash are in the cloud.
    Done(String),
    Network(String),
    Failed(String),
}

/// How a request to the cloud went that needs a signed-in user.
#[derive(Debug, PartialEq, Eq)]
pub enum CloudAnswer<T> {
    Done(T),
    NotAuthenticated,
    Failed(String),
}

/// What scheduling an upload does.
pub open spec fn upload_scheduled(old: Spreadsheet, new: Spreadsheet, ticket: Option<UploadTicket>) -> bool {
    if old.cloud.identity is None || old.file.current_file is None {
        ticket is None && new == old
    } else {
        &&& new == (Spreadsheet {
            cloud: CloudState {
                upload_generation: (old.cloud.upload_generation + 1) as u64,
                sync_state: CloudSyncState::Dirty,
                ..old.cloud
            },
            ..old
        })
        &&& ticket == Some(
            UploadTicket {
                generation: (old.cloud.upload_generation + 1) as u64,
                sheet_id: old.cloud.identity->0.sheet_id,
            },
        )
    }
}

/// No save came after the one that scheduled this upload.
pub open spec fn upload_is_current(s: Spreadsheet, ticket: UploadTicket) -> bool {
    s.cloud.upload_generation == ticket.generation
}

/// A message in the status bar, and the cloud state and error that go with it.
pub open spec fn cloud_says(
    old: Spreadsheet,
    new: Spreadsheet,
    state: CloudSyncState,
    error: Option<Seq<char>>,
    m: Seq<char>,
) -> bool {
    &&& new == (Spreadsheet { status_message: new.status_message, cloud: new.cloud, ..old })
    &&& new.cloud == (CloudState {
        sync_state: state,
        last_error: new.cloud.last_error,
        ..old.cloud
    })
    &&& text::opt_text(new.cloud.last_error) == error
    &&& text::opt_text(new.status_message) == Some(m)
}

/// An identity for a sheet that was not synchronised yet.
pub open spec fn fresh_identity(i: CloudIdentity, info: SheetInfo, api_base: Option<String>) -> bool {
    &&& i.sheet_id == info.id
    &&& i.public_id@ == info.public_id@
    &&& i.sheet_name@ == info.name@
    &&& i.api_base@ == match api_base {
        Some(b) => b@,
        None => hub_link::HUB_API_BASE@,
    }
    &&& i.last_synced_hash is None
    &&& i.last_synced_at is None
}

fn new_identity(info: &SheetInfo, api_base: &Option<String>) -> (i: CloudIdentity)
    ensures
        fresh_identity(i, *info, *api_base),
{
    let base = match api_base {
        Some(b) => b.clone(),
        None => text::lit(hub_link::HUB_API_BASE),
    };
    CloudIdentity {
        sheet_id: info.id,
        public_id: info.public_id.clone(),
        sheet_name: info.name.clone(),
        api_base: base,
        last_synced_hash: None,
        last_synced_at: None,
    }
}

impl Spreadsheet {
    /// Schedule an upload after a save; the upload runs after
    /// [`UPLOAD_DEBOUNCE_MS`], if it is still current then.
    pub fn cloud_schedule_upload(&mut self) -> (ticket: Option<UploadTicket>)
        requires
            old(self).cloud.upload_generation < u64::MAX,
        ensures
            upload_scheduled(*old(self), *final(self), ticket),
    {
        let sheet_id: i64 = match &self.cloud.identity {
            Some(i) => i.sheet_id,
            None => {
                return None;
            },
        };
        if self.file.current_file.is_none() {
            return None;
        }
        self.cloud.upload_generation = self.cloud.upload_generation + 1;
        self.cloud.sync_state = CloudSyncState::Dirty;
        Some(UploadTicket { generation: self.cloud.upload_generation, sheet_id })
    }

    /// The wait of a scheduled upload is over: it goes ahead if no later save
    /// has taken its place.
    pub fn cloud_upload_due(&mut self, ticket: UploadTicket) -> (go: bool)
        ensures
            upload_due(*old(self), *final(self), ticket, go),
    {
        if self.cloud.upload_generation != ticket.generation {
            return false;
        }
        self.cloud.sync_state = CloudSyncState::Syncing;
        self.say("Syncing to cloud...");
        true
    }

    /// The workbook could not be written for the upload.
    pub fn cloud_export_failed(&mut self, e: &str)
        ensures
            cloud_says(
                *old(self),
                *final(self),
                CloudSyncState::Error,
                Some("Failed to export workbook: "@ + e@),
                "Cloud sync error: "@ + e@,
            ),
    {
        self.cloud.sync_state = CloudSyncState::Error;
        self.cloud.last_error = Some(text::cat("Failed to export workbook: ", e));
        self.say_with("Cloud sync error: ", e);
    }

    /// The upload is over. The result is whether the identity has to be saved
    /// in the file again.
    pub fn cloud_upload_finished(&mut self, result: &UploadResult, now_secs: u64) -> (persist: bool)
        ensures
            upload_finished(*old(self), *final(self), *result, now_secs, persist),
    {
        match result {
            UploadResult::Network(m) => {
                self.cloud.sync_state = CloudSyncState::Offline;
                self.cloud.last_error = Some(text::cat("Network: ", m.as_str()));
                self.say("Cloud sync: offline");
                false
            },
            UploadResult::Failed(m) => {
                self.cloud.sync_state = CloudSyncState::Error;
                self.cloud.last_error = Some(m.clone());
                self.say_with("Cloud sync error: ", m.as_str());
                false
            },
            UploadResult::Done(hash) => {
                let mut persist = false;
                let identity = self.cloud.identity.take();
                match identity {
                    None => {},
                    Some(i) => {
                        persist = true;
                        self.cloud.identity = Some(
                            CloudIdentity {
                                sheet_id: i.sheet_id,
                                public_id: i.public_id,
                                sheet_name: i.sheet_name,
                                api_base: i.api_base,
                                last_synced_hash: Some(hash.clone()),
                                last_synced_at: Some(timestamps::now_iso8601(now_secs)),
                            },
                        );
                    },
                }
                self.cloud.sync_state = CloudSyncState::Synced;
                self.say("Synced to cloud");
                persist
            },
        }
    }

    /// Try an upload again that failed or found no connection.
    pub fn cloud_retry_upload(&mut self) -> (ticket: Option<UploadTicket>)
        requires
            old(self).cloud.upload_generation < u64::MAX,
        ensures
            upload_scheduled(*old(self), *final(self), ticket),
    {
        if self.cloud.identity.is_some() {
            self.cloud_schedule_upload()
        } else {
            None
        }
    }

    /// Move the open file to the cloud: the result is the name of the sheet to
    /// create.
    pub fn cloud_move_to_cloud(&mut self) -> (create: Option<String>)
        ensures
            move_asked(*old(self), *final(self), create),
    {
        let name = match &self.file.current_file {
            None => {
                self.say("Save the file first before moving to cloud.");
                return None;
            },
            Some(p) => match &p.stem {
                Some(s) => s.clone(),
                None => text::lit("Untitled Sheet"),
            },
        };
        if self.cloud.identity.is_some() {
            self.say("This file is already cloud-backed.");
            return None;
        }
        self.say("Moving to cloud...");
        Some(name)
    }

    /// The sheet was created in the cloud, or could not be. The result is the
    /// first upload.
    pub fn cloud_sheet_created(
        &mut self,
        created: &CloudAnswer<SheetInfo>,
        api_base: &Option<String>,
    ) -> (ticket: Option<UploadTicket>)
        requires
            old(self).cloud.upload_generation < u64::MAX,
        ensures
            sheet_created(*old(self), *final(self), *created, *api_base, ticket),
    {
        match created {
            CloudAnswer::NotAuthenticated => {
                self.say("Sign in first to move to cloud.");
                None
            },
            CloudAnswer::Failed(e) => {
                self.say_with("Failed to move to cloud: ", e.as_str());
                None
            },
            CloudAnswer::Done(info) => {
                self.cloud.identity = Some(new_identity(info, api_base));
                self.cloud.sync_state = CloudSyncState::Dirty;
                self.say("Moved to cloud. Syncing...");
                self.cloud_schedule_upload()
            },
        }
    }

    /// Start to list the sheets in the cloud.
    pub fn cloud_open(&mut self)
        ensures
            *final(self) == (Spreadsheet { cloud: final(self).cloud, ..*old(self) }),
            final(self).cloud == (CloudState {
                sheets_loading: true,
                sheets_list: final(self).cloud.sheets_list,
                selected_sheet: None,
                ..old(self).cloud
            }),
            final(self).cloud.sheets_list@.len() == 0,
    {
        self.cloud.sheets_loading = true;
        self.cloud.sheets_list = Vec::new();
        self.cloud.selected_sheet = None;
    }

    /// The list of sheets has come, or could not be had.
    pub fn cloud_listed(&mut self, listed: CloudAnswer<Vec<SheetInfo>>)
        ensures
            sheets_listed(*old(self), *final(self), listed),
    {
        self.cloud.sheets_loading = false;
        match listed {
            CloudAnswer::Done(sheets) => {
                self.cloud.selected_sheet = if sheets.len() == 0 {
                    None
                } else {
                    Some(0)
                };
                self.cloud.sheets_list = sheets;
                self.mode = Mode::CloudOpen;
            },
            CloudAnswer::NotAuthenticated => {
                self.say("Sign in first to open cloud sheets.");
            },
            CloudAnswer::Failed(e) => {
                self.say_with("Failed to list cloud sheets: ", e.as_str());
            },
        }
    }

    /// Open the chosen sheet: the result is the sheet to download.
    pub fn cloud_open_selected(&mut self) -> (download: Option<SheetInfo>)
        ensures
            selected_opened(*old(self), *final(self), download),
    {
        let index: usize = match self.cloud.selected_sheet {
            Some(i) => i,
            None => {
                return None;
            },
        };
        if index >= self.cloud.sheets_list.len() {
            return None;
        }
        let info = self.cloud.sheets_list[index].clone();
        self.mode = Mode::Navigation;
        let m = text::cat3("Downloading ", info.name.as_str(), "...");
        self.say(m.as_str());
        Some(info)
    }

    /// A sheet could not be downloaded.
    pub fn cloud_download_failed(&mut self, e: &str)
        ensures
            crate::hub::only_says(
                *old(self),
                *final(self),
                "Failed to download sheet: "@ + e@,
            ),
    {
        self.say_with("Failed to download sheet: ", e);
    }

    /// A downloaded sheet could not be written to its file.
    pub fn cloud_materialize_failed(&mut self, e: &str)
        ensures
            crate::hub::only_says(*old(self), *final(self), "Failed to write file: "@ + e@),
    {
        self.say_with("Failed to write file: ", e);
    }

    /// The downloaded sheet is open: it belongs to the sheet in the cloud.
    pub fn cloud_attach(&mut self, info: &SheetInfo, api_base: &Option<String>)
        ensures
            sheet_attached(*old(self), *final(self), *info, *api_base),
    {
        self.cloud.identity = Some(new_identity(info, api_base));
        self.cloud.sync_state = CloudSyncState::Synced;
    }
}

/// The list did not come.
pub open spec fn list_failed(old: Spreadsheet, new: Spreadsheet, m: Seq<char>) -> bool {
    &&& new == (Spreadsheet {
        status_message: new.status_message,
        cloud: CloudState { sheets_loading: false, ..old.cloud },
        ..old
    })
    &&& text::opt_text(new.status_message) == Some(m)
}

/// The file name that a sheet of the cloud has in the local cache.
pub fn cache_file_name(slug: &str) -> (r: String)
    ensures
        r@ == slug@ + ".sheet"@,
{
    text::cat(slug, ".sheet")
}

// ---------------------------------------------------------------------------
// Downloaded blobs
// ---------------------------------------------------------------------------

/// What has to be done with a downloaded blob to get a file of it.
#[derive(Debug, Clone, Copy, PartialEq, Eq, Structural)]
pub enum BlobPlan {
    /// It is a native file: write it as it is.
    WriteAsIs,
    /// It is an interchange document: read it and save it as a native file.
    Import,
}

/// What to do with a downloaded blob. What its key says it is does not count.
pub fn materialize_cloud_blob(bytes: &[u8]) -> (r: Result<BlobPlan, String>)
    ensures
        match blob::blob_kind(bytes@) {
            CloudBlobKind::NativeSqlite => r matches Ok(p) && p == BlobPlan::WriteAsIs,
            CloudBlobKind::VisigridJson => r matches Ok(p) && p == BlobPlan::Import,
            CloudBlobKind::Unknown => r matches Err(e) && e@
                == "Cloud blob is neither visigrid-json nor a native .sheet file"@,
        },
{
    match blob::sniff_cloud_blob(bytes) {
        CloudBlobKind::NativeSqlite => Ok(BlobPlan::WriteAsIs),
        CloudBlobKind::VisigridJson => Ok(BlobPlan::Import),
        CloudBlobKind::Unknown => Err(
            text::lit("Cloud blob is neither visigrid-json nor a native .sheet file"),
        ),
    }
}

/// The layout of a workbook as a native file holds it, by position of the
/// sheet; a sheet without anything to keep has no entry.
#[derive(Debug, PartialEq, Eq)]
pub struct NativeLayout {
    pub col_widths: BTreeMap<usize, BTreeMap<usize, u32>>,
    pub row_heights: BTreeMap<usize, BTreeMap<usize, u32>>,
    pub hidden_rows: BTreeMap<usize, BTreeSet<usize>>,
    pub hidden_cols: BTreeMap<usize, BTreeSet<usize>>,
}

/// `n` holds the sizes `m` of the sheet at `i`, or nothing where there are none.
pub open spec fn sizes_kept(n: Map<usize, BTreeMap<usize, u32>>, i: usize, m: Map<usize, u32>) -> bool {
    if m.dom().is_empty() {
        !n.contains_key(i)
    } else {
        n.contains_key(i) && n[i]@ == m
    }
}

/// `n` holds the hidden lines `s` of the sheet at `i`, or nothing where there
/// are none.
pub open spec fn hidden_kept(n: Map<usize, BTreeSet<usize>>, i: usize, s: Set<usize>) -> bool {
    if s.is_empty() {
        !n.contains_key(i)
    } else {
        n.contains_key(i) && n[i]@ == s
    }
}

impl NativeLayout {
    pub fn new() -> (n: NativeLayout)
        ensures
            n.col_widths@ == Map::<usize, BTreeMap<usize, u32>>::empty(),
            n.row_heights@ == Map::<usize, BTreeMap<usize, u32>>::empty(),
            n.hidden_rows@ == Map::<usize, BTreeSet<usize>>::empty(),
            n.hidden_cols@ == Map::<usize, BTreeSet<usize>>::empty(),
    {
        NativeLayout {
            col_widths: BTreeMap::new(),
            row_heights: BTreeMap::new(),
            hidden_rows: BTreeMap::new(),
            hidden_cols: BTreeMap::new(),
        }
    }

    /// The entries for the sheet at `i` are these.
    pub open spec fn keeps(
        self,
        i: usize,
        widths: Map<usize, u32>,
        heights: Map<usize, u32>,
        rows: Set<usize>,
        cols: Set<usize>,
    ) -> bool {
        &&& sizes_kept(self.col_widths@, i, widths)
        &&& sizes_kept(self.row_heights@, i, heights)
        &&& hidden_kept(self.hidden_rows@, i, rows)
        &&& hidden_kept(self.hidden_cols@, i, cols)
    }

    /// There are no entries from the sheet at `n` on.
    pub open spec fn ends_at(self, n: int) -> bool {
        &&& forall|k: usize| #[trigger] self.col_widths@.contains_key(k) ==> k < n
        &&& forall|k: usize| #[trigger] self.row_heights@.contains_key(k) ==> k < n
        &&& forall|k: usize| #[trigger] self.hidden_rows@.contains_key(k) ==> k < n
        &&& forall|k: usize| #[trigger] self.hidden_cols@.contains_key(k) ==> k < n
    }

    /// Put in what is to be kept of the sheet at `i`, behind all others.
    pub fn put(
        &mut self,
        i: usize,
        widths: &BTreeMap<usize, u32>,
        heights: &BTreeMap<usize, u32>,
        rows: &BTreeSet<usize>,
        cols: &BTreeSet<usize>,
    )
        requires
            old(self).ends_at(i as int),
        ensures
            final(self).ends_at(i + 1),
            final(self).keeps(i, widths@, heights@, rows@, cols@),
            forall|k: usize, w: Map<usize, u32>, h: Map<usize, u32>, r: Set<usize>, c: Set<usize>|
                k != i && #[trigger] old(self).keeps(k, w, h, r, c) ==> final(self).keeps(
                    k,
                    w,
                    h,
                    r,
                    c,
                ),
    {
        if !widths.is_empty() {
            collections::map_insert(&mut self.col_widths, i, collections::clone_map(widths));
        }
        if !heights.is_empty() {
            collections::map_insert(&mut self.row_heights, i, collections::clone_map(heights));
        }
        if !rows.is_empty() {
            collections::map_insert(&mut self.hidden_rows, i, collections::clone_set(rows));
        }
        if !cols.is_empty() {
            collections::map_insert(&mut self.hidden_cols, i, collections::clone_set(cols));
        }
    }
}

/// The layouts of a document as a native file holds them.
pub fn json_layouts_to_native(layouts: &Vec<SheetLayout>) -> (n: NativeLayout)
    ensures
        n.ends_at(layouts@.len() as int),
        forall|i: int|
            0 <= i < layouts@.len() ==> n.keeps(
                i as usize,
                (#[trigger] layouts@[i]).col_widths@,
                layouts@[i].row_heights@,
                layouts@[i].hidden_rows@,
                layouts@[i].hidden_cols@,
            ),
{
    let mut n = NativeLayout::new();
    let mut i: usize = 0;
    while i < layouts.len()
        invariant
            i <= layouts.len(),
            n.ends_at(i as int),
            forall|k: int|
                0 <= k < i ==> n.keeps(
                    k as usize,
                    (#[trigger] layouts@[k]).col_widths@,
                    layouts@[k].row_heights@,
                    layouts@[k].hidden_rows@,
                    layouts@[k].hidden_cols@,
                ),
        decreases layouts.len() - i,
    {
        let l = &layouts[i];
        n.put(i, &l.col_widths, &l.row_heights, &l.hidden_rows, &l.hidden_cols);
        i = i + 1;
    }
    n
}

/// The time of an upload has come.
pub open spec fn upload_due(
    old: Spreadsheet,
    new: Spreadsheet,
    ticket: UploadTicket,
    go: bool,
) -> bool {
    &&& go == upload_is_current(old, ticket)
    &&& !go ==> new == old
    &&& go ==> cloud_says(
        old,
        new,
        CloudSyncState::Syncing,
        text::opt_text(old.cloud.last_error),
        "Syncing to cloud..."@,
    )
}

/// An upload came to an end.
pub open spec fn upload_finished(
    old: Spreadsheet,
    new: Spreadsheet,
    result: UploadResult,
    now_secs: u64,
    persist: bool,
) -> bool {
    &&& match result {
        UploadResult::Network(m) => !persist && cloud_says(
            old,
            new,
            CloudSyncState::Offline,
            Some("Network: "@ + m@),
            "Cloud sync: offline"@,
        ),
        UploadResult::Failed(m) => !persist && cloud_says(
            old,
            new,
            CloudSyncState::Error,
            Some(m@),
            "Cloud sync error: "@ + m@,
        ),
        UploadResult::Done(hash) => {
            &&& new == (Spreadsheet {
                status_message: new.status_message,
                cloud: new.cloud,
                ..old
            })
            &&& new.cloud == (CloudState {
                sync_state: CloudSyncState::Synced,
                identity: new.cloud.identity,
                ..old.cloud
            })
            &&& text::opt_text(new.status_message) == Some("Synced to cloud"@)
            &&& match old.cloud.identity {
                None => !persist && new.cloud.identity is None,
                Some(i) => {
                    &&& persist
                    &&& new.cloud.identity is Some
                    &&& new.cloud.identity->0 == (CloudIdentity {
                        last_synced_hash: new.cloud.identity->0.last_synced_hash,
                        last_synced_at: new.cloud.identity->0.last_synced_at,
                        ..i
                    })
                    &&& text::opt_text(new.cloud.identity->0.last_synced_hash)
                        == Some(hash@)
                    &&& text::opt_text(new.cloud.identity->0.last_synced_at)
                        == Some(text::dec(now_secs as nat))
                },
            }
        },
    }
}

/// A file is to be moved to the cloud.
pub open spec fn move_asked(
    old: Spreadsheet,
    new: Spreadsheet,
    create: Option<String>,
) -> bool {
    &&& ({
        if old.file.current_file is None {
            create is None && crate::hub::only_says(
                old,
                new,
                "Save the file first before moving to cloud."@,
            )
        } else if old.cloud.identity is Some {
            create is None && crate::hub::only_says(
                old,
                new,
                "This file is already cloud-backed."@,
            )
        } else {
            &&& crate::hub::only_says(old, new, "Moving to cloud..."@)
            &&& text::opt_text(create) == Some(
                match old.file.current_file->0.stem {
                    Some(s) => s@,
                    None => "Untitled Sheet"@,
                },
            )
        }
    })
}

/// The cloud was asked to make a sheet.
pub open spec fn sheet_created(
    old: Spreadsheet,
    new: Spreadsheet,
    created: CloudAnswer<SheetInfo>,
    api_base: Option<String>,
    ticket: Option<UploadTicket>,
) -> bool {
    &&& match created {
        CloudAnswer::NotAuthenticated => ticket is None && crate::hub::only_says(
            old,
            new,
            "Sign in first to move to cloud."@,
        ),
        CloudAnswer::Failed(e) => ticket is None && crate::hub::only_says(
            old,
            new,
            "Failed to move to cloud: "@ + e@,
        ),
        CloudAnswer::Done(info) => {
            &&& new == (Spreadsheet {
                status_message: new.status_message,
                cloud: new.cloud,
                ..old
            })
            &&& text::opt_text(new.status_message) == Some(
                "Moved to cloud. Syncing..."@,
            )
            &&& new.cloud.identity is Some && fresh_identity(
                new.cloud.identity->0,
                info,
                api_base,
            )
            &&& new.cloud == (CloudState {
                identity: new.cloud.identity,
                sync_state: CloudSyncState::Dirty,
                upload_generation: new.cloud.upload_generation,
                ..old.cloud
            })
            &&& match old.file.current_file {
                None => ticket is None && new.cloud.upload_generation
                    == old.cloud.upload_generation,
                Some(_) => new.cloud.upload_generation
                    == old.cloud.upload_generation + 1 && ticket == Some(
                    UploadTicket {
                        generation: new.cloud.upload_generation,
                        sheet_id: info.id,
                    },
                ),
            }
        },
    }
}

/// The cloud was asked for its sheets.
pub open spec fn sheets_listed(
    old: Spreadsheet,
    new: Spreadsheet,
    listed: CloudAnswer<Vec<SheetInfo>>,
) -> bool {
    &&& match listed {
        CloudAnswer::Done(sheets) => new == (Spreadsheet {
            mode: Mode::CloudOpen,
            cloud: CloudState {
                sheets_loading: false,
                sheets_list: sheets,
                selected_sheet: if sheets@.len() == 0 {
                    None
                } else {
                    Some(0usize)
                },
                ..old.cloud
            },
            ..old
        }),
        CloudAnswer::NotAuthenticated => list_failed(
            old,
            new,
            "Sign in first to open cloud sheets."@,
        ),
        CloudAnswer::Failed(e) => list_failed(
            old,
            new,
            "Failed to list cloud sheets: "@ + e@,
        ),
    }
}

/// The selected sheet of the cloud is to be opened.
pub open spec fn selected_opened(
    old: Spreadsheet,
    new: Spreadsheet,
    download: Option<SheetInfo>,
) -> bool {
    &&& match old.cloud.selected_sheet {
        Some(i) => if i < old.cloud.sheets_list@.len() {
            let info = old.cloud.sheets_list@[i as int];
            &&& download == Some(info)
            &&& new == (Spreadsheet {
                mode: Mode::Navigation,
                status_message: new.status_message,
                ..old
            })
            &&& text::opt_text(new.status_message) == Some(
                "Downloading "@ + info.name@ + "..."@,
            )
        } else {
            download is None && new == old
        },
        None => download is None && new == old,
    }
}

/// The document belongs to a sheet of the cloud now.
pub open spec fn sheet_attached(
    old: Spreadsheet,
    new: Spreadsheet,
    info: SheetInfo,
    api_base: Option<String>,
) -> bool {
    &&& new == (Spreadsheet { cloud: new.cloud, ..old })
    &&& new.cloud == (CloudState {
        identity: new.cloud.identity,
        sync_state: CloudSyncState::Synced,
        ..old.cloud
    })
    &&& new.cloud.identity is Some && fresh_identity(
        new.cloud.identity->0,
        info,
        api_base,
    )
}

// ---------------------------------------------------------------------------
// Laws
// ---------------------------------------------------------------------------

/// Saves in quick succession come to one upload: when a second save schedules
/// its upload, the first one is no longer current, and the second one is.
pub proof fn only_the_last_upload_is_current(
    a: Spreadsheet,
    b: Spreadsheet,
    c: Spreadsheet,
    first: UploadTicket,
    second: UploadTicket,
)
    requires
        a.cloud.upload_generation + 2 <= u64::MAX,
        upload_scheduled(a, b, Some(first)),
        upload_scheduled(b, c, Some(second)),
    ensures
        !upload_is_current(c, first),
        upload_is_current(c, second),
{
}

/// An upload that was scheduled, and that no later one has overtaken, goes ahead when
/// its time comes. Once it is done the document is in step with its sheet: it still
/// belongs to that sheet, and what was uploaded and when is kept with it.
pub proof fn an_upload_brings_the_document_in_step(
    a: Spreadsheet,
    b: Spreadsheet,
    c: Spreadsheet,
    d: Spreadsheet,
    ticket: UploadTicket,
    go: bool,
    hash: String,
    now_secs: u64,
    persist: bool,
)
    requires
        a.cloud.upload_generation < u64::MAX,
        upload_scheduled(a, b, Some(ticket)),
        upload_due(b, c, ticket, go),
        upload_finished(c, d, UploadResult::Done(hash), now_secs, persist),
    ensures
        go && persist,
        a.cloud.identity matches Some(i) && ticket.sheet_id == i.sheet_id && (
        d.cloud.identity matches Some(j) && j.sheet_id == i.sheet_id && j.public_id == i.public_id
            && j.sheet_name == i.sheet_name && j.api_base == i.api_base && text::opt_text(
            j.last_synced_hash,
        ) == Some(hash@) && text::opt_text(j.last_synced_at) == Some(text::dec(now_secs as nat))),
        b.cloud.sync_state == CloudSyncState::Dirty,
        c.cloud.sync_state == CloudSyncState::Syncing,
        d.cloud.sync_state == CloudSyncState::Synced,
        d.file == a.file && d.view == a.view && d.hub == a.hub,
{
}

/// An upload that a later one has overtaken does nothing when its time comes.
pub proof fn an_overtaken_upload_does_nothing(
    a: Spreadsheet,
    b: Spreadsheet,
    c: Spreadsheet,
    d: Spreadsheet,
    first: UploadTicket,
    second: UploadTicket,
    go: bool,
)
    requires
        a.cloud.upload_generation + 2 <= u64::MAX,
        upload_scheduled(a, b, Some(first)),
        upload_scheduled(b, c, Some(second)),
        upload_due(c, d, first, go),
    ensures
        !go && d == c,
{
}

/// An upload that fails says why, and leaves the document with the sheet and the hash
/// that it had, so that it is not taken to be in step.
pub proof fn a_failed_upload_keeps_what_was_synced(
    old: Spreadsheet,
    new: Spreadsheet,
    result: UploadResult,
    now_secs: u64,
    persist: bool,
)
    requires
        upload_finished(old, new, result, now_secs, persist),
        !(result is Done),
    ensures
        !persist && new.cloud.identity == old.cloud.identity,
        new.cloud.sync_state == CloudSyncState::Offline || new.cloud.sync_state
            == CloudSyncState::Error,
        result is Network <==> new.cloud.sync_state == CloudSyncState::Offline,
        new.cloud.upload_generation == old.cloud.upload_generation,
        match result {
            UploadResult::Network(m) => new.cloud.last_error matches Some(e) && text::has_suffix(
                e@,
                m@,
            ),
            UploadResult::Failed(m) => text::opt_text(new.cloud.last_error) == Some(m@),
            UploadResult::Done(_) => false,
        },
        new.file == old.file,
{
    if let UploadResult::Network(m) = result {
        text::what_it_means_to_hold_a_text("Network: "@, m@, Seq::empty());
    }
}

/// A file is moved to the cloud once: where there is a file that belongs to no sheet, a
/// sheet of its name is asked for; when it is made, the file belongs to it and is
/// uploaded to it, and it cannot be moved again. An answer without a sheet changes
/// nothing.
pub proof fn a_file_is_moved_to_the_cloud_once(
    a: Spreadsheet,
    b: Spreadsheet,
    c: Spreadsheet,
    d: Spreadsheet,
    create: Option<String>,
    created: CloudAnswer<SheetInfo>,
    api_base: Option<String>,
    ticket: Option<UploadTicket>,
    again: Option<String>,
)
    requires
        b.cloud.upload_generation < u64::MAX,
        move_asked(a, b, create),
        create is Some,
        sheet_created(b, c, created, api_base, ticket),
        move_asked(c, d, again),
    ensures
        a.file.current_file is Some && a.cloud.identity is None,
        a.file.current_file->0.stem matches Some(s) ==> text::opt_text(create) == Some(s@),
        match created {
            CloudAnswer::Done(info) => {
                &&& again is None
                &&& c.cloud.identity matches Some(i) && i.sheet_id == info.id && i.public_id@
                    == info.public_id@ && i.sheet_name@ == info.name@ && i.last_synced_hash is None
                &&& ticket matches Some(t) && t.sheet_id == info.id && upload_is_current(c, t)
                &&& c.cloud.sync_state == CloudSyncState::Dirty
                &&& api_base matches Some(u) ==> c.cloud.identity->0.api_base@ == u@
            },
            _ => ticket is None && c.cloud == b.cloud && again is Some,
        },
        c.file == a.file,
{
}

/// Of the sheets that the cloud lists, the first is selected, and opening it downloads
/// that sheet; where there are none, nothing is opened.
pub proof fn the_selected_sheet_is_downloaded(
    a: Spreadsheet,
    b: Spreadsheet,
    c: Spreadsheet,
    sheets: Vec<SheetInfo>,
    download: Option<SheetInfo>,
)
    requires
        sheets_listed(a, b, CloudAnswer::Done(sheets)),
        selected_opened(b, c, download),
    ensures
        b.mode == Mode::CloudOpen && !b.cloud.sheets_loading && b.cloud.identity
            == a.cloud.identity,
        sheets@.len() > 0 ==> download == Some(sheets@[0]) && c.mode == Mode::Navigation,
        sheets@.len() == 0 ==> download is None && c == b,
{
}

/// Whatever sheet is selected in the list is the one that is downloaded.
pub proof fn a_selection_is_followed(old: Spreadsheet, new: Spreadsheet, download: Option<SheetInfo>, i: usize)
    requires
        selected_opened(old, new, download),
        old.cloud.selected_sheet == Some(i),
        i < old.cloud.sheets_list@.len(),
    ensures
        download == Some(old.cloud.sheets_list@[i as int]),
        new.cloud == old.cloud && new.file == old.file,
{
}

/// A sheet that was opened from the cloud belongs to the cloud: the next save of it is
/// uploaded to that sheet.
pub proof fn an_opened_sheet_is_uploaded_to(
    a: Spreadsheet,
    b: Spreadsheet,
    c: Spreadsheet,
    info: SheetInfo,
    api_base: Option<String>,
    ticket: Option<UploadTicket>,
)
    requires
        sheet_attached(a, b, info, api_base),
        b.file.current_file is Some,
        b.cloud.upload_generation < u64::MAX,
        upload_scheduled(b, c, ticket),
    ensures
        b.cloud.sync_state == CloudSyncState::Synced,
        ticket matches Some(t) && t.sheet_id == info.id,
        b.cloud.identity matches Some(i) && i.public_id@ == info.public_id@ && i.sheet_name@
            == info.name@ && (api_base is None ==> i.api_base@ == hub_link::HUB_API_BASE@) && (
        api_base matches Some(u) ==> i.api_base@ == u@),
{
}

} // verus!
