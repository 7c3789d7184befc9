//! Checking how a file stands to the hub, and publishing it.

use vstd::prelude::*;

use crate::hub::{HubActivity, HubLink, HubState, HubStatus};
use crate::startup;
use crate::state::{Mode, Spreadsheet};
use crate::text;

verus! {

/// The largest file that is published, in bytes.
pub const MAX_PUBLISH_SIZE: u64 = 209_715_200;

/// What has to be done next to publish.
#[derive(Debug, PartialEq, Eq)]
pub enum PublishStep {
    Stop,
    /// Create a revision of the dataset for this many bytes.
    CreateRevision(String, u64),
    /// Upload the file to where the hub said.
    Upload,
    /// Tell the hub that the upload is complete.
    Complete,
    /// Save the link with its new head.
    SaveLink,
}

pub open spec fn is_forbidden(e: Seq<char>) -> bool {
    text::contains_text(e, "403"@) || text::contains_text(e, "Forbidden"@)
}

/// What starting to publish does.
pub open spec fn publish_started(
    old: Spreadsheet,
    new: Spreadsheet,
    step: PublishStep,
    signed_in: bool,
    size: Result<u64, String>,
) -> bool {
    if old.file.current_file is None || old.hub.link is None {
        step == PublishStep::Stop && new == old
    } else if !signed_in {
        step == PublishStep::Stop && crate::hub::hub_says(
            old,
            new,
            old.hub.status,
            old.hub.activity,
            Some("Not authenticated"@),
            "Sign in first"@,
        )
    } else {
        match size {
            Err(e) => step == PublishStep::Stop && crate::hub::hub_says(
                old,
                new,
                old.hub.status,
                old.hub.activity,
                Some(e@),
                "Cannot read file: "@ + e@,
            ),
            Ok(n) => if n > MAX_PUBLISH_SIZE {
                step == PublishStep::Stop && crate::hub::only_says(
                    old,
                    new,
                    "File too large for cloud sync (max 200 MB)"@,
                )
            } else {
                &&& crate::hub::hub_moves(
                    old,
                    new,
                    HubStatus::Syncing,
                    Some(HubActivity::Uploading),
                    None,
                )
                &&& step matches PublishStep::CreateRevision(d, b) && d@
                    == old.hub.link->0.dataset_id@ && b == n
            },
        }
    }

}

impl Spreadsheet {
    /// Start to check the status of the open file. `stored` is the link that
    /// the file holds, or why it cannot be read; it is only looked at where no
    /// link is known yet. The result is the dataset to ask the hub about.
    pub fn hub_check_status(
        &mut self,
        stored: &Result<Option<HubLink>, String>,
        signed_in: bool,
    ) -> (ask: Option<String>)
        ensures
            check_started(*old(self), *final(self), *stored, signed_in, ask),
    {
        if self.hub.check_in_progress {
            return None;
        }
        if self.file.current_file.is_none() {
            self.hub.status = HubStatus::Unlinked;
            self.hub.activity = None;
            return None;
        }
        if self.hub.link.is_none() {
            match stored {
                Ok(Some(link)) => {
                    self.hub.link = Some(link.clone());
                },
                Ok(None) => {
                    self.hub.status = HubStatus::Unlinked;
                    self.hub.activity = None;
                    return None;
                },
                Err(e) => {
                    self.say_with("Failed to load hub link: ", e.as_str());
                    self.hub.last_error = Some(e.clone());
                    return None;
                },
            }
        }
        if !signed_in {
            self.hub.status = HubStatus::Offline;
            self.hub.activity = None;
            self.hub.last_error = Some(text::lit("Not authenticated"));
            self.say("Not signed in");
            return None;
        }
        self.hub.status = HubStatus::Syncing;
        self.hub.activity = Some(HubActivity::Checking);
        self.hub.check_in_progress = true;
        self.hub.last_error = None;
        match &self.hub.link {
            Some(link) => Some(link.dataset_id.clone()),
            None => None,
        }
    }

    /// The hub has answered the check. `status` is what the link, the file's
    /// hash and the answer come to.
    pub fn hub_status_checked(&mut self, answer: &Result<(), String>, status: HubStatus)
        ensures
            status_checked(*old(self), *final(self), *answer, status),
    {
        self.hub.check_in_progress = false;
        self.hub.activity = None;
        self.hub.status = status;
        match answer {
            Ok(_) => {
                self.hub.last_error = None;
            },
            Err(e) => {
                self.hub.last_error = Some(e.clone());
                self.say_with("Hub: ", e.as_str());
            },
        }
    }

    /// Ask to publish. The result is whether to go on at once; where local and
    /// remote have diverged the user is asked first.
    pub fn hub_publish(&mut self, signed_in: bool) -> (go: bool)
        ensures
            publish_asked(*old(self), *final(self), signed_in, go),
    {
        if self.file.current_file.is_none() {
            self.say("Save file first");
            return false;
        }
        let pull_only = match &self.hub.link {
            None => {
                self.say("Link to a repository first");
                return false;
            },
            Some(link) => text::str_eq(link.link_mode.as_str(), "pull"),
        };
        if pull_only {
            self.say(
                "This workbook is linked in Pull-only mode. Use 'Hub: Link to Dataset' to change to Pull & Publish.",
            );
            return false;
        }
        if !signed_in {
            self.say("Sign in first");
            return false;
        }
        if self.hub.status == HubStatus::Diverged {
            self.mode = Mode::HubPublishConfirm;
            return false;
        }
        true
    }

    /// Start to publish. `size` is the length of the file, or why it cannot be
    /// read.
    pub fn hub_publish_internal(&mut self, signed_in: bool, size: &Result<u64, String>) -> (step: PublishStep)
        ensures
            publish_started(*old(self), *final(self), step, signed_in, *size),
    {
        if self.file.current_file.is_none() {
            return PublishStep::Stop;
        }
        let dataset = match &self.hub.link {
            None => {
                return PublishStep::Stop;
            },
            Some(link) => link.dataset_id.clone(),
        };
        if !signed_in {
            self.hub.last_error = Some(text::lit("Not authenticated"));
            self.say("Sign in first");
            return PublishStep::Stop;
        }
        match size {
            Err(e) => {
                self.hub.last_error = Some(e.clone());
                self.say_with("Cannot read file: ", e.as_str());
                PublishStep::Stop
            },
            Ok(n) => {
                if *n > MAX_PUBLISH_SIZE {
                    self.say("File too large for cloud sync (max 200 MB)");
                    return PublishStep::Stop;
                }
                self.hub.status = HubStatus::Syncing;
                self.hub.activity = Some(HubActivity::Uploading);
                self.hub.last_error = None;
                PublishStep::CreateRevision(dataset, *n)
            },
        }
    }

    /// The hub has created a revision, or refused to.
    pub fn hub_revision_created(&mut self, created: &Result<(), String>) -> (step: PublishStep)
        ensures
            revision_created(*old(self), *final(self), *created, step),
    {
        match created {
            Ok(_) => PublishStep::Upload,
            Err(e) => {
                let forbidden = text::contains(e.as_str(), "403") || text::contains(
                    e.as_str(),
                    "Forbidden",
                );
                self.hub.activity = None;
                self.hub.last_error = Some(e.clone());
                if forbidden {
                    self.hub.status = HubStatus::Forbidden;
                    self.say("You don't have permission to publish");
                } else {
                    self.hub.status = HubStatus::Offline;
                    self.say_with("Failed to create revision: ", e.as_str());
                }
                PublishStep::Stop
            },
        }
    }

    /// The upload is over.
    pub fn hub_uploaded(&mut self, uploaded: &Result<(), String>) -> (step: PublishStep)
        ensures
            file_uploaded(*old(self), *final(self), *uploaded, step),
    {
        match uploaded {
            Ok(_) => {
                self.hub.activity = Some(HubActivity::Finalizing);
                PublishStep::Complete
            },
            Err(e) => {
                self.hub.status = HubStatus::Offline;
                self.hub.activity = None;
                self.hub.last_error = Some(e.clone());
                self.say_with("Upload failed: ", e.as_str());
                PublishStep::Stop
            },
        }
    }

    /// The hub has taken the upload as the new revision, or has not. The head
    /// of the link moves only when it has.
    pub fn hub_revision_completed(
        &mut self,
        completed: &Result<(), String>,
        revision_id: &str,
        content_hash: &str,
    ) -> (step: PublishStep)
        ensures
            revision_completed(*old(self), *final(self), *completed, revision_id@, content_hash@, step),
    {
        match completed {
            Err(e) => {
                self.hub.status = HubStatus::Offline;
                self.hub.activity = None;
                self.hub.last_error = Some(e.clone());
                self.say_with("Failed to finalize: ", e.as_str());
                PublishStep::Stop
            },
            Ok(_) => {
                let mut step = PublishStep::Stop;
                let link = match &self.hub.link {
                    None => None,
                    Some(l) => {
                        if self.file.current_file.is_some() {
                            step = PublishStep::SaveLink;
                        }
                        Some(crate::hub::moved_link(l, revision_id, content_hash))
                    },
                };
                self.hub.link = link;
                self.hub.status = HubStatus::Idle;
                self.hub.activity = None;
                self.hub.last_error = None;
                self.say("Published");
                step
            },
        }
    }

    /// Forget the link of the open file. `deleted` is whether it could be
    /// deleted from the file; without an open file nothing happens.
    pub fn hub_unlink(&mut self, deleted: &Result<(), String>)
        ensures
            file_unlinked(*old(self), *final(self), *deleted),
    {
        if self.file.current_file.is_none() {
            return;
        }
        match deleted {
            Err(e) => {
                self.hub.last_error = Some(e.clone());
                self.say_with("Failed to unlink: ", e.as_str());
            },
            Ok(_) => {
                self.hub.link = None;
                self.hub.status = HubStatus::Unlinked;
                self.hub.activity = None;
                self.hub.last_error = None;
                self.say("Unlinked");
            },
        }
    }

    /// Leave the question whether to publish over a divergence.
    pub fn hub_cancel_publish_confirm(&mut self)
        ensures
            *final(self) == (Spreadsheet { mode: Mode::Navigation, ..*old(self) }),
    {
        self.mode = Mode::Navigation;
    }

    /// Publish although local and remote have diverged.
    pub fn hub_confirm_publish_anyway(&mut self, signed_in: bool, size: &Result<u64, String>) -> (step: PublishStep)
        ensures
            publish_started(
                Spreadsheet { mode: Mode::Navigation, ..*old(self) },
                *final(self),
                step,
                signed_in,
                *size,
            ),
    {
        self.mode = Mode::Navigation;
        self.hub_publish_internal(signed_in, size)
    }
}

// ---------------------------------------------------------------------------
// Diagnostics
// ---------------------------------------------------------------------------

pub open spec fn status_word(s: HubStatus) -> Seq<char> {
    match s {
        HubStatus::Unlinked => "Unlinked"@,
        HubStatus::Idle => "Idle"@,
        HubStatus::Ahead => "Ahead"@,
        HubStatus::Behind => "Behind"@,
        HubStatus::Diverged => "Diverged"@,
        HubStatus::Syncing => "Syncing"@,
        HubStatus::Offline => "Offline"@,
        HubStatus::Forbidden => "Forbidden"@,
    }
}

fn status_name(s: HubStatus) -> (r: String)
    ensures
        r@ == status_word(s),
{
    match s {
        HubStatus::Unlinked => text::lit("Unlinked"),
        HubStatus::Idle => text::lit("Idle"),
        HubStatus::Ahead => text::lit("Ahead"),
        HubStatus::Behind => text::lit("Behind"),
        HubStatus::Diverged => text::lit("Diverged"),
        HubStatus::Syncing => text::lit("Syncing"),
        HubStatus::Offline => text::lit("Offline"),
        HubStatus::Forbidden => text::lit("Forbidden"),
    }
}

pub open spec fn activity_word(a: HubActivity) -> Seq<char> {
    match a {
        HubActivity::Checking => "Checking"@,
        HubActivity::Downloading => "Downloading"@,
        HubActivity::Verifying => "Verifying"@,
        HubActivity::Writing => "Writing"@,
        HubActivity::Reloading => "Reloading"@,
        HubActivity::Uploading => "Uploading"@,
        HubActivity::Finalizing => "Finalizing"@,
    }
}

fn activity_name(a: HubActivity) -> (r: String)
    ensures
        r@ == activity_word(a),
{
    match a {
        HubActivity::Checking => text::lit("Checking"),
        HubActivity::Downloading => text::lit("Downloading"),
        HubActivity::Verifying => text::lit("Verifying"),
        HubActivity::Writing => text::lit("Writing"),
        HubActivity::Reloading => text::lit("Reloading"),
        HubActivity::Uploading => text::lit("Uploading"),
        HubActivity::Finalizing => text::lit("Finalizing"),
    }
}

/// The name that a signed-in user goes by.
pub open spec fn user_word(slug: Option<String>) -> Seq<char> {
    match slug {
        Some(s) => s@,
        None => "unknown"@,
    }
}

/// A line, where there is something to put behind its label.
pub open spec fn opt_line(label: Seq<char>, value: Option<Seq<char>>) -> Seq<Seq<char>> {
    match value {
        Some(v) => seq![label + v],
        None => Seq::empty(),
    }
}

pub open spec fn link_lines(link: Option<HubLink>) -> Seq<Seq<char>> {
    match link {
        None => seq!["Not linked"@],
        Some(l) => seq![
            "Dataset: "@ + l.repo_owner@ + "/"@ + l.repo_slug@ + "/"@ + l.dataset_id@,
            "API: "@ + l.api_base@,
            "Linked at: "@ + l.linked_at@,
            "Link mode: "@ + l.link_mode@,
        ] + opt_line("Local head ID: "@, text::opt_text(l.local_head_id)) + opt_line(
            "Local head hash: "@,
            text::opt_text(l.local_head_hash),
        ),
    }
}

/// The lines of the diagnostics.
pub open spec fn diagnostic_lines(
    s: Spreadsheet,
    user: Option<Option<String>>,
    last_check: Option<Seq<char>>,
    hash: Option<Seq<char>>,
) -> Seq<Seq<char>> {
    seq![
        "=== Hub Diagnostics ==="@,
        "Sync is manual. Nothing uploads automatically."@,
        Seq::<char>::empty(),
        match user {
            Some(u) => "Signed in as: @"@ + user_word(u),
            None => "Not signed in"@,
        },
        "Status: "@ + status_word(s.hub.status),
    ] + opt_line(
        "Activity: "@,
        match s.hub.activity {
            Some(a) => Some(activity_word(a)),
            None => None,
        },
    ) + link_lines(s.hub.link) + opt_line("Last check: "@, last_check) + opt_line(
        "Last error: "@,
        text::opt_text(s.hub.last_error),
    ) + match s.file.current_file {
        Some(p) => seq!["File: "@ + p.display@] + opt_line("Current hash: "@, hash),
        None => Seq::empty(),
    }
}

fn push_line(lines: &mut Vec<String>, line: String)
    ensures
        text::texts(final(lines)@) == text::texts(old(lines)@) + seq![line@],
{
    let ghost t = line@;
    lines.push(line);
    assert(text::texts(lines@) =~= text::texts(old(lines)@) + seq![t]);
}

fn push_opt_line(lines: &mut Vec<String>, label: &str, value: &Option<String>)
    ensures
        text::texts(final(lines)@) == text::texts(old(lines)@) + opt_line(
            label@,
            text::opt_text(*value),
        ),
{
    match value {
        Some(v) => {
            push_line(lines, text::cat(label, v.as_str()));
        },
        None => {
            assert(text::texts(lines@) =~= text::texts(lines@) + Seq::<
                Seq<char>,
            >::empty());
        },
    }
}

fn push_link_lines(lines: &mut Vec<String>, link: &Option<HubLink>)
    ensures
        text::texts(final(lines)@) == text::texts(old(lines)@) + link_lines(*link),
{
    let ghost start = text::texts(lines@);
    match link {
        None => {
            push_line(lines, text::lit("Not linked"));
        },
        Some(l) => {
            let mut d = text::lit("Dataset: ");
            d.append(l.repo_owner.as_str());
            d.append("/");
            d.append(l.repo_slug.as_str());
            d.append("/");
            d.append(l.dataset_id.as_str());
            push_line(lines, d);
            push_line(lines, text::cat("API: ", l.api_base.as_str()));
            push_line(lines, text::cat("Linked at: ", l.linked_at.as_str()));
            push_line(lines, text::cat("Link mode: ", l.link_mode.as_str()));
            push_opt_line(lines, "Local head ID: ", &l.local_head_id);
            push_opt_line(lines, "Local head hash: ", &l.local_head_hash);
            assert(text::texts(lines@) =~= start + link_lines(*link));
        },
    }
}

impl Spreadsheet {
    /// Show how the hub synchronisation stands. `user` is the signed-in user's
    /// name, if one is signed in and has a name; `last_check` says how long ago
    /// the last check was; `hash` is the hash of the file on disk, if it has
    /// one.
    pub fn hub_diagnostics(
        &mut self,
        user: &Option<Option<String>>,
        last_check: &Option<String>,
        hash: &Option<String>,
    )
        ensures
            crate::hub::only_says(
                *old(self),
                *final(self),
                startup::joined(
                    diagnostic_lines(
                        *old(self),
                        *user,
                        text::opt_text(*last_check),
                        text::opt_text(*hash),
                    ),
                    "\n"@,
                ),
            ),
    {
        let mut lines: Vec<String> = Vec::new();
        push_line(&mut lines, text::lit("=== Hub Diagnostics ==="));
        push_line(&mut lines, text::lit("Sync is manual. Nothing uploads automatically."));
        push_line(&mut lines, String::new());
        match user {
            Some(slug) => {
                let name = match slug {
                    Some(s) => s.clone(),
                    None => text::lit("unknown"),
                };
                push_line(&mut lines, text::cat("Signed in as: @", name.as_str()));
            },
            None => {
                push_line(&mut lines, text::lit("Not signed in"));
            },
        }
        let word = status_name(self.hub.status);
        push_line(&mut lines, text::cat("Status: ", word.as_str()));
        let activity = match self.hub.activity {
            Some(a) => Some(activity_name(a)),
            None => None,
        };
        push_opt_line(&mut lines, "Activity: ", &activity);
        push_link_lines(&mut lines, &self.hub.link);
        push_opt_line(&mut lines, "Last check: ", last_check);
        push_opt_line(&mut lines, "Last error: ", &self.hub.last_error);
        match &self.file.current_file {
            Some(p) => {
                push_line(&mut lines, text::cat("File: ", p.display.as_str()));
                push_opt_line(&mut lines, "Current hash: ", hash);
            },
            None => {},
        }
        assert(text::texts(lines@) =~= diagnostic_lines(
            *self,
            *user,
            text::opt_text(*last_check),
            text::opt_text(*hash),
        ));
        let all = startup::join(&lines, "\n");
        self.say(all.as_str());
    }
}

/// The hub is to be asked how the linked dataset stands.
pub open spec fn check_started(
    old: Spreadsheet,
    new: Spreadsheet,
    stored: Result<Option<HubLink>, String>,
    signed_in: bool,
    ask: Option<String>,
) -> bool {
    &&& old.hub.check_in_progress ==> ask is None && new == old
    &&& !old.hub.check_in_progress && old.file.current_file is None ==> {
        &&& ask is None
        &&& new == (Spreadsheet {
            hub: HubState { status: HubStatus::Unlinked, activity: None, ..old.hub },
            ..old
        })
    }
    &&& !old.hub.check_in_progress && old.file.current_file is Some ==> {
        let known = if old.hub.link is Some {
            Ok(old.hub.link)
        } else {
            stored
        };
        match known {
            Err(e) => {
                &&& ask is None
                &&& crate::hub::hub_says(
                    old,
                    new,
                    old.hub.status,
                    old.hub.activity,
                    Some(e@),
                    "Failed to load hub link: "@ + e@,
                )
            },
            Ok(None) => {
                &&& ask is None
                &&& new == (Spreadsheet {
                    hub: HubState {
                        status: HubStatus::Unlinked,
                        activity: None,
                        ..old.hub
                    },
                    ..old
                })
            },
            Ok(Some(link)) => if signed_in {
                &&& text::opt_text(ask) == Some(link.dataset_id@)
                &&& new == (Spreadsheet {
                    hub: HubState {
                        link: Some(link),
                        status: HubStatus::Syncing,
                        activity: Some(HubActivity::Checking),
                        check_in_progress: true,
                        last_error: None,
                        ..old.hub
                    },
                    ..old
                })
            } else {
                &&& ask is None
                &&& new == (Spreadsheet {
                    hub: HubState {
                        link: Some(link),
                        status: HubStatus::Offline,
                        activity: None,
                        last_error: new.hub.last_error,
                        ..old.hub
                    },
                    status_message: new.status_message,
                    ..old
                })
                &&& text::opt_text(new.hub.last_error) == Some(
                    "Not authenticated"@,
                )
                &&& text::opt_text(new.status_message) == Some("Not signed in"@)
            },
        }
    }
}

/// The hub has answered how the linked dataset stands.
pub open spec fn status_checked(
    old: Spreadsheet,
    new: Spreadsheet,
    answer: Result<(), String>,
    status: HubStatus,
) -> bool {
    &&& match answer {
        Ok(_) => new == (Spreadsheet {
            hub: HubState {
                check_in_progress: false,
                activity: None,
                status,
                last_error: None,
                ..old.hub
            },
            ..old
        }),
        Err(e) => {
            &&& new == (Spreadsheet {
                hub: HubState {
                    check_in_progress: false,
                    activity: None,
                    status,
                    last_error: new.hub.last_error,
                    ..old.hub
                },
                status_message: new.status_message,
                ..old
            })
            &&& text::opt_text(new.hub.last_error) == Some(e@)
            &&& text::opt_text(new.status_message) == Some("Hub: "@ + e@)
        },
    }
}

/// The file is to be published.
pub open spec fn publish_asked(
    old: Spreadsheet,
    new: Spreadsheet,
    signed_in: bool,
    go: bool,
) -> bool {
    &&& ({
        let pull_only = old.hub.link is Some && old.hub.link->0.link_mode@
            == "pull"@;
        if old.file.current_file is None {
            !go && crate::hub::only_says(old, new, "Save file first"@)
        } else if old.hub.link is None {
            !go && crate::hub::only_says(
                old,
                new,
                "Link to a repository first"@,
            )
        } else if pull_only {
            !go && crate::hub::only_says(
                old,
                new,
                "This workbook is linked in Pull-only mode. Use 'Hub: Link to Dataset' to change to Pull & Publish."@,
            )
        } else if !signed_in {
            !go && crate::hub::only_says(old, new, "Sign in first"@)
        } else if old.hub.status == HubStatus::Diverged {
            !go && new == (Spreadsheet {
                mode: Mode::HubPublishConfirm,
                ..old
            })
        } else {
            go && new == old
        }
    })
}

/// The hub was asked for a new revision.
pub open spec fn revision_created(
    old: Spreadsheet,
    new: Spreadsheet,
    created: Result<(), String>,
    step: PublishStep,
) -> bool {
    &&& match created {
        Ok(_) => step == PublishStep::Upload && new == old,
        Err(e) => step == PublishStep::Stop && crate::hub::hub_says(
            old,
            new,
            if is_forbidden(e@) {
                HubStatus::Forbidden
            } else {
                HubStatus::Offline
            },
            None,
            Some(e@),
            if is_forbidden(e@) {
                "You don't have permission to publish"@
            } else {
                "Failed to create revision: "@ + e@
            },
        ),
    }
}

/// The file was to be uploaded.
pub open spec fn file_uploaded(
    old: Spreadsheet,
    new: Spreadsheet,
    done: Result<(), String>,
    step: PublishStep,
) -> bool {
    &&& match done {
        Ok(_) => step == PublishStep::Complete && crate::hub::hub_moves(
            old,
            new,
            old.hub.status,
            Some(HubActivity::Finalizing),
            text::opt_text(old.hub.last_error),
        ),
        Err(e) => step == PublishStep::Stop && crate::hub::hub_says(
            old,
            new,
            HubStatus::Offline,
            None,
            Some(e@),
            "Upload failed: "@ + e@,
        ),
    }
}

/// The hub was told that the upload is complete.
pub open spec fn revision_completed(
    old: Spreadsheet,
    new: Spreadsheet,
    completed: Result<(), String>,
    revision_id: Seq<char>,
    content_hash: Seq<char>,
    step: PublishStep,
) -> bool {
    &&& match completed {
        Err(e) => step == PublishStep::Stop && crate::hub::hub_says(
            old,
            new,
            HubStatus::Offline,
            None,
            Some(e@),
            "Failed to finalize: "@ + e@,
        ),
        Ok(_) => {
            &&& new == (Spreadsheet {
                hub: new.hub,
                status_message: new.status_message,
                ..old
            })
            &&& new.hub == (HubState {
                link: new.hub.link,
                status: HubStatus::Idle,
                activity: None,
                last_error: None,
                ..old.hub
            })
            &&& text::opt_text(new.status_message) == Some("Published"@)
            &&& match old.hub.link {
                None => new.hub.link is None && step == PublishStep::Stop,
                Some(l) => new.hub.link is Some && crate::hub::head_moved(
                    l,
                    new.hub.link->0,
                    revision_id,
                    content_hash,
                ) && step == if old.file.current_file is Some {
                    PublishStep::SaveLink
                } else {
                    PublishStep::Stop
                },
            }
        },
    }
}

/// The link was to be taken off the file.
pub open spec fn file_unlinked(
    old: Spreadsheet,
    new: Spreadsheet,
    deleted: Result<(), String>,
) -> bool {
    &&& old.file.current_file is None ==> new == old
    &&& old.file.current_file is Some ==> match deleted {
        Err(e) => crate::hub::hub_says(
            old,
            new,
            old.hub.status,
            old.hub.activity,
            Some(e@),
            "Failed to unlink: "@ + e@,
        ),
        Ok(_) => {
            &&& new == (Spreadsheet {
                hub: HubState {
                    link: None,
                    status: HubStatus::Unlinked,
                    activity: None,
                    last_error: None,
                    ..old.hub
                },
                status_message: new.status_message,
                ..old
            })
            &&& text::opt_text(new.status_message) == Some("Unlinked"@)
        },
    }
}

// ---------------------------------------------------------------------------
// Laws
// ---------------------------------------------------------------------------

/// A file is published only where it is linked for that: there is a file and a link,
/// the link is not for pulling alone, and someone is signed in. Where the file and the
/// dataset have both changed, it is asked first.
pub proof fn what_publishing_needs(old: Spreadsheet, new: Spreadsheet, signed_in: bool, go: bool)
    requires
        publish_asked(old, new, signed_in, go),
    ensures
        go ==> old.file.current_file is Some && signed_in && (old.hub.link matches Some(l)
            && l.link_mode@ != "pull"@) && old.hub.status != HubStatus::Diverged && new == old,
        old.file.current_file is Some && signed_in && (old.hub.link matches Some(l) && l.link_mode@
            != "pull"@) ==> (go <==> old.hub.status != HubStatus::Diverged) && (!go ==> new.mode
            == Mode::HubPublishConfirm),
        !go ==> new.mode == old.mode || (new.mode == Mode::HubPublishConfirm && old.hub.status
            == HubStatus::Diverged),
        new.hub == old.hub && new.file == old.file,
{
}

/// A revision is made of the linked dataset, for just the bytes of the file, and never
/// for more than can be published.
pub proof fn a_revision_is_of_the_linked_dataset(
    old: Spreadsheet,
    new: Spreadsheet,
    step: PublishStep,
    signed_in: bool,
    size: Result<u64, String>,
)
    requires
        publish_started(old, new, step, signed_in, size),
    ensures
        step is CreateRevision || step == PublishStep::Stop,
        step is CreateRevision <==> signed_in && old.file.current_file is Some && old.hub.link
            is Some && (size matches Ok(n) && n <= 200 * 1024 * 1024),
        step matches PublishStep::CreateRevision(d, b) ==> (old.hub.link matches Some(l) && d@
            == l.dataset_id@) && size == Result::<u64, String>::Ok(b) && new.hub.status
            == HubStatus::Syncing && new.hub.activity == Some(HubActivity::Uploading),
        step == PublishStep::Stop ==> new.hub.status == old.hub.status && new.hub.activity
            == old.hub.activity,
        new.file == old.file && new.hub.link == old.hub.link,
{
}

/// Publishing goes from the revision over the upload to its completion, each step only
/// where the one before succeeded, and leaves the file in step: the same dataset, with
/// the new revision and its hash as the head.
pub proof fn publishing_leaves_the_file_in_step(
    a: Spreadsheet,
    b: Spreadsheet,
    c: Spreadsheet,
    d: Spreadsheet,
    created: Result<(), String>,
    done: Result<(), String>,
    completed: Result<(), String>,
    revision_id: Seq<char>,
    content_hash: Seq<char>,
    s1: PublishStep,
    s2: PublishStep,
    s3: PublishStep,
)
    requires
        revision_created(a, b, created, s1),
        file_uploaded(b, c, done, s2),
        revision_completed(c, d, completed, revision_id, content_hash, s3),
    ensures
        s1 == PublishStep::Upload <==> created is Ok,
        s2 == PublishStep::Complete <==> done is Ok,
        created is Err ==> s1 == PublishStep::Stop && b.hub.last_error is Some && b.hub.activity
            is None,
        done is Err ==> s2 == PublishStep::Stop && c.hub.status == HubStatus::Offline,
        completed is Err ==> s3 == PublishStep::Stop && d.hub.status == HubStatus::Offline
            && d.hub.link == a.hub.link,
        completed is Ok ==> d.hub.status == HubStatus::Idle && d.hub.activity is None
            && d.hub.last_error is None && (a.hub.link is Some <==> d.hub.link is Some) && (
        a.hub.link matches Some(l) ==> (d.hub.link matches Some(m) && m.dataset_id == l.dataset_id
            && m.link_mode == l.link_mode && text::opt_text(m.local_head_id) == Some(revision_id)
            && text::opt_text(m.local_head_hash) == Some(content_hash)) && (s3
            == PublishStep::SaveLink <==> a.file.current_file is Some)),
        d.file == a.file,
{
}

/// Only an answer that speaks of a refusal is taken for one.
pub proof fn a_refusal_is_told_from_a_failure(
    old: Spreadsheet,
    new: Spreadsheet,
    a: Seq<char>,
    e: String,
    b: Seq<char>,
    step: PublishStep,
)
    requires
        revision_created(old, new, Err(e), step),
    ensures
        e@ == a + "403"@ + b || e@ == a + "Forbidden"@ + b ==> new.hub.status
            == HubStatus::Forbidden,
        !text::contains_text(e@, "403"@) && !text::contains_text(e@, "Forbidden"@)
            ==> new.hub.status == HubStatus::Offline,
        text::opt_text(new.hub.last_error) == Some(e@),
{
    text::what_it_means_to_hold_a_text(a, "403"@, b);
    text::what_it_means_to_hold_a_text(a, "Forbidden"@, b);
}

/// The hub is asked about the dataset that the file is linked to, by the window or by
/// the file, and one question at a time. Without a link there is nothing to ask, and
/// the answer is what is shown.
pub proof fn the_hub_is_asked_about_the_linked_dataset(
    a: Spreadsheet,
    b: Spreadsheet,
    c: Spreadsheet,
    stored: Result<Option<HubLink>, String>,
    signed_in: bool,
    ask: Option<String>,
    answer: Result<(), String>,
    status: HubStatus,
)
    requires
        check_started(a, b, stored, signed_in, ask),
        status_checked(b, c, answer, status),
    ensures
        a.hub.check_in_progress ==> ask is None && b == a,
        ask is Some ==> signed_in && a.file.current_file is Some && b.hub.check_in_progress
            && b.hub.status == HubStatus::Syncing && (b.hub.link matches Some(l)
            && text::opt_text(ask) == Some(l.dataset_id@)),
        ask is Some && a.hub.link is Some ==> b.hub.link == a.hub.link,
        ask is Some && a.hub.link is None ==> stored == Result::<Option<HubLink>, String>::Ok(
            b.hub.link,
        ),
        !a.hub.check_in_progress && signed_in && a.file.current_file is Some && (a.hub.link is Some
            || stored matches Ok(Some(_))) ==> ask is Some,
        !a.hub.check_in_progress && a.file.current_file is Some && a.hub.link is None && stored
            == Result::<Option<HubLink>, String>::Ok(None) ==> b.hub.status == HubStatus::Unlinked,
        !c.hub.check_in_progress && c.hub.status == status && c.hub.activity is None,
        answer is Ok ==> c.hub.last_error is None,
        answer matches Err(e) ==> text::opt_text(c.hub.last_error) == Some(e@),
        c.hub.link == b.hub.link && c.file == a.file,
{
}

/// A file whose link was taken off is not linked, and one whose link could not be taken
/// off still is.
pub proof fn an_unlinked_file_has_no_link(
    old: Spreadsheet,
    new: Spreadsheet,
    deleted: Result<(), String>,
)
    requires
        file_unlinked(old, new, deleted),
        old.file.current_file is Some,
    ensures
        deleted is Ok ==> new.hub.link is None && new.hub.status == HubStatus::Unlinked
            && new.hub.activity is None && new.hub.last_error is None,
        deleted is Err ==> new.hub.link == old.hub.link && new.hub.status == old.hub.status,
        new.file == old.file && new.cloud == old.cloud,
{
}

/// Each status and each activity has a word of its own.
pub proof fn words_of_the_hub_differ(s: HubStatus, t: HubStatus, x: HubActivity, y: HubActivity)
    ensures
        status_word(s) == status_word(t) ==> s == t,
        activity_word(x) == activity_word(y) ==> x == y,
{
    reveal_strlit("Unlinked");
    reveal_strlit("Idle");
    reveal_strlit("Ahead");
    reveal_strlit("Behind");
    reveal_strlit("Diverged");
    reveal_strlit("Syncing");
    reveal_strlit("Offline");
    reveal_strlit("Forbidden");
    reveal_strlit("Checking");
    reveal_strlit("Downloading");
    reveal_strlit("Verifying");
    reveal_strlit("Writing");
    reveal_strlit("Reloading");
    reveal_strlit("Uploading");
    reveal_strlit("Finalizing");
    assert("Unlinked"@[0] == 'U' && "Idle"@[0] == 'I' && "Ahead"@[0] == 'A' && "Behind"@[0] == 'B');
    assert("Diverged"@[0] == 'D' && "Syncing"@[0] == 'S' && "Offline"@[0] == 'O' && "Forbidden"@[0]
        == 'F');
    assert("Checking"@[0] == 'C' && "Downloading"@[0] == 'D' && "Verifying"@[0] == 'V');
    assert("Writing"@[0] == 'W' && "Reloading"@[0] == 'R' && "Uploading"@[0] == 'U');
    assert("Finalizing"@[0] == 'F');
}

/// The diagnostics name the dataset where the file is linked and say so where it is
/// not, and they tell the status and an error where there is one.
pub proof fn diagnostics_tell_the_link(
    s: Spreadsheet,
    user: Option<Option<String>>,
    last_check: Option<Seq<char>>,
    hash: Option<Seq<char>>,
)
    ensures
        diagnostic_lines(s, user, last_check, hash).contains(
            "Status: "@ + status_word(s.hub.status),
        ),
        s.hub.link is None ==> diagnostic_lines(s, user, last_check, hash).contains("Not linked"@),
        s.hub.link matches Some(l) ==> diagnostic_lines(s, user, last_check, hash).contains(
            "Dataset: "@ + l.repo_owner@ + "/"@ + l.repo_slug@ + "/"@ + l.dataset_id@,
        ) && diagnostic_lines(s, user, last_check, hash).contains("Link mode: "@ + l.link_mode@),
        s.hub.last_error matches Some(e) ==> diagnostic_lines(
            s,
            user,
            last_check,
            hash,
        ).contains("Last error: "@ + e@),
        s.hub.activity matches Some(a) ==> diagnostic_lines(s, user, last_check, hash).contains(
            "Activity: "@ + activity_word(a),
        ),
{
    let all = diagnostic_lines(s, user, last_check, hash);
    assert(all[4] == "Status: "@ + status_word(s.hub.status));
    let act = opt_line(
        "Activity: "@,
        match s.hub.activity {
            Some(a) => Some(activity_word(a)),
            None => None,
        },
    );
    let n: int = 5 + act.len() as int;
    let links = link_lines(s.hub.link);
    if let Some(a) = s.hub.activity {
        assert(all[5] == "Activity: "@ + activity_word(a));
    }
    match s.hub.link {
        Some(l) => {
            assert(all[n] == links[0]);
            assert(all[n + 3] == links[3]);
            assert(links[0] == "Dataset: "@ + l.repo_owner@ + "/"@ + l.repo_slug@ + "/"@
                + l.dataset_id@);
        },
        None => {
            assert(all[n] == links[0]);
        },
    }
    if let Some(e) = s.hub.last_error {
        let k = n + links.len() + opt_line("Last check: "@, last_check).len();
        assert(all[k as int] == "Last error: "@ + e@);
    }
}

} // verus!
