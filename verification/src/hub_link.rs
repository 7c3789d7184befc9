//! Signing in to the hub, and linking a file to a dataset.

use vstd::prelude::*;

use crate::hub::{DatasetInfo, HubLink, HubState, RepoInfo};
use crate::state::{Mode, Spreadsheet};
use crate::text;
use crate::timestamps;

verus! {

/// Where the hub's interface is reached.
pub const HUB_API_BASE: &'static str = "https://api.visiapi.com";

/// What has to be done before the link dialog is of use.
#[derive(Debug, Clone, Copy, PartialEq, Eq, Structural)]
pub enum LinkDialogStep {
    /// Nobody is signed in: start the sign-in instead.
    SignIn,
    Stop,
    FetchRepos,
}

/// Only the token field of the hub changed, to `t`.
pub open spec fn token_is(old: Spreadsheet, new: Spreadsheet, t: Seq<char>) -> bool {
    &&& new == (Spreadsheet { hub: new.hub, ..old })
    &&& new.hub == (HubState { token_input: new.hub.token_input, ..old.hub })
    &&& new.hub.token_input@ == t
}

/// Only the name field of a new dataset changed, to `t`.
pub open spec fn dataset_name_is(old: Spreadsheet, new: Spreadsheet, t: Seq<char>) -> bool {
    &&& new == (Spreadsheet { hub: new.hub, ..old })
    &&& new.hub == (HubState { new_dataset_name: new.hub.new_dataset_name, ..old.hub })
    &&& new.hub.new_dataset_name@ == t
}

/// A link to a dataset that nothing was synchronised with yet.
pub open spec fn fresh_link(
    l: HubLink,
    owner: Seq<char>,
    slug: Seq<char>,
    dataset_id: Seq<char>,
    linked_at: Seq<char>,
) -> bool {
    &&& l.repo_owner@ == owner
    &&& l.repo_slug@ == slug
    &&& l.dataset_id@ == dataset_id
    &&& l.local_head_id is None
    &&& l.local_head_hash is None
    &&& l.link_mode@ == "pull"@
    &&& l.linked_at@ == linked_at
    &&& l.api_base@ == HUB_API_BASE@
}

/// `@owner/slug`, a dot and a name.
pub open spec fn linked_text(owner: Seq<char>, slug: Seq<char>, name: Seq<char>) -> Seq<char> {
    "Linked to @"@ + owner + "/"@ + slug + " · "@ + name
}

fn new_link(owner: &str, slug: &str, dataset_id: &str, now_secs: u64) -> (l: HubLink)
    ensures
        fresh_link(l, owner@, slug@, dataset_id@, timestamps::iso_of(now_secs as int)),
{
    HubLink {
        repo_owner: text::lit(owner),
        repo_slug: text::lit(slug),
        dataset_id: text::lit(dataset_id),
        local_head_id: None,
        local_head_hash: None,
        link_mode: text::lit("pull"),
        linked_at: timestamps::iso_timestamp(now_secs),
        api_base: text::lit(HUB_API_BASE),
    }
}

fn linked_message(owner: &str, slug: &str, name: &str) -> (r: String)
    ensures
        r@ == linked_text(owner@, slug@, name@),
{
    let mut m = text::lit("Linked to @");
    m.append(owner);
    m.append("/");
    m.append(slug);
    m.append(" · ");
    m.append(name);
    m
}

impl Spreadsheet {
    /// Start to sign in. `user` is who is signed in already, if anyone;
    /// `browser` is whether the browser could be opened.
    pub fn hub_sign_in(&mut self, user: &Option<Option<String>>, browser: &Result<(), String>)
        ensures
            match *user {
                Some(slug) => crate::hub::only_says(
                    *old(self),
                    *final(self),
                    "Already signed in as @"@ + crate::hub_publish::user_word(slug),
                ),
                None => match *browser {
                    Err(e) => crate::hub::only_says(
                        *old(self),
                        *final(self),
                        "Failed to open browser: "@ + e@,
                    ),
                    Ok(_) => {
                        &&& *final(self) == (Spreadsheet {
                            mode: Mode::HubPasteToken,
                            status_message: final(self).status_message,
                            hub: final(self).hub,
                            ..*old(self)
                        })
                        &&& final(self).hub == (HubState {
                            token_input: final(self).hub.token_input,
                            ..old(self).hub
                        })
                        &&& final(self).hub.token_input@.len() == 0
                        &&& text::opt_text(final(self).status_message) == Some(
                            "Opening browser... Paste token below if callback fails."@,
                        )
                    },
                },
            },
    {
        match user {
            Some(slug) => {
                let name = match slug {
                    Some(s) => s.clone(),
                    None => text::lit("unknown"),
                };
                self.say_with("Already signed in as @", name.as_str());
            },
            None => match browser {
                Err(e) => {
                    self.say_with("Failed to open browser: ", e.as_str());
                },
                Ok(_) => {
                    self.hub.token_input = String::new();
                    self.mode = Mode::HubPasteToken;
                    self.say("Opening browser... Paste token below if callback fails.");
                },
            },
        }
    }

    /// Take the pasted token; the result is the token to verify.
    pub fn hub_complete_sign_in(&mut self) -> (token: Option<String>)
        ensures
            ({
                let t = text::trimmed(old(self).hub.token_input@);
                if t.len() == 0 {
                    token is None && crate::hub::only_says(
                        *old(self),
                        *final(self),
                        "Token cannot be empty"@,
                    )
                } else {
                    text::opt_text(token) == Some(t) && crate::hub::only_says(
                        *old(self),
                        *final(self),
                        "Verifying token…"@,
                    )
                }
            }),
    {
        let token = text::trim(self.hub.token_input.as_str());
        if token.as_str().is_empty() {
            self.say("Token cannot be empty");
            return None;
        }
        self.say("Verifying token…");
        Some(token)
    }

    /// The token was verified or not. `verified` holds the user's name and
    /// address; `saved` is whether the credentials could be kept. The result
    /// is whether the status of the linked file should be checked.
    pub fn hub_finish_sign_in(
        &mut self,
        verified: &Result<(String, String), String>,
        saved: &Result<(), String>,
    ) -> (check: bool)
        ensures
            sign_in_finished(*old(self), *final(self), *verified, *saved, check),
    {
        match verified {
            Err(e) => {
                let mut m = text::lit(
                    "Token could not be verified with api.visiapi.com. Check you copied the full token. (",
                );
                m.append(e.as_str());
                m.append(")");
                self.say(m.as_str());
                false
            },
            Ok(who) => match saved {
                Err(e) => {
                    self.say_with("Failed to save credentials: ", e.as_str());
                    false
                },
                Ok(_) => {
                    self.mode = Mode::Navigation;
                    self.hub.token_input = String::new();
                    let mut m = text::lit("Signed in as @");
                    m.append(who.0.as_str());
                    m.append(" (");
                    m.append(who.1.as_str());
                    m.append(")");
                    self.say(m.as_str());
                    self.hub.link.is_some()
                },
            },
        }
    }

    /// Leave the sign-in.
    pub fn hub_cancel_sign_in(&mut self)
        ensures
            *final(self) == (Spreadsheet {
                mode: Mode::Navigation,
                status_message: None,
                hub: final(self).hub,
                ..*old(self)
            }),
            final(self).hub == (HubState {
                token_input: final(self).hub.token_input,
                ..old(self).hub
            }),
            final(self).hub.token_input@.len() == 0,
    {
        self.mode = Mode::Navigation;
        self.hub.token_input = String::new();
        self.status_message = None;
    }

    /// Type a character into the token field, where it is open.
    pub fn hub_token_insert_char(&mut self, c: char)
        ensures
            old(self).mode == Mode::HubPasteToken ==> token_is(
                *old(self),
                *final(self),
                old(self).hub.token_input@.push(c),
            ),
            old(self).mode != Mode::HubPasteToken ==> *final(self) == *old(self),
    {
        if self.mode == Mode::HubPasteToken {
            self.hub.token_input.push(c);
        }
    }

    /// Take the last character off the token field, where it is open.
    pub fn hub_token_backspace(&mut self)
        ensures
            old(self).mode == Mode::HubPasteToken ==> token_is(
                *old(self),
                *final(self),
                text::shortened(old(self).hub.token_input@),
            ),
            old(self).mode != Mode::HubPasteToken ==> *final(self) == *old(self),
    {
        if self.mode == Mode::HubPasteToken {
            self.hub.token_input.pop();
        }
    }

    /// Paste a token over what the field holds, where it is open.
    pub fn hub_token_paste(&mut self, pasted: &str)
        ensures
            old(self).mode == Mode::HubPasteToken ==> token_is(
                *old(self),
                *final(self),
                text::trimmed(pasted@),
            ),
            old(self).mode != Mode::HubPasteToken ==> *final(self) == *old(self),
    {
        if self.mode == Mode::HubPasteToken {
            self.hub.token_input = text::trim(pasted);
        }
    }

    /// Type a character into the name of a new dataset, where the dialog is open.
    pub fn hub_dataset_insert_char(&mut self, c: char)
        ensures
            old(self).mode == Mode::HubLink ==> dataset_name_is(
                *old(self),
                *final(self),
                old(self).hub.new_dataset_name@.push(c),
            ),
            old(self).mode != Mode::HubLink ==> *final(self) == *old(self),
    {
        if self.mode == Mode::HubLink {
            self.hub.new_dataset_name.push(c);
        }
    }

    /// Take the last character off the name of a new dataset.
    pub fn hub_dataset_backspace(&mut self)
        ensures
            old(self).mode == Mode::HubLink ==> dataset_name_is(
                *old(self),
                *final(self),
                text::shortened(old(self).hub.new_dataset_name@),
            ),
            old(self).mode != Mode::HubLink ==> *final(self) == *old(self),
    {
        if self.mode == Mode::HubLink {
            self.hub.new_dataset_name.pop();
        }
    }

    /// Sign out; `deleted` is whether the credentials could be deleted.
    pub fn hub_sign_out(&mut self, deleted: &Result<(), String>)
        ensures
            match *deleted {
                Err(e) => crate::hub::only_says(
                    *old(self),
                    *final(self),
                    "Failed to sign out: "@ + e@,
                ),
                Ok(_) => crate::hub::only_says(*old(self), *final(self), "Signed out"@),
            },
    {
        match deleted {
            Err(e) => {
                self.say_with("Failed to sign out: ", e.as_str());
            },
            Ok(_) => {
                self.say("Signed out");
            },
        }
    }

    /// Open the link dialog, unless something has to be done first.
    pub fn hub_show_link_dialog(&mut self, signed_in: bool) -> (step: LinkDialogStep)
        ensures
            old(self).link_choice_holds() ==> final(self).link_choice_holds(),
            ({
                if !signed_in {
                    step == LinkDialogStep::SignIn && *final(self) == *old(self)
                } else if old(self).file.current_file is None {
                    step == LinkDialogStep::Stop && crate::hub::only_says(
                        *old(self),
                        *final(self),
                        "Save the file first"@,
                    )
                } else if old(self).hub.link is Some {
                    step == LinkDialogStep::Stop && crate::hub::only_says(
                        *old(self),
                        *final(self),
                        "Already linked. Unlink first to change."@,
                    )
                } else {
                    step == LinkDialogStep::FetchRepos && dialog_cleared(
                        *old(self),
                        *final(self),
                        Mode::HubLink,
                        true,
                    )
                }
            }),
    {
        if !signed_in {
            return LinkDialogStep::SignIn;
        }
        if self.file.current_file.is_none() {
            self.say("Save the file first");
            return LinkDialogStep::Stop;
        }
        if self.hub.link.is_some() {
            self.say("Already linked. Unlink first to change.");
            return LinkDialogStep::Stop;
        }
        self.hub.repos = Vec::new();
        self.hub.selected_repo = None;
        self.hub.datasets = Vec::new();
        self.hub.selected_dataset = None;
        self.hub.new_dataset_name = String::new();
        self.hub.link_loading = true;
        self.mode = Mode::HubLink;
        LinkDialogStep::FetchRepos
    }

    /// The repositories have come, or could not be had: `None` where nobody is
    /// signed in any more.
    pub fn hub_fetch_repos(&mut self, fetched: Option<Result<Vec<RepoInfo>, String>>)
        ensures
            match fetched {
                None => loading_over(*old(self), *final(self), Some("Not signed in"@)),
                Some(Err(e)) => loading_over(
                    *old(self),
                    *final(self),
                    Some("Failed to load repos: "@ + e@),
                ),
                Some(Ok(repos)) => *final(self) == (Spreadsheet {
                    hub: HubState { repos, link_loading: false, ..old(self).hub },
                    ..*old(self)
                }),
            },
    {
        self.hub.link_loading = false;
        match fetched {
            None => {
                self.say("Not signed in");
            },
            Some(Err(e)) => {
                self.say_with("Failed to load repos: ", e.as_str());
            },
            Some(Ok(repos)) => {
                self.hub.repos = repos;
            },
        }
    }

    /// Choose a repository; the result is its owner and name, whose datasets
    /// have to be fetched.
    pub fn hub_select_repo(&mut self, index: usize) -> (fetch: Option<(String, String)>)
        ensures
            old(self).link_choice_holds() ==> final(self).link_choice_holds(),
            repo_selected(*old(self), *final(self), index, fetch),
    {
        if index >= self.hub.repos.len() {
            return None;
        }
        self.hub.selected_repo = Some(index);
        self.hub.datasets = Vec::new();
        self.hub.selected_dataset = None;
        self.hub.link_loading = true;
        let repo = &self.hub.repos[index];
        Some((repo.owner.clone(), repo.slug.clone()))
    }

    /// The datasets have come, or could not be had: `None` where nobody is
    /// signed in any more.
    pub fn hub_fetch_datasets(&mut self, fetched: Option<Result<Vec<DatasetInfo>, String>>)
        ensures
            match fetched {
                None => loading_over(*old(self), *final(self), None),
                Some(Err(e)) => loading_over(
                    *old(self),
                    *final(self),
                    Some("Failed to load datasets: "@ + e@),
                ),
                Some(Ok(datasets)) => *final(self) == (Spreadsheet {
                    hub: HubState { datasets, link_loading: false, ..old(self).hub },
                    ..*old(self)
                }),
            },
    {
        self.hub.link_loading = false;
        match fetched {
            None => {},
            Some(Err(e)) => {
                self.say_with("Failed to load datasets: ", e.as_str());
            },
            Some(Ok(datasets)) => {
                self.hub.datasets = datasets;
            },
        }
    }

    /// Choose a dataset.
    pub fn hub_select_dataset(&mut self, index: usize)
        ensures
            old(self).link_choice_holds() ==> final(self).link_choice_holds(),
            dataset_selected(*old(self), *final(self), index),
    {
        if index >= self.hub.datasets.len() {
            return;
        }
        self.hub.selected_dataset = Some(index);
    }

    /// What is chosen in the link dialog is in its lists.
    pub open spec fn link_choice_holds(self) -> bool {
        &&& self.hub.selected_repo matches Some(r) ==> r < self.hub.repos@.len()
        &&& self.hub.selected_dataset matches Some(d) ==> d < self.hub.datasets@.len()
    }

    /// Link to the chosen dataset: the result is the link to save in the file.
    pub fn hub_confirm_link(&mut self, now_secs: u64) -> (save: Option<HubLink>)
        requires
            old(self).link_choice_holds(),
        ensures
            link_chosen(*old(self), *final(self), now_secs, save),
    {
        let repo_idx: usize = match self.hub.selected_repo {
            None => {
                self.say("Select a repository");
                return None;
            },
            Some(r) => r,
        };
        let dataset_idx: usize = match self.hub.selected_dataset {
            None => {
                self.say("Select a dataset");
                return None;
            },
            Some(d) => d,
        };
        if self.file.current_file.is_none() {
            return None;
        }
        let repo = &self.hub.repos[repo_idx];
        let dataset = &self.hub.datasets[dataset_idx];
        Some(new_link(repo.owner.as_str(), repo.slug.as_str(), dataset.id.as_str(), now_secs))
    }

    /// The link to the chosen dataset was saved in the file, or could not be.
    /// The result is whether to check the status now.
    pub fn hub_link_confirmed(
        &mut self,
        link: HubLink,
        dataset_name: &str,
        saved: &Result<(), String>,
    ) -> (check: bool)
        ensures
            link_kept(*old(self), *final(self), link, dataset_name@, *saved, check),
    {
        match saved {
            Err(e) => {
                self.say_with("Failed to save link: ", e.as_str());
                false
            },
            Ok(_) => {
                let m = linked_message(
                    link.repo_owner.as_str(),
                    link.repo_slug.as_str(),
                    dataset_name,
                );
                self.hub.link = Some(link);
                self.mode = Mode::Navigation;
                self.say(m.as_str());
                true
            },
        }
    }

    /// Create a dataset in the chosen repository and link to it: the result is
    /// the owner, the repository and the name to create.
    pub fn hub_create_and_link(&mut self, signed_in: bool) -> (create: Option<
        (String, String, String),
    >)
        requires
            old(self).link_choice_holds(),
        ensures
            dataset_asked(*old(self), *final(self), signed_in, create),
    {
        let repo_idx: usize = match self.hub.selected_repo {
            None => {
                self.say("Select a repository first");
                return None;
            },
            Some(r) => r,
        };
        let name = text::trim(self.hub.new_dataset_name.as_str());
        if name.as_str().is_empty() {
            self.say("Enter a dataset name");
            return None;
        }
        if self.file.current_file.is_none() {
            return None;
        }
        self.hub.link_loading = true;
        if !signed_in {
            self.hub.link_loading = false;
            self.say("Not signed in");
            return None;
        }
        let repo = &self.hub.repos[repo_idx];
        Some((repo.owner.clone(), repo.slug.clone(), name))
    }

    /// The dataset was created, or could not be: the result is the link to save.
    pub fn hub_dataset_created(
        &mut self,
        owner: &str,
        slug: &str,
        created: &Result<String, String>,
        now_secs: u64,
    ) -> (save: Option<HubLink>)
        ensures
            dataset_made(*old(self), *final(self), owner@, slug@, *created, now_secs, save),
    {
        match created {
            Err(e) => {
                self.hub.link_loading = false;
                self.say_with("Failed to create dataset: ", e.as_str());
                None
            },
            Ok(id) => Some(new_link(owner, slug, id.as_str(), now_secs)),
        }
    }

    /// The link to the created dataset was saved, or could not be. The result
    /// is whether to check the status now.
    pub fn hub_created_link_saved(
        &mut self,
        link: HubLink,
        name: &str,
        saved: &Result<(), String>,
    ) -> (check: bool)
        ensures
            match *saved {
                Err(e) => !check && loading_over(
                    *old(self),
                    *final(self),
                    Some("Failed to save link: "@ + e@),
                ),
                Ok(_) => {
                    &&& check
                    &&& *final(self) == (Spreadsheet {
                        mode: Mode::Navigation,
                        status_message: final(self).status_message,
                        hub: HubState { link: Some(link), link_loading: false, ..old(self).hub },
                        ..*old(self)
                    })
                    &&& text::opt_text(final(self).status_message) == Some(
                        linked_text(link.repo_owner@, link.repo_slug@, name@),
                    )
                },
            },
    {
        self.hub.link_loading = false;
        match saved {
            Err(e) => {
                self.say_with("Failed to save link: ", e.as_str());
                false
            },
            Ok(_) => {
                let m = linked_message(link.repo_owner.as_str(), link.repo_slug.as_str(), name);
                self.hub.link = Some(link);
                self.mode = Mode::Navigation;
                self.say(m.as_str());
                true
            },
        }
    }

    /// Leave the link dialog.
    pub fn hub_cancel_link(&mut self)
        ensures
            final(self).link_choice_holds(),
            dialog_cleared(*old(self), *final(self), Mode::Navigation, false),
    {
        self.mode = Mode::Navigation;
        self.hub.repos = Vec::new();
        self.hub.datasets = Vec::new();
        self.hub.selected_repo = None;
        self.hub.selected_dataset = None;
        self.hub.new_dataset_name = String::new();
        self.hub.link_loading = false;
    }
}

/// The link dialog is empty, and the mode and its waiting mark are these.
pub open spec fn dialog_cleared(old: Spreadsheet, new: Spreadsheet, mode: Mode, loading: bool) -> bool {
    &&& new == (Spreadsheet { mode, hub: new.hub, ..old })
    &&& new.hub == (HubState {
        repos: new.hub.repos,
        selected_repo: None,
        datasets: new.hub.datasets,
        selected_dataset: None,
        new_dataset_name: new.hub.new_dataset_name,
        link_loading: loading,
        ..old.hub
    })
    &&& new.hub.repos@.len() == 0
    &&& new.hub.datasets@.len() == 0
    &&& new.hub.new_dataset_name@.len() == 0
}

/// The link dialog waits no longer, and the status bar says `m` if there is
/// anything to say.
pub open spec fn loading_over(old: Spreadsheet, new: Spreadsheet, m: Option<Seq<char>>) -> bool {
    &&& new == (Spreadsheet {
        status_message: new.status_message,
        hub: HubState { link_loading: false, ..old.hub },
        ..old
    })
    &&& match m {
        Some(t) => text::opt_text(new.status_message) == Some(t),
        None => new.status_message == old.status_message,
    }
}

/// The token was to be verified and kept.
pub open spec fn sign_in_finished(
    old: Spreadsheet,
    new: Spreadsheet,
    verified: Result<(String, String), String>,
    saved: Result<(), String>,
    check: bool,
) -> bool {
    &&& match verified {
        Err(e) => !check && crate::hub::only_says(
            old,
            new,
            "Token could not be verified with api.visiapi.com. Check you copied the full token. ("@
                + e@ + ")"@,
        ),
        Ok(who) => match saved {
            Err(e) => !check && crate::hub::only_says(
                old,
                new,
                "Failed to save credentials: "@ + e@,
            ),
            Ok(_) => {
                &&& check == (old.hub.link is Some)
                &&& new == (Spreadsheet {
                    mode: Mode::Navigation,
                    status_message: new.status_message,
                    hub: new.hub,
                    ..old
                })
                &&& new.hub == (HubState {
                    token_input: new.hub.token_input,
                    ..old.hub
                })
                &&& new.hub.token_input@.len() == 0
                &&& text::opt_text(new.status_message) == Some(
                    "Signed in as @"@ + who.0@ + " ("@ + who.1@ + ")"@,
                )
            },
        },
    }
}

/// A repository was selected.
pub open spec fn repo_selected(
    old: Spreadsheet,
    new: Spreadsheet,
    index: usize,
    fetch: Option<(String, String)>,
) -> bool {
    &&& index >= old.hub.repos@.len() ==> fetch is None && new == old
    &&& index < old.hub.repos@.len() ==> {
        let repo = old.hub.repos@[index as int];
        &&& fetch matches Some(f) && f.0@ == repo.owner@ && f.1@ == repo.slug@
        &&& new == (Spreadsheet { hub: new.hub, ..old })
        &&& new.hub == (HubState {
            selected_repo: Some(index),
            datasets: new.hub.datasets,
            selected_dataset: None,
            link_loading: true,
            ..old.hub
        })
        &&& new.hub.datasets@.len() == 0
    }
}

/// A dataset was selected.
pub open spec fn dataset_selected(
    old: Spreadsheet,
    new: Spreadsheet,
    index: usize,
) -> bool {
    &&& index >= old.hub.datasets@.len() ==> new == old
    &&& index < old.hub.datasets@.len() ==> new == (Spreadsheet {
        hub: HubState { selected_dataset: Some(index), ..old.hub },
        ..old
    })
}

/// The file is to be linked to what is selected.
pub open spec fn link_chosen(
    old: Spreadsheet,
    new: Spreadsheet,
    now_secs: u64,
    save: Option<HubLink>,
) -> bool {
    &&& ({
        if old.hub.selected_repo is None {
            save is None && crate::hub::only_says(
                old,
                new,
                "Select a repository"@,
            )
        } else if old.hub.selected_dataset is None {
            save is None && crate::hub::only_says(
                old,
                new,
                "Select a dataset"@,
            )
        } else if old.file.current_file is None {
            save is None && new == old
        } else {
            let repo = old.hub.repos@[old.hub.selected_repo->0 as int];
            let dataset = old.hub.datasets@[old.hub.selected_dataset->0 as int];
            &&& new == old
            &&& save is Some
            &&& fresh_link(
                save->0,
                repo.owner@,
                repo.slug@,
                dataset.id@,
                timestamps::iso_of(now_secs as int),
            )
        }
    })
}

/// The link was to be saved.
pub open spec fn link_kept(
    old: Spreadsheet,
    new: Spreadsheet,
    link: HubLink,
    dataset_name: Seq<char>,
    saved: Result<(), String>,
    check: bool,
) -> bool {
    &&& match saved {
        Err(e) => !check && crate::hub::only_says(
            old,
            new,
            "Failed to save link: "@ + e@,
        ),
        Ok(_) => {
            &&& check
            &&& new == (Spreadsheet {
                mode: Mode::Navigation,
                status_message: new.status_message,
                hub: HubState { link: Some(link), ..old.hub },
                ..old
            })
            &&& text::opt_text(new.status_message) == Some(
                linked_text(link.repo_owner@, link.repo_slug@, dataset_name),
            )
        },
    }
}

/// A dataset is to be made for the file.
pub open spec fn dataset_asked(
    old: Spreadsheet,
    new: Spreadsheet,
    signed_in: bool,
    create: Option<(String, String, String)>,
) -> bool {
    &&& ({
        let name = text::trimmed(old.hub.new_dataset_name@);
        if old.hub.selected_repo is None {
            create is None && crate::hub::only_says(
                old,
                new,
                "Select a repository first"@,
            )
        } else if name.len() == 0 {
            create is None && crate::hub::only_says(
                old,
                new,
                "Enter a dataset name"@,
            )
        } else if old.file.current_file is None {
            create is None && new == old
        } else if !signed_in {
            create is None && loading_over(
                old,
                new,
                Some("Not signed in"@),
            )
        } else {
            let repo = old.hub.repos@[old.hub.selected_repo->0 as int];
            &&& create matches Some(c) && c.0@ == repo.owner@ && c.1@ == repo.slug@ && c.2@
                == name
            &&& new == (Spreadsheet {
                hub: HubState { link_loading: true, ..old.hub },
                ..old
            })
        }
    })
}

/// The hub was asked to make a dataset.
pub open spec fn dataset_made(
    old: Spreadsheet,
    new: Spreadsheet,
    owner: Seq<char>,
    slug: Seq<char>,
    created: Result<String, String>,
    now_secs: u64,
    save: Option<HubLink>,
) -> bool {
    &&& match created {
        Err(e) => save is None && loading_over(
            old,
            new,
            Some("Failed to create dataset: "@ + e@),
        ),
        Ok(id) => {
            &&& new == old
            &&& save is Some
            &&& fresh_link(
                save->0,
                owner,
                slug,
                id@,
                timestamps::iso_of(now_secs as int),
            )
        },
    }
}

// ---------------------------------------------------------------------------
// Laws
// ---------------------------------------------------------------------------

/// A file is linked to the repository and the dataset that are selected. The link has no
/// head yet, and it is for pulling alone, so that nothing is published over it.
pub proof fn a_new_link_is_to_what_is_selected(
    a: Spreadsheet,
    b: Spreadsheet,
    c: Spreadsheet,
    now_secs: u64,
    link: HubLink,
    name: Seq<char>,
    saved: Result<(), String>,
    check: bool,
    signed_in: bool,
    d: Spreadsheet,
    go: bool,
)
    requires
        a.link_choice_holds(),
        link_chosen(a, b, now_secs, Some(link)),
        link_kept(b, c, link, name, saved, check),
        crate::hub_publish::publish_asked(c, d, signed_in, go),
    ensures
        a.hub.selected_repo matches Some(r) && link.repo_owner@ == a.hub.repos@[r as int].owner@
            && link.repo_slug@ == a.hub.repos@[r as int].slug@,
        a.hub.selected_dataset matches Some(s) && link.dataset_id@
            == a.hub.datasets@[s as int].id@,
        link.local_head_id is None && link.local_head_hash is None && a.file.current_file is Some,
        saved is Ok ==> check && c.hub.link == Some(link) && !go && c.mode == Mode::Navigation,
        saved is Err ==> !check && c.hub.link == a.hub.link && c.mode == a.mode,
        c.file == a.file,
{
}

/// Nothing is linked unless a repository and a dataset are selected and there is a file
/// to link.
pub proof fn what_a_link_needs(
    old: Spreadsheet,
    new: Spreadsheet,
    now_secs: u64,
    save: Option<HubLink>,
)
    requires
        link_chosen(old, new, now_secs, save),
    ensures
        save is Some <==> old.hub.selected_repo is Some && old.hub.selected_dataset is Some
            && old.file.current_file is Some,
        new.hub == old.hub && new.mode == old.mode,
{
}

/// Selecting a repository forgets the datasets of the one before and asks for its own;
/// selecting a dataset leaves the repository. What is not in the list cannot be
/// selected.
pub proof fn a_selection_is_of_what_is_listed(
    a: Spreadsheet,
    b: Spreadsheet,
    c: Spreadsheet,
    repo: usize,
    dataset: usize,
    fetch: Option<(String, String)>,
)
    requires
        repo_selected(a, b, repo, fetch),
        dataset_selected(b, c, dataset),
    ensures
        fetch is Some <==> repo < a.hub.repos@.len(),
        fetch matches Some(f) ==> f.0@ == a.hub.repos@[repo as int].owner@ && f.1@
            == a.hub.repos@[repo as int].slug@ && b.hub.selected_repo == Some(repo)
            && b.hub.selected_dataset is None && b.hub.datasets@.len() == 0,
        fetch is None ==> b == a,
        dataset < b.hub.datasets@.len() <==> c.hub.selected_dataset == Some(dataset) && dataset
            < b.hub.datasets@.len(),
        dataset >= b.hub.datasets@.len() ==> c == b,
        c.hub.selected_repo == b.hub.selected_repo && c.hub.repos == a.hub.repos,
        c.hub.link == a.hub.link,
{
}

/// A dataset is made in the selected repository, with the name that was entered without
/// the white space around it, and the file is linked to it. A name of white space is
/// refused.
pub proof fn a_dataset_is_made_where_it_was_asked_for(
    a: Spreadsheet,
    b: Spreadsheet,
    c: Spreadsheet,
    signed_in: bool,
    create: Option<(String, String, String)>,
    created: Result<String, String>,
    now_secs: u64,
    save: Option<HubLink>,
)
    requires
        a.link_choice_holds(),
        dataset_asked(a, b, signed_in, create),
        create matches Some(x) ==> dataset_made(b, c, x.0@, x.1@, created, now_secs, save),
    ensures
        create is Some <==> signed_in && a.hub.selected_repo is Some && a.file.current_file is Some
            && !(forall|i: int|
            0 <= i < a.hub.new_dataset_name@.len() ==> text::is_white(
                #[trigger] a.hub.new_dataset_name@[i],
            )),
        create matches Some(x) ==> x.2@ == text::trimmed(a.hub.new_dataset_name@)
            && b.hub.link_loading && x.0@ == a.hub.repos@[a.hub.selected_repo->0 as int].owner@
            && (save is Some <==> created is Ok) && (save matches Some(l) ==> l.repo_owner@ == x.0@
            && l.repo_slug@ == x.1@ && (created matches Ok(id) && l.dataset_id@ == id@)
            && l.local_head_id is None && l.link_mode@ == "pull"@),
        create is Some && created is Err ==> !c.hub.link_loading && c.hub.link == a.hub.link,
{
    text::trimming_takes_off_white_space(a.hub.new_dataset_name@);
}

/// Signing in takes a token that was verified and kept. What was typed is forgotten, and
/// a linked file is checked.
pub proof fn signing_in_takes_a_kept_token(
    old: Spreadsheet,
    new: Spreadsheet,
    verified: Result<(String, String), String>,
    saved: Result<(), String>,
    check: bool,
)
    requires
        sign_in_finished(old, new, verified, saved, check),
    ensures
        verified is Ok && saved is Ok ==> new.mode == Mode::Navigation && new.hub.token_input@.len()
            == 0 && (check <==> old.hub.link is Some),
        verified is Err || saved is Err ==> !check && new.mode == old.mode && new.hub == old.hub,
        new.hub.link == old.hub.link && new.file == old.file,
{
}

/// A token that is typed is kept as typed, and a character that is taken back is gone; so
/// is the name of a dataset. Nothing else changes.
pub proof fn a_typed_token_is_kept(
    a: Spreadsheet,
    b: Spreadsheet,
    c: Spreadsheet,
    x: char,
)
    requires
        token_is(a, b, a.hub.token_input@.push(x)),
        token_is(b, c, text::shortened(b.hub.token_input@)),
    ensures
        c.hub.token_input@ == a.hub.token_input@,
        b.hub.token_input@.len() == a.hub.token_input@.len() + 1,
        b.hub.link == a.hub.link && b.mode == a.mode && b.hub.new_dataset_name
            == a.hub.new_dataset_name,
{
    text::a_typed_character_can_be_taken_back(a.hub.token_input@, x);
}

/// A link dialog that is opened or left holds nothing of an earlier one.
pub proof fn a_link_dialog_starts_empty(old: Spreadsheet, new: Spreadsheet, mode: Mode, loading: bool)
    requires
        dialog_cleared(old, new, mode, loading),
    ensures
        new.link_choice_holds(),
        new.mode == mode && new.hub.link_loading == loading,
        new.hub.selected_repo is None && new.hub.selected_dataset is None,
        new.hub.repos@.len() == 0 && new.hub.datasets@.len() == 0,
        new.hub.new_dataset_name@.len() == 0,
        new.hub.link == old.hub.link && new.hub.status == old.hub.status && new.file == old.file,
{
}

} // verus!
