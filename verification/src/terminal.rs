//! What goes to the terminal panel and comes back from it.

use vstd::prelude::*;

use crate::chrome;
use crate::state::{DocPath, Mode, Setting, Spreadsheet};
use crate::text;

verus! {

/// A result that was found in the output of the terminal.
#[derive(Debug, PartialEq, Eq)]
pub enum PendingResult {
    /// A result that can be opened as a sheet.
    Structured(String),
    /// Any other one.
    Other(String),
}

/// The terminal panel.
#[derive(Debug, PartialEq, Eq)]
pub struct TerminalState {
    pub visible: bool,
    pub focused: bool,
    pub panel_visible: bool,
    pub on_terminal_tab: bool,
    pub watching_for_result: bool,
    pub watch_generation: u64,
    pub pending: Option<PendingResult>,
    pub last_injected_command: Option<String>,
}

/// A result that is opened as a sheet, with where it came from.
#[derive(Debug, PartialEq, Eq)]
pub struct StructuredResult {
    pub result: String,
    pub source_file: Option<String>,
    pub command: Option<String>,
}

/// How a document compares with what was approved.
#[derive(Debug, Clone, Copy, PartialEq, Eq, Structural)]
pub enum VerificationStatus {
    /// Nothing was approved.
    Unverified,
    /// It is what was approved.
    Verified,
    /// It is something else.
    Drifted,
}

/// What was approved: the fingerprint that the document is held against, what
/// it was called, and when.
#[derive(Debug, PartialEq, Eq)]
pub struct Approval {
    pub fingerprint: Option<String>,
    pub label: Option<String>,
    pub timestamp: Option<String>,
}

/// Nothing was approved.
pub open spec fn no_approval() -> Approval {
    Approval { fingerprint: None, label: None, timestamp: None }
}

impl Approval {
    pub fn new() -> (a: Approval)
        ensures
            a == no_approval(),
    {
        Approval { fingerprint: None, label: None, timestamp: None }
    }
}

/// The terminal panel of a new window.
pub open spec fn no_terminal(t: TerminalState) -> bool {
    &&& !t.visible && !t.focused && !t.panel_visible && !t.on_terminal_tab
    &&& !t.watching_for_result && t.watch_generation == 0 && t.pending is None
    &&& t.last_injected_command is None
}

impl TerminalState {
    pub fn new() -> (t: TerminalState)
        ensures
            no_terminal(t),
    {
        TerminalState {
            visible: false,
            focused: false,
            panel_visible: false,
            on_terminal_tab: false,
            watching_for_result: false,
            watch_generation: 0,
            pending: None,
            last_injected_command: None,
        }
    }
}

/// A setting that is on, or left to its default.
pub open spec fn setting_or(s: Setting<bool>, default: bool) -> bool {
    match s {
        Setting::Value(v) => v,
        Setting::Inherit => default,
    }
}

fn setting_value(s: &Setting<bool>, default: bool) -> (r: bool)
    ensures
        r == setting_or(*s, default),
{
    match s {
        Setting::Value(v) => *v,
        Setting::Inherit => default,
    }
}

/// What is written to the terminal to paste a text: between two marks, so that
/// no line of it is run, unless the setting is off.
pub open spec fn paste_writes(s: Seq<char>, bracketed: bool) -> Seq<Seq<char>> {
    if bracketed {
        seq!["\x1b[200~"@, s, "\x1b[201~"@]
    } else {
        seq![s]
    }
}

/// What is written to the terminal to paste a text, one write after the other.
pub fn write_to_pty_bracketed(pasted: &str, setting: &Setting<bool>) -> (v: Vec<String>)
    ensures
        text::texts(v@) == paste_writes(pasted@, setting_or(*setting, true)),
{
    let mut v: Vec<String> = Vec::new();
    let bracketed = setting_value(setting, true);
    if bracketed {
        v.push(text::lit("\x1b[200~"));
    }
    v.push(text::lit(pasted));
    if bracketed {
        v.push(text::lit("\x1b[201~"));
    }
    assert(text::texts(v@) =~= paste_writes(pasted@, setting_or(*setting, true)));
    v
}

// ---------------------------------------------------------------------------
// Results
// ---------------------------------------------------------------------------

impl Spreadsheet {
    /// Keep a result for later, in the place of an earlier one.
    fn keep_result(&mut self, result: String)
        ensures
            *final(self) == (Spreadsheet {
                status_message: final(self).status_message,
                terminal: TerminalState {
                    watching_for_result: false,
                    pending: Some(PendingResult::Structured(result)),
                    ..old(self).terminal
                },
                ..*old(self)
            }),
            if old(self).terminal.pending is Some {
                text::opt_text(final(self).status_message) == Some(
                    "New structured result detected (previous replaced)."@,
                )
            } else {
                final(self).status_message == old(self).status_message
            },
    {
        if self.terminal.pending.is_some() {
            self.say("New structured result detected (previous replaced).");
        }
        self.terminal.pending = Some(PendingResult::Structured(result));
        self.terminal.watching_for_result = false;
    }

    /// Look for a result in the output of the terminal: `found` is one, and
    /// `session` whether there is any output. The result is what to open at
    /// once, if the setting asks for that.
    pub fn try_extract_structured_result(
        &mut self,
        session: bool,
        found: Option<String>,
        auto_open: &Setting<bool>,
    ) -> (r: Option<StructuredResult>)
        ensures
            result_looked_for(*old(self), *final(self), session, found, *auto_open, r),
    {
        if !session {
            self.terminal.watching_for_result = false;
            self.say("No terminal session.");
            return None;
        }
        match found {
            Some(result) => {
                self.keep_result(result);
                if setting_value(auto_open, false) {
                    self.open_structured_result()
                } else {
                    None
                }
            },
            None => {
                self.terminal.watching_for_result = false;
                self.say("No structured output detected.");
                None
            },
        }
    }

    /// Open the result that was found as a sheet. A result of another kind
    /// stays where it is.
    pub fn open_structured_result(&mut self) -> (r: Option<StructuredResult>)
        ensures
            result_opened(*old(self), *final(self), r),
    {
        let mut pending: Option<PendingResult> = None;
        core::mem::swap(&mut pending, &mut self.terminal.pending);
        match pending {
            Some(PendingResult::Structured(result)) => {
                let source_file = match &self.file.current_file {
                    Some(p) => Some(p.display.clone()),
                    None => None,
                };
                let mut command: Option<String> = None;
                core::mem::swap(&mut command, &mut self.terminal.last_injected_command);
                Some(StructuredResult { result, source_file, command })
            },
            other => {
                self.terminal.pending = other;
                None
            },
        }
    }

    /// A result was opened as a sheet.
    pub fn structured_result_opened(&mut self, sheet_name: &str)
        ensures
            crate::hub::only_says(
                *old(self),
                *final(self),
                "Opened "@ + sheet_name@ + " as new sheet."@,
            ),
    {
        let m = text::cat3("Opened ", sheet_name, " as new sheet.");
        self.say(m.as_str());
    }

    /// Forget the result that was found.
    pub fn dismiss_structured_result(&mut self)
        ensures
            *final(self) == (Spreadsheet {
                terminal: TerminalState { pending: None, ..old(self).terminal },
                ..*old(self)
            }),
    {
        self.terminal.pending = None;
    }
}

/// A result says which file and which command it came from.
pub open spec fn result_source(r: StructuredResult, s: Spreadsheet) -> bool {
    &&& text::opt_text(r.source_file) == match s.file.current_file {
        Some(p) => Some(p.display@),
        None => None,
    }
    &&& r.command == s.terminal.last_injected_command
}

// ---------------------------------------------------------------------------
// Commands
// ---------------------------------------------------------------------------

/// A command was given to the terminal, and its result is waited for.
pub open spec fn command_given(old: Spreadsheet, new: Spreadsheet, kept: Seq<char>) -> bool {
    &&& new == (Spreadsheet {
        status_message: new.status_message,
        terminal: TerminalState {
            watching_for_result: true,
            watch_generation: (old.terminal.watch_generation + 1) as u64,
            pending: None,
            last_injected_command: new.terminal.last_injected_command,
            ..old.terminal
        },
        ..old
    })
    &&& text::opt_text(new.terminal.last_injected_command) == Some(kept)
}

/// A command on a file.
pub open spec fn file_command(subcmd: Seq<char>, file: Seq<char>) -> Seq<char> {
    "vgrid "@ + subcmd + " \""@ + file + "\" --json\n"@
}

/// A command on a file with a formula to be filled in.
pub open spec fn calc_command(file: Seq<char>) -> Seq<char> {
    "cat \""@ + file + "\" | vgrid calc '=FORMULA' -f csv --headers --json"@
}

impl Spreadsheet {
    fn give_command(&mut self, kept: String)
        requires
            old(self).terminal.watch_generation < u64::MAX,
        ensures
            command_given(*old(self), *final(self), kept@),
            final(self).status_message == old(self).status_message,
    {
        self.terminal.watching_for_result = true;
        self.terminal.watch_generation = self.terminal.watch_generation + 1;
        self.terminal.pending = None;
        self.terminal.last_injected_command = Some(kept);
    }

    /// Run a command on the open file in the terminal: the result is what to
    /// write there.
    pub fn inject_vgrid_command(&mut self, subcmd: &str) -> (r: Option<String>)
        requires
            old(self).terminal.watch_generation < u64::MAX,
        ensures
            command_injected(*old(self), *final(self), subcmd@, r),
    {
        let file = match &self.file.current_file {
            None => {
                self.say("Save workbook first.");
                return None;
            },
            Some(p) => p.display.clone(),
        };
        let mut c = text::cat3("vgrid ", subcmd, " \"");
        c.append(file.as_str());
        c.append("\" --json\n");
        let kept = text::trim(c.as_str());
        self.give_command(kept);
        Some(c)
    }

    /// Look into the open file in the terminal.
    pub fn run_vgrid_peek_json(&mut self) -> (r: Option<String>)
        requires
            old(self).terminal.watch_generation < u64::MAX,
        ensures
            match old(self).file.current_file {
                None => r is None && crate::hub::only_says(
                    *old(self),
                    *final(self),
                    "Save workbook first."@,
                ),
                Some(p) => {
                    let c = file_command("peek --headers"@, p.display@);
                    &&& r matches Some(s) && s@ == c
                    &&& command_given(*old(self), *final(self), text::trimmed(c))
                    &&& final(self).status_message == old(self).status_message
                },
            },
    {
        self.inject_vgrid_command("peek --headers")
    }

    /// Put a command on the open file into the terminal, with a formula to be
    /// filled in before it is run.
    pub fn run_vgrid_calc_json(&mut self) -> (r: Option<String>)
        requires
            old(self).terminal.watch_generation < u64::MAX,
        ensures
            match old(self).file.current_file {
                None => r is None && crate::hub::only_says(
                    *old(self),
                    *final(self),
                    "Save workbook first."@,
                ),
                Some(p) => {
                    let c = calc_command(p.display@);
                    &&& r matches Some(s) && s@ == c
                    &&& command_given(*old(self), *final(self), c)
                    &&& text::opt_text(final(self).status_message) == Some(
                        "Edit the formula in the command, then press Enter."@,
                    )
                },
            },
    {
        let file = match &self.file.current_file {
            None => {
                self.say("Save workbook first.");
                return None;
            },
            Some(p) => p.display.clone(),
        };
        let c = text::cat3(
            "cat \"",
            file.as_str(),
            "\" | vgrid calc '=FORMULA' -f csv --headers --json",
        );
        self.give_command(c.clone());
        self.say("Edit the formula in the command, then press Enter.");
        Some(c)
    }
}

/// The command that converts a file. `inside` is the path of the file within
/// the workspace, if it is there.
pub open spec fn convert_command(p: DocPath, inside: Option<Seq<char>>, ext: Seq<char>) -> Seq<char> {
    let input = match inside {
        Some(r) => r,
        None => "\""@ + p.display@ + "\""@,
    };
    let output = match p.stem {
        Some(s) => s@,
        None => "output"@,
    } + "."@ + ext;
    "vgrid convert "@ + input + " -t "@ + ext + " -o "@ + output + "  # Output: ./"@ + output
}

impl Spreadsheet {
    /// Convert the open file: the result is the command to put into the
    /// terminal, on a line that is cleared first.
    pub fn execute_convert(&mut self, inside: &Option<String>) -> (r: Option<String>)
        ensures
            convert_typed(*old(self), *final(self), text::opt_text(*inside), r),
    {
        let i: usize = self.ui.convert_selected;
        self.mode = Mode::Navigation;
        let ext = if i == 1 {
            "tsv"
        } else if i == 2 {
            "json"
        } else if i == 3 {
            "xlsx"
        } else {
            "csv"
        };
        let c = match &self.file.current_file {
            None => {
                self.say("No active workbook to convert.");
                return None;
            },
            Some(p) => {
                let input = match inside {
                    Some(r) => r.clone(),
                    None => text::cat3("\"", p.display.as_str(), "\""),
                };
                let stem = match &p.stem {
                    Some(s) => s.clone(),
                    None => text::lit("output"),
                };
                let output = text::cat3(stem.as_str(), ".", ext);
                let mut c = text::cat3("vgrid convert ", input.as_str(), " -t ");
                c.append(ext);
                c.append(" -o ");
                c.append(output.as_str());
                c.append("  # Output: ./");
                c.append(output.as_str());
                c
            },
        };
        self.terminal.panel_visible = true;
        self.terminal.on_terminal_tab = true;
        self.lua_console_visible = false;
        self.terminal.visible = true;
        self.terminal.focused = true;
        self.say("Convert command inserted — press Enter to run.");
        Some(c)
    }
}

// ---------------------------------------------------------------------------
// What was approved
// ---------------------------------------------------------------------------

/// A text with what was approved behind it.
pub open spec fn with_approval(m: Seq<char>, before: Seq<char>, a: Approval) -> Seq<char> {
    let named = match a.label {
        Some(l) => m + before + l@ + "\""@,
        None => m,
    };
    match a.timestamp {
        Some(t) => named + " ("@ + t@ + ")"@,
        None => named,
    }
}

/// What is said of a document and what was approved.
pub open spec fn verification_text(s: VerificationStatus, a: Approval) -> Seq<char> {
    match s {
        VerificationStatus::Unverified => "No verification baseline. Use 'Approve Model' first."@,
        VerificationStatus::Verified => with_approval(
            "✓ Verification passed"@,
            " — matches Approved: \""@,
            a,
        ),
        VerificationStatus::Drifted => with_approval(
            "✗ Verification failed — drifted"@,
            " from Approved: \""@,
            a,
        ),
    }
}

fn approval_string(m: &str, before: &str, a: &Approval) -> (r: String)
    ensures
        r@ == with_approval(m@, before@, *a),
{
    let mut r = text::lit(m);
    match &a.label {
        Some(l) => {
            r.append(before);
            r.append(l.as_str());
            r.append("\"");
        },
        None => {},
    }
    match &a.timestamp {
        Some(t) => {
            r.append(" (");
            r.append(t.as_str());
            r.append(")");
        },
        None => {},
    }
    r
}

impl Spreadsheet {
    /// Say whether the document is what was approved.
    pub fn verify_integrity(&mut self, status: VerificationStatus)
        ensures
            crate::hub::only_says(
                *old(self),
                *final(self),
                if old(self).file.current_file is None && text::has_prefix(
                    old(self).file.meta.display_name@,
                    "Book"@,
                ) {
                    "No active file to verify."@
                } else {
                    verification_text(status, old(self).file.approval)
                },
            ),
    {
        if self.file.current_file.is_none() && text::starts_with(
            self.file.meta.display_name.as_str(),
            "Book",
        ) {
            self.say("No active file to verify.");
            return;
        }
        let m = match status {
            VerificationStatus::Unverified => text::lit(
                "No verification baseline. Use 'Approve Model' first.",
            ),
            VerificationStatus::Verified => approval_string(
                "✓ Verification passed",
                " — matches Approved: \"",
                &self.file.approval,
            ),
            VerificationStatus::Drifted => approval_string(
                "✗ Verification failed — drifted",
                " from Approved: \"",
                &self.file.approval,
            ),
        };
        self.say(m.as_str());
    }
}

/// It was looked for a result in the terminal.
pub open spec fn result_looked_for(
    old: Spreadsheet,
    new: Spreadsheet,
    session: bool,
    found: Option<String>,
    auto_open: Setting<bool>,
    r: Option<StructuredResult>,
) -> bool {
    &&& if !session || found is None {
        &&& r is None
        &&& new == (Spreadsheet {
            status_message: new.status_message,
            terminal: TerminalState {
                watching_for_result: false,
                ..old.terminal
            },
            ..old
        })
        &&& text::opt_text(new.status_message) == Some(
            if !session {
                "No terminal session."@
            } else {
                "No structured output detected."@
            },
        )
    } else {
        let replaced = old.terminal.pending is Some;
        let opens = setting_or(auto_open, false);
        &&& if replaced {
            text::opt_text(new.status_message) == Some(
                "New structured result detected (previous replaced)."@,
            )
        } else {
            new.status_message == old.status_message
        }
        &&& new == (Spreadsheet {
            status_message: new.status_message,
            terminal: TerminalState {
                watching_for_result: false,
                pending: if opens {
                    None
                } else {
                    Some(PendingResult::Structured(found->0))
                },
                last_injected_command: if opens {
                    None
                } else {
                    old.terminal.last_injected_command
                },
                ..old.terminal
            },
            ..old
        })
        &&& if opens {
            r matches Some(s) && s.result == found->0 && result_source(s, old)
        } else {
            r is None
        }
    }
}

/// The result that is kept is to be opened.
pub open spec fn result_opened(
    old: Spreadsheet,
    new: Spreadsheet,
    r: Option<StructuredResult>,
) -> bool {
    &&& match old.terminal.pending {
        Some(PendingResult::Structured(s)) => {
            &&& r matches Some(x) && x.result == s && result_source(x, old)
            &&& new == (Spreadsheet {
                terminal: TerminalState {
                    pending: None,
                    last_injected_command: None,
                    ..old.terminal
                },
                ..old
            })
        },
        _ => r is None && new == old,
    }
}

/// A command for the file was typed into the terminal.
pub open spec fn command_injected(
    old: Spreadsheet,
    new: Spreadsheet,
    subcmd: Seq<char>,
    r: Option<String>,
) -> bool {
    &&& match old.file.current_file {
        None => r is None && crate::hub::only_says(
            old,
            new,
            "Save workbook first."@,
        ),
        Some(p) => {
            let c = file_command(subcmd, p.display@);
            &&& r matches Some(s) && s@ == c
            &&& command_given(old, new, text::trimmed(c))
            &&& new.status_message == old.status_message
        },
    }
}

/// A command that converts the file was typed into the terminal.
pub open spec fn convert_typed(
    old: Spreadsheet,
    new: Spreadsheet,
    inside: Option<Seq<char>>,
    r: Option<String>,
) -> bool {
    &&& match old.file.current_file {
        None => {
            &&& r is None
            &&& new == (Spreadsheet {
                mode: Mode::Navigation,
                status_message: new.status_message,
                ..old
            })
            &&& text::opt_text(new.status_message) == Some(
                "No active workbook to convert."@,
            )
        },
        Some(p) => {
            &&& r matches Some(c) && c@ == convert_command(
                p,
                inside,
                chrome::convert_ext(old.ui.convert_selected),
            )
            &&& new == (Spreadsheet {
                mode: Mode::Navigation,
                lua_console_visible: false,
                status_message: new.status_message,
                terminal: TerminalState {
                    visible: true,
                    focused: true,
                    panel_visible: true,
                    on_terminal_tab: true,
                    ..old.terminal
                },
                ..old
            })
            &&& text::opt_text(new.status_message) == Some(
                "Convert command inserted — press Enter to run."@,
            )
        },
    }
}

// ---------------------------------------------------------------------------
// Laws
// ---------------------------------------------------------------------------

/// A text is pasted whole: between the two marks of a paste where these are wanted, and alone otherwise.
pub proof fn a_paste_stands_between_its_marks(s: Seq<char>)
    ensures
        paste_writes(s, true).len() == 3 && paste_writes(s, true)[1] == s && paste_writes(s, true)[0]
            == "\x1b[200~"@ && paste_writes(s, true)[2] == "\x1b[201~"@,
        paste_writes(s, false) == seq![s],
        setting_or(Setting::Inherit, true) && !setting_or(Setting::Inherit, false),
        !setting_or(Setting::Value(false), true) && setting_or(Setting::Value(true), false),
{
}

/// A result that is found is kept until it is opened, with the file and the command that it came from, or opened at once where
/// that is wanted. It is opened once.
pub proof fn a_found_result_is_opened_once(
    a: Spreadsheet,
    b: Spreadsheet,
    c: Spreadsheet,
    d: Spreadsheet,
    found: String,
    auto_open: Setting<bool>,
    r1: Option<StructuredResult>,
    r2: Option<StructuredResult>,
    r3: Option<StructuredResult>,
)
    requires
        result_looked_for(a, b, true, Some(found), auto_open, r1),
        result_opened(b, c, r2),
        result_opened(c, d, r3),
    ensures
        r1 is Some <==> setting_or(auto_open, false),
        r1 is Some <==> r2 is None,
        r1 matches Some(x) ==> x.result == found && x.command == a.terminal.last_injected_command,
        r2 matches Some(x) ==> x.result == found && x.command == a.terminal.last_injected_command && (
        a.file.current_file matches Some(p) ==> text::opt_text(x.source_file) == Some(p.display@)),
        r3 is None,
        !b.terminal.watching_for_result && c.terminal.pending is None,
        c.file == a.file && c.view == a.view,
{
}

/// Where nothing is found, nothing is kept or opened, and that is said.
pub proof fn a_missing_result_is_told(
    old: Spreadsheet,
    new: Spreadsheet,
    session: bool,
    auto_open: Setting<bool>,
    r: Option<StructuredResult>,
)
    requires
        result_looked_for(old, new, session, None, auto_open, r),
    ensures
        r is None && new.terminal.pending == old.terminal.pending
            && !new.terminal.watching_for_result && new.status_message is Some,
{
}

/// A command is for the file of the window, which it names in quotes, and its result is waited for; an earlier result is let go. Without
/// a file there is no command.
pub proof fn a_command_is_for_the_file(
    old: Spreadsheet,
    new: Spreadsheet,
    subcmd: Seq<char>,
    r: Option<String>,
)
    requires
        old.terminal.watch_generation < u64::MAX,
        command_injected(old, new, subcmd, r),
    ensures
        r is Some <==> old.file.current_file is Some,
        r matches Some(c) ==> text::contains_text(
            c@,
            " \""@ + old.file.current_file->0.display@ + "\" --json\n"@,
        ) && text::contains_text(c@, subcmd) && new.terminal.watching_for_result
            && new.terminal.pending is None && new.terminal.watch_generation
            == old.terminal.watch_generation + 1 && new.terminal.last_injected_command is Some,
        r is None ==> new.terminal == old.terminal,
        new.file == old.file,
{
    if let Some(p) = old.file.current_file {
        text::a_text_holds_its_parts(
            "vgrid "@ + subcmd,
            " \""@,
            p.display@,
            "\" --json\n"@,
        );
        text::a_text_holds_its_parts("vgrid "@, subcmd, " \""@, p.display@);
        text::what_is_held_stays_held(
            Seq::empty(),
            "vgrid "@ + subcmd + " \""@ + p.display@,
            "\" --json\n"@,
            subcmd,
        );
    }
}

/// A conversion goes to a file of the same stem with the new extension, and the terminal comes to the front with it.
pub proof fn a_conversion_keeps_the_stem(
    old: Spreadsheet,
    new: Spreadsheet,
    inside: Option<Seq<char>>,
    r: Option<String>,
)
    requires
        convert_typed(old, new, inside, r),
    ensures
        r is Some <==> old.file.current_file is Some,
        r matches Some(c) ==> (old.file.current_file->0.stem matches Some(s) ==> text::has_suffix(
            c@,
            s@ + "."@ + chrome::convert_ext(old.ui.convert_selected),
        )) && new.terminal.visible && new.terminal.focused,
        new.mode == Mode::Navigation && new.file == old.file,
{
    if let Some(p) = old.file.current_file {
        let ext = chrome::convert_ext(old.ui.convert_selected);
        let input = match inside {
            Some(x) => x,
            None => "\""@ + p.display@ + "\""@,
        };
        let output = match p.stem {
            Some(s) => s@,
            None => "output"@,
        } + "."@ + ext;
        let front = "vgrid convert "@ + input + " -t "@ + ext + " -o "@ + output + "  # Output: ./"@;
        text::what_it_means_to_hold_a_text(front, output, Seq::empty());
    }
}

/// What was approved is named with its label and its time where there are such, and a pass is told from a failure.
pub proof fn a_verification_names_the_approval(a: Approval)
    ensures
        a.timestamp matches Some(t) ==> text::has_suffix(
            verification_text(VerificationStatus::Verified, a),
            " ("@ + t@ + ")"@,
        ),
        a.timestamp is None ==> (a.label matches Some(l) ==> text::has_suffix(
            verification_text(VerificationStatus::Verified, a),
            l@ + "\""@,
        ) && text::has_suffix(verification_text(VerificationStatus::Drifted, a), l@ + "\""@)),
        a.timestamp is None && a.label is None ==> verification_text(VerificationStatus::Verified, a)
            == "✓ Verification passed"@ && verification_text(VerificationStatus::Drifted, a)
            == "✗ Verification failed — drifted"@,
{
    let m = "✓ Verification passed"@;
    let n = "✗ Verification failed — drifted"@;
    let named = match a.label {
        Some(l) => m + " — matches Approved: \""@ + l@ + "\""@,
        None => m,
    };
    if let Some(t) = a.timestamp {
        text::a_text_holds_its_parts(named, " ("@, t@, ")"@);
    } else if let Some(l) = a.label {
        text::a_text_holds_its_parts(m, " — matches Approved: \""@, l@, "\""@);
        text::a_text_holds_its_parts(n, " from Approved: \""@, l@, "\""@);
    }
}

} // verus!
