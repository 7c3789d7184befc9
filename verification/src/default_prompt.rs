//! The prompt that offers to make this program the default application for
//! the kind of file that is open.

use vstd::prelude::*;

use crate::file_type;
use crate::file_type::{PromptSession, SpreadsheetFileType};
use crate::state::{DocPath, Mode, Spreadsheet};
use crate::text;

verus! {

#[derive(Debug, Clone, Copy, PartialEq, Eq, Structural)]
pub enum DefaultAppPromptState {
    Hidden,
    Showing,
    /// The program is the default application now.
    Success,
    /// The user has to finish the change in the settings of the system.
    NeedsSettings,
}

/// The prompt. Times are in nanoseconds of a clock that never goes back.
#[derive(Debug, Clone, Copy, PartialEq, Eq)]
pub struct PromptState {
    pub state: DefaultAppPromptState,
    pub file_type: Option<SpreadsheetFileType>,
    pub success_since: Option<u64>,
    pub needs_settings_since: Option<u64>,
    pub checks: u8,
}

/// What the user has chosen earlier for a kind of file.
#[derive(Debug, Clone, Copy, PartialEq, Eq, Structural)]
pub struct PromptChoices {
    pub dismissed: bool,
    pub completed: bool,
    /// The prompt was ignored not long ago.
    pub cooling_down: bool,
}

/// What is written down in the settings of the user.
#[derive(Debug, PartialEq, Eq)]
pub enum PromptNote {
    Nothing,
    /// The prompt was shown for this extension.
    Shown(String),
    /// The program is the default application for this extension.
    Completed(String),
    /// The prompt is not wanted for this extension.
    Dismissed(String),
}

/// How long a success is shown, in nanoseconds.
pub const SUCCESS_NANOS: u64 = 2_000_000_000;

pub const NANOS_PER_SECOND: u64 = 1_000_000_000;

/// The prompt of a new window.
pub open spec fn no_prompt() -> PromptState {
    PromptState {
        state: DefaultAppPromptState::Hidden,
        file_type: None,
        success_since: None,
        needs_settings_since: None,
        checks: 0,
    }
}

impl PromptState {
    pub fn new() -> (p: PromptState)
        ensures
            p == no_prompt(),
    {
        PromptState {
            state: DefaultAppPromptState::Hidden,
            file_type: None,
            success_since: None,
            needs_settings_since: None,
            checks: 0,
        }
    }
}

/// The kind of file that a path has.
pub open spec fn path_type(p: Option<DocPath>) -> Option<SpreadsheetFileType> {
    match p {
        Some(DocPath { ext: Some(e), .. }) => file_type::type_of(text::lowercased(e@)),
        _ => None,
    }
}

fn type_of_path(p: &Option<DocPath>) -> (r: Option<SpreadsheetFileType>)
    ensures
        r == path_type(*p),
{
    match p {
        Some(path) => match &path.ext {
            Some(e) => SpreadsheetFileType::from_ext(e.as_str()),
            None => None,
        },
        None => None,
    }
}

/// The kind of file that the prompt is for: the one that it was shown for,
/// else that of the open file.
pub open spec fn prompt_type(s: Spreadsheet) -> Option<SpreadsheetFileType> {
    match s.prompt.file_type {
        Some(t) => Some(t),
        None => path_type(s.file.meta.path),
    }
}

/// A note about a kind of file, if there is one.
pub open spec fn notes_completed(n: PromptNote, t: Option<SpreadsheetFileType>) -> bool {
    match t {
        Some(x) => n matches PromptNote::Completed(k) && k@ == file_type::key_of(x),
        None => n == PromptNote::Nothing,
    }
}

/// The prompt when the user has finished the change.
pub open spec fn success_at(p: PromptState, now: u64) -> PromptState {
    PromptState {
        state: DefaultAppPromptState::Success,
        success_since: Some(now),
        needs_settings_since: None,
        checks: 0,
        ..p
    }
}

/// The prompt when it is gone.
pub open spec fn prompt_gone(p: PromptState) -> PromptState {
    PromptState {
        state: DefaultAppPromptState::Hidden,
        needs_settings_since: None,
        checks: 0,
        ..p
    }
}

/// The prompt has a place in the window: it gives feedback, or a saved or
/// imported file is open that is no temporary one and of a foreign kind, the
/// user has not decided about the kind, and the program is not the default
/// application for it.
pub open spec fn prompt_wanted(
    s: Spreadsheet,
    shown: bool,
    choices: PromptChoices,
    is_default: bool,
) -> bool {
    ||| s.prompt.state == DefaultAppPromptState::Success
    ||| s.prompt.state == DefaultAppPromptState::NeedsSettings
    ||| {
        &&& s.file.meta.path is Some
        &&& s.mode != Mode::ImportReport
        &&& s.file.meta.is_saved || s.file.meta.source is Some
        &&& !file_type::is_temporary(s.file.meta.path->0)
        &&& path_type(s.file.meta.path) matches Some(t) && t != SpreadsheetFileType::Native && t
            != SpreadsheetFileType::NativeVgrid
        &&& !choices.dismissed && !choices.completed && !choices.cooling_down
        &&& !shown
        &&& !is_default
    }
}

/// The seconds after which the change is looked for, by how often it was.
pub open spec fn check_due(checks: int) -> u64 {
    if checks == 0 {
        3
    } else if checks == 1 {
        8
    } else {
        20
    }
}

/// The time since an earlier moment.
pub open spec fn since(now: u64, then: u64) -> int {
    if now >= then {
        now - then
    } else {
        0
    }
}

impl Spreadsheet {
    /// The kind of file that the prompt is for. Systems without bundles have no
    /// prompt.
    pub fn get_prompt_file_type(&self, macos: bool) -> (r: Option<SpreadsheetFileType>)
        ensures
            r == if macos {
                prompt_type(*self)
            } else {
                None
            },
    {
        if macos {
            self.cached_or_own_type()
        } else {
            None
        }
    }

    fn cached_or_own_type(&self) -> (r: Option<SpreadsheetFileType>)
        ensures
            r == prompt_type(*self),
    {
        match self.prompt.file_type {
            Some(t) => Some(t),
            None => type_of_path(&self.file.meta.path),
        }
    }

    /// The extension under which choices about the prompt are kept.
    pub fn get_prompt_ext_key(&self) -> (r: Option<String>)
        ensures
            match prompt_type(*self) {
                Some(t) => r matches Some(k) && k@ == file_type::key_of(t),
                None => r is None,
            },
    {
        match self.cached_or_own_type() {
            Some(t) => Some(text::lit(t.ext_key())),
            None => None,
        }
    }

    fn completed_note(&self) -> (n: PromptNote)
        ensures
            notes_completed(n, prompt_type(*self)),
    {
        match self.get_prompt_ext_key() {
            Some(k) => PromptNote::Completed(k),
            None => PromptNote::Nothing,
        }
    }

    /// Whether the prompt has a place in the window. `choices` are those for
    /// the kind of file that is open, and `is_default` is whether the program
    /// is the default application for it. Systems without bundles have no
    /// prompt.
    pub fn should_show_default_app_prompt(
        &self,
        macos: bool,
        session: &PromptSession,
        choices: &PromptChoices,
        is_default: bool,
    ) -> (r: bool)
        ensures
            r == (macos && prompt_wanted(*self, session.shown, *choices, is_default)),
    {
        if !macos {
            return false;
        }
        if self.prompt.state == DefaultAppPromptState::Success || self.prompt.state
            == DefaultAppPromptState::NeedsSettings {
            return true;
        }
        match &self.file.meta.path {
            None => {
                return false;
            },
            Some(p) => {
                if file_type::is_temporary_file(p) {
                    return false;
                }
            },
        }
        if self.mode == Mode::ImportReport {
            return false;
        }
        if !self.file.meta.is_saved && self.file.meta.source.is_none() {
            return false;
        }
        match type_of_path(&self.file.meta.path) {
            None => {
                return false;
            },
            Some(t) => {
                if t == SpreadsheetFileType::Native || t == SpreadsheetFileType::NativeVgrid {
                    return false;
                }
            },
        }
        !choices.dismissed && !choices.completed && !choices.cooling_down
            && !file_type::shown_this_session(session) && !is_default
    }

    /// The prompt has become visible.
    pub fn on_default_app_prompt_shown(&mut self, session: &mut PromptSession) -> (note: PromptNote)
        ensures
            final(session).shown,
            *final(self) == (Spreadsheet {
                prompt: PromptState {
                    state: DefaultAppPromptState::Showing,
                    file_type: match old(self).file.meta.path {
                        Some(DocPath { ext: Some(_), .. }) => path_type(old(self).file.meta.path),
                        _ => old(self).prompt.file_type,
                    },
                    ..old(self).prompt
                },
                ..*old(self)
            }),
            match prompt_type(*final(self)) {
                Some(t) => note matches PromptNote::Shown(k) && k@ == file_type::key_of(t),
                None => note == PromptNote::Nothing,
            },
    {
        match &self.file.meta.path {
            Some(p) => match &p.ext {
                Some(e) => {
                    self.prompt.file_type = SpreadsheetFileType::from_ext(e.as_str());
                },
                None => {},
            },
            None => {},
        }
        file_type::mark_shown_this_session(session);
        self.prompt.state = DefaultAppPromptState::Showing;
        match self.get_prompt_ext_key() {
            Some(k) => PromptNote::Shown(k),
            None => PromptNote::Nothing,
        }
    }

    /// The program was registered for the kind of file of the prompt, or could
    /// not be; `is_default` is whether it is the default application now.
    pub fn set_as_default_app(&mut self, macos: bool, registered: bool, is_default: bool, now: u64) -> (note:
        PromptNote)
        ensures
            default_asked(*old(self), *final(self), macos, registered, is_default, now, note),
    {
        if self.get_prompt_file_type(macos).is_none() {
            return PromptNote::Nothing;
        }
        if registered && is_default {
            let note = self.completed_note();
            self.prompt.state = DefaultAppPromptState::Success;
            self.prompt.success_since = Some(now);
            note
        } else {
            self.prompt.state = DefaultAppPromptState::NeedsSettings;
            self.prompt.needs_settings_since = Some(now);
            self.prompt.checks = 0;
            PromptNote::Nothing
        }
    }

    /// The user does not want the prompt for this kind of file.
    pub fn dismiss_default_app_prompt(&mut self) -> (note: PromptNote)
        ensures
            prompt_dismissed(*old(self), *final(self), note),
    {
        let note = match self.get_prompt_ext_key() {
            Some(k) => PromptNote::Dismissed(k),
            None => PromptNote::Nothing,
        };
        self.hide_default_app_prompt();
        note
    }

    fn hide_default_app_prompt(&mut self)
        ensures
            *final(self) == (Spreadsheet { prompt: prompt_gone(old(self).prompt), ..*old(self) }),
    {
        self.prompt.state = DefaultAppPromptState::Hidden;
        self.prompt.needs_settings_since = None;
        self.prompt.checks = 0;
    }

    fn show_default_app_success(&mut self, now: u64)
        ensures
            *final(self) == (Spreadsheet {
                prompt: success_at(old(self).prompt, now),
                ..*old(self)
            }),
    {
        self.prompt.state = DefaultAppPromptState::Success;
        self.prompt.success_since = Some(now);
        self.prompt.needs_settings_since = None;
        self.prompt.checks = 0;
    }

    /// Look for the change when the user comes back from the settings of the
    /// system.
    pub fn recheck_default_app_handler(&mut self, macos: bool, is_default: bool, now: u64) -> (note:
        PromptNote)
        ensures
            handler_rechecked(*old(self), *final(self), macos, is_default, now, note),
    {
        if !macos || self.prompt.state != DefaultAppPromptState::NeedsSettings {
            return PromptNote::Nothing;
        }
        if self.get_prompt_file_type(macos).is_some() && is_default {
            let note = self.completed_note();
            self.show_default_app_success(now);
            note
        } else {
            self.hide_default_app_prompt();
            PromptNote::Nothing
        }
    }

    /// Time has passed: a success goes away, and the change in the settings of
    /// the system is looked for three times.
    pub fn check_default_app_prompt_timer(&mut self, macos: bool, is_default: bool, now: u64) -> (note:
        PromptNote)
        ensures
            prompt_timed(*old(self), *final(self), macos, is_default, now, note),
    {
        if self.prompt.state == DefaultAppPromptState::Success {
            match self.prompt.success_since {
                Some(t) => {
                    if now > t && now - t > SUCCESS_NANOS {
                        self.prompt.state = DefaultAppPromptState::Hidden;
                        self.prompt.success_since = None;
                    }
                },
                None => {},
            }
            return PromptNote::Nothing;
        }
        if self.prompt.state != DefaultAppPromptState::NeedsSettings || !macos {
            return PromptNote::Nothing;
        }
        let entered: u64 = match self.prompt.needs_settings_since {
            Some(t) => t,
            None => {
                return PromptNote::Nothing;
            },
        };
        if self.prompt.checks >= 3 {
            return PromptNote::Nothing;
        }
        let elapsed: u64 = if now >= entered {
            (now - entered) / NANOS_PER_SECOND
        } else {
            0
        };
        let due: u64 = if self.prompt.checks == 0 {
            3
        } else if self.prompt.checks == 1 {
            8
        } else {
            20
        };
        if elapsed < due {
            return PromptNote::Nothing;
        }
        if self.get_prompt_file_type(macos).is_some() && is_default {
            let note = self.completed_note();
            self.show_default_app_success(now);
            note
        } else {
            self.prompt.checks = self.prompt.checks + 1;
            PromptNote::Nothing
        }
    }
}

/// The program is to be the default application.
pub open spec fn default_asked(
    old: Spreadsheet,
    new: Spreadsheet,
    macos: bool,
    registered: bool,
    is_default: bool,
    now: u64,
    note: PromptNote,
) -> bool {
    &&& if !macos || prompt_type(old) is None {
        new == old && note == PromptNote::Nothing
    } else if registered && is_default {
        &&& new == (Spreadsheet {
            prompt: PromptState {
                state: DefaultAppPromptState::Success,
                success_since: Some(now),
                ..old.prompt
            },
            ..old
        })
        &&& notes_completed(note, prompt_type(old))
    } else {
        &&& new == (Spreadsheet {
            prompt: PromptState {
                state: DefaultAppPromptState::NeedsSettings,
                needs_settings_since: Some(now),
                checks: 0,
                ..old.prompt
            },
            ..old
        })
        &&& note == PromptNote::Nothing
    }
}

/// The prompt was dismissed.
pub open spec fn prompt_dismissed(
    old: Spreadsheet,
    new: Spreadsheet,
    note: PromptNote,
) -> bool {
    &&& new == (Spreadsheet { prompt: prompt_gone(old.prompt), ..old })
    &&& match prompt_type(old) {
        Some(t) => note matches PromptNote::Dismissed(k) && k@ == file_type::key_of(t),
        None => note == PromptNote::Nothing,
    }
}

/// The window came back to the front.
pub open spec fn handler_rechecked(
    old: Spreadsheet,
    new: Spreadsheet,
    macos: bool,
    is_default: bool,
    now: u64,
    note: PromptNote,
) -> bool {
    &&& if !macos || old.prompt.state != DefaultAppPromptState::NeedsSettings {
        new == old && note == PromptNote::Nothing
    } else if prompt_type(old) is Some && is_default {
        &&& new == (Spreadsheet {
            prompt: success_at(old.prompt, now),
            ..old
        })
        &&& notes_completed(note, prompt_type(old))
    } else {
        &&& new == (Spreadsheet {
            prompt: prompt_gone(old.prompt),
            ..old
        })
        &&& note == PromptNote::Nothing
    }
}

/// Time has passed over the prompt.
pub open spec fn prompt_timed(
    old: Spreadsheet,
    new: Spreadsheet,
    macos: bool,
    is_default: bool,
    now: u64,
    note: PromptNote,
) -> bool {
    &&& ({
        let p = old.prompt;
        match p.state {
            DefaultAppPromptState::Success => {
                &&& note == PromptNote::Nothing
                &&& new.prompt == if p.success_since matches Some(t) && since(
                    now,
                    t,
                ) > SUCCESS_NANOS {
                    PromptState {
                        state: DefaultAppPromptState::Hidden,
                        success_since: None,
                        ..p
                    }
                } else {
                    p
                }
            },
            DefaultAppPromptState::NeedsSettings => {
                let due = macos && p.checks < 3 && (p.needs_settings_since matches Some(t)
                    && since(now, t) / (NANOS_PER_SECOND as int) >= check_due(
                    p.checks as int,
                ));
                if !due {
                    new.prompt == p && note == PromptNote::Nothing
                } else if prompt_type(old) is Some && is_default {
                    &&& new.prompt == success_at(p, now)
                    &&& notes_completed(note, prompt_type(old))
                } else {
                    &&& new.prompt == (PromptState {
                        checks: (p.checks + 1) as u8,
                        ..p
                    })
                    &&& note == PromptNote::Nothing
                }
            },
            _ => new.prompt == p && note == PromptNote::Nothing,
        }
    })
    &&& new == (Spreadsheet { prompt: new.prompt, ..old })
}

// ---------------------------------------------------------------------------
// Laws
// ---------------------------------------------------------------------------

/// A prompt that was shown, or that the user has dismissed, is not shown again
/// unless it gives feedback.
pub proof fn the_prompt_does_not_come_back(
    s: Spreadsheet,
    shown: bool,
    choices: PromptChoices,
    is_default: bool,
)
    requires
        s.prompt.state == DefaultAppPromptState::Hidden || s.prompt.state
            == DefaultAppPromptState::Showing,
        shown || choices.dismissed || choices.completed || choices.cooling_down || is_default,
    ensures
        !prompt_wanted(s, shown, choices, is_default),
{
}

/// Native files never raise the prompt.
pub proof fn native_files_raise_no_prompt(
    s: Spreadsheet,
    shown: bool,
    choices: PromptChoices,
    is_default: bool,
)
    requires
        s.prompt.state == DefaultAppPromptState::Hidden || s.prompt.state
            == DefaultAppPromptState::Showing,
        path_type(s.file.meta.path) == Some(SpreadsheetFileType::Native) || path_type(
            s.file.meta.path,
        ) == Some(SpreadsheetFileType::NativeVgrid),
    ensures
        !prompt_wanted(s, shown, choices, is_default),
{
}

/// A saved file of another program's kind raises the prompt, as long as nothing speaks against
/// it: it is not a temporary file, the prompt was not shown, dismissed, completed or ignored not
/// long ago, and the program is not the default application already.
pub proof fn a_foreign_file_raises_the_prompt(s: Spreadsheet, choices: PromptChoices)
    requires
        s.file.meta.path is Some,
        s.file.meta.is_saved,
        s.mode != Mode::ImportReport,
        !file_type::is_temporary(s.file.meta.path->0),
        path_type(s.file.meta.path) == Some(SpreadsheetFileType::Excel) || path_type(
            s.file.meta.path,
        ) == Some(SpreadsheetFileType::Csv) || path_type(s.file.meta.path) == Some(
            SpreadsheetFileType::Tsv,
        ),
        !choices.dismissed && !choices.completed && !choices.cooling_down,
    ensures
        prompt_wanted(s, false, choices, false),
{
}

/// Taking the program as the default application is told with the extension of the file where it
/// took; where it did not, the settings of the system are needed, and they are looked at from then
/// on. Elsewhere, and without a file, nothing happens.
pub proof fn taking_the_default_is_told(
    old: Spreadsheet,
    new: Spreadsheet,
    macos: bool,
    registered: bool,
    is_default: bool,
    now: u64,
    note: PromptNote,
)
    requires
        default_asked(old, new, macos, registered, is_default, now, note),
        old.prompt.state == DefaultAppPromptState::Showing,
    ensures
        macos && prompt_type(old) is Some ==> (new.prompt.state == DefaultAppPromptState::Success
            <==> registered && is_default) && (new.prompt.state
            == DefaultAppPromptState::NeedsSettings <==> !(registered && is_default)),
        new.prompt.state == DefaultAppPromptState::Success ==> new.prompt.success_since == Some(now)
            && (note matches PromptNote::Completed(k) && Some(k@) == Some(
            file_type::key_of(prompt_type(old)->0),
        )),
        new.prompt.state == DefaultAppPromptState::NeedsSettings ==> new.prompt.needs_settings_since
            == Some(now) && new.prompt.checks == 0 && note == PromptNote::Nothing,
        !macos || prompt_type(old) is None ==> new == old && note == PromptNote::Nothing,
        new.file == old.file && new.mode == old.mode,
{
}

/// A prompt that is dismissed is gone, and it is told for which extension.
pub proof fn a_dismissed_prompt_is_gone(old: Spreadsheet, new: Spreadsheet, note: PromptNote)
    requires
        prompt_dismissed(old, new, note),
    ensures
        new.prompt.state == DefaultAppPromptState::Hidden && new.prompt.checks == 0
            && new.prompt.needs_settings_since is None,
        prompt_type(old) matches Some(t) ==> (note matches PromptNote::Dismissed(k) && k@
            == file_type::key_of(t)),
        prompt_type(old) is None ==> note == PromptNote::Nothing,
        new.file == old.file && new.mode == old.mode,
{
}

/// When the window comes back to the front while the settings are needed, the prompt is over: with
/// success where the program is the default application now, and gone otherwise.
pub proof fn coming_back_ends_the_prompt(
    old: Spreadsheet,
    new: Spreadsheet,
    macos: bool,
    is_default: bool,
    now: u64,
    note: PromptNote,
)
    requires
        handler_rechecked(old, new, macos, is_default, now, note),
    ensures
        old.prompt.state != DefaultAppPromptState::NeedsSettings || !macos ==> new == old && note
            == PromptNote::Nothing,
        macos && old.prompt.state == DefaultAppPromptState::NeedsSettings ==> {
            &&& new.prompt.state == DefaultAppPromptState::Success || new.prompt.state
                == DefaultAppPromptState::Hidden
            &&& new.prompt.state == DefaultAppPromptState::Success <==> is_default && prompt_type(
                old,
            ) is Some
            &&& note is Completed <==> new.prompt.state == DefaultAppPromptState::Success
            &&& new.prompt.needs_settings_since is None && new.prompt.checks == 0
            &&& new.prompt.state == DefaultAppPromptState::Success ==> new.prompt.success_since
                == Some(now)
        },
{
}

/// A success is shown for two seconds. While the settings are needed it is looked after three, after
/// eight and after twenty seconds whether the program is the default application now, and not more
/// often.
pub proof fn a_prompt_is_looked_after_three_times(
    old: Spreadsheet,
    new: Spreadsheet,
    macos: bool,
    is_default: bool,
    now: u64,
    note: PromptNote,
    then: u64,
)
    requires
        prompt_timed(old, new, macos, is_default, now, note),
        then <= now,
    ensures
        old.prompt.state == DefaultAppPromptState::Success && old.prompt.success_since == Some(then)
            ==> (new.prompt.state == DefaultAppPromptState::Hidden <==> now - then > 2_000_000_000)
            && (now - then <= 2_000_000_000 ==> new == old),
        old.prompt.state == DefaultAppPromptState::NeedsSettings
            && old.prompt.needs_settings_since == Some(then) ==> {
            &&& old.prompt.checks >= 3 || now - then < 3_000_000_000 ==> new == old
            &&& old.prompt.checks == 1 && now - then < 8_000_000_000 ==> new == old
            &&& old.prompt.checks == 2 && now - then < 20_000_000_000 ==> new == old
            &&& macos && old.prompt.checks < 3 && now - then >= 20_000_000_000 ==> (if is_default
                && prompt_type(old) is Some {
                new.prompt.state == DefaultAppPromptState::Success && note is Completed
            } else {
                new.prompt.checks == old.prompt.checks + 1 && new.prompt.state == old.prompt.state
            })
            &&& macos && old.prompt.checks == 0 && now - then >= 3_000_000_000 && !is_default
                ==> new.prompt.checks == 1
        },
        old.prompt.state == DefaultAppPromptState::Hidden || old.prompt.state
            == DefaultAppPromptState::Showing ==> new == old && note == PromptNote::Nothing,
        new.file == old.file && new.mode == old.mode,
{
}

} // verus!
