//! The small dialogs: going to a cell, the name box, themes, paste special, the
//! license, and the inspector.

use vstd::prelude::*;

use crate::diff_report::DiffCell;
use crate::dropdown::DropdownCloseReason;
use crate::fitting::CellSpan;
use crate::naming;
use crate::state::{Mode, Spreadsheet, ViewState};
use crate::text;

verus! {

/// How many rows and columns can be gone to.
pub const NUM_ROWS: usize = 1_000_000;

pub const NUM_COLS: usize = 16_384;

#[derive(Debug, Clone, Copy, PartialEq, Eq, Structural)]
pub enum PasteType {
    All,
    Values,
    Formulas,
    Formats,
}

/// A theme, by the names it goes under.
#[derive(Debug, PartialEq, Eq)]
pub struct ThemeName {
    pub id: String,
    pub name: String,
}

impl Clone for ThemeName {
    fn clone(&self) -> (r: ThemeName)
        ensures
            r == *self,
    {
        ThemeName { id: self.id.clone(), name: self.name.clone() }
    }
}

/// A theme that was chosen: the one to show, and the choice to keep.
#[derive(Debug, PartialEq, Eq)]
pub struct ThemeChoice {
    pub show: String,
    pub keep: String,
}

/// A way from one cell to another along formulas.
#[derive(Debug, PartialEq, Eq)]
pub struct TracePath {
    pub path: Vec<DiffCell>,
    pub has_dynamic_refs: bool,
    pub truncated: bool,
}

/// What a license came to.
#[derive(Debug, PartialEq, Eq)]
pub enum LicenseVerdict {
    /// It is valid: a summary of it.
    Valid(String),
    /// It is not: why, in words for the user.
    Refused(String),
}

/// The small dialogs.
#[derive(Debug, PartialEq, Eq)]
pub struct DialogState {
    pub goto_input: String,
    pub tab_chain_origin_col: Option<usize>,
    pub name_box_input: String,
    pub name_box_editing: bool,
    pub name_box_replace_next: bool,
    pub theme_query: String,
    pub theme_selected: usize,
    pub theme_preview: Option<ThemeName>,
    pub paste_selected: PasteType,
    pub last_paste: PasteType,
    pub license_input: String,
    pub license_error: Option<String>,
    pub trial_confirm_visible: bool,
    pub inspector_pinned: Option<(usize, usize)>,
    pub trace_path: Option<Vec<DiffCell>>,
    pub trace_incomplete: bool,
}

/// The small dialogs of a new window.
pub open spec fn no_dialogs(d: DialogState) -> bool {
    &&& d.goto_input@.len() == 0 && d.tab_chain_origin_col is None
    &&& d.name_box_input@.len() == 0 && !d.name_box_editing && !d.name_box_replace_next
    &&& d.theme_query@.len() == 0 && d.theme_selected == 0 && d.theme_preview is None
    &&& d.paste_selected == PasteType::All && d.last_paste == PasteType::All
    &&& d.license_input@.len() == 0 && d.license_error is None && !d.trial_confirm_visible
    &&& d.inspector_pinned is None && d.trace_path is None && !d.trace_incomplete
}

impl DialogState {
    pub fn new() -> (d: DialogState)
        ensures
            no_dialogs(d),
    {
        DialogState {
            goto_input: String::new(),
            tab_chain_origin_col: None,
            name_box_input: String::new(),
            name_box_editing: false,
            name_box_replace_next: false,
            theme_query: String::new(),
            theme_selected: 0,
            theme_preview: None,
            paste_selected: PasteType::All,
            last_paste: PasteType::All,
            license_input: String::new(),
            license_error: None,
            trial_confirm_visible: false,
            inspector_pinned: None,
            trace_path: None,
            trace_incomplete: false,
        }
    }
}

/// The window with a modal dialog open.
pub open spec fn modal(s: Spreadsheet, mode: Mode) -> Spreadsheet {
    Spreadsheet { mode, lua_console_visible: false, dropdown: None, ..s }
}

/// The upper-case form of an ASCII character.
pub open spec fn ascii_upper(c: char) -> char {
    if 'a' <= c <= 'z' {
        (c as u32 - 32) as char
    } else {
        c
    }
}

fn upper(c: char) -> (r: char)
    ensures
        r == ascii_upper(c),
{
    if 'a' <= c && c <= 'z' {
        ((c as u8) - 32) as char
    } else {
        c
    }
}

// ---------------------------------------------------------------------------
// Going to a cell
// ---------------------------------------------------------------------------

/// The view at a cell. A cell in a merged range stands for the whole range.
pub open spec fn view_at(v: ViewState, cell: (usize, usize), merge: Option<CellSpan>) -> ViewState {
    match merge {
        Some(m) => ViewState {
            selected: (m.min_row, m.min_col),
            selection_end: if m.max_row == m.min_row && m.max_col == m.min_col {
                None
            } else {
                Some((m.max_row, m.max_col))
            },
            ..v
        },
        None => ViewState { selected: cell, selection_end: None, ..v },
    }
}

/// The dialog to go to a cell was opened, with nothing typed into it.
pub open spec fn goto_shown(old: Spreadsheet, new: Spreadsheet) -> bool {
    &&& new == (Spreadsheet {
        dialogs: DialogState {
            goto_input: new.dialogs.goto_input,
            tab_chain_origin_col: None,
            ..old.dialogs
        },
        ..modal(old, Mode::GoTo)
    })
    &&& new.dialogs.goto_input@.len() == 0
}

/// The window with the dialog on what to paste, at what was pasted last.
pub open spec fn paste_special_shown(s: Spreadsheet) -> Spreadsheet {
    Spreadsheet {
        dialogs: DialogState { paste_selected: s.dialogs.last_paste, ..s.dialogs },
        ..modal(s, Mode::PasteSpecial)
    }
}

/// The cell can be gone to.
pub open spec fn in_grid(cell: (usize, usize)) -> bool {
    cell.0 < NUM_ROWS && cell.1 < NUM_COLS
}

impl Spreadsheet {
    /// Open the dialog to go to a cell.
    pub fn show_goto(&mut self)
        ensures
            goto_shown(*old(self), *final(self)),
    {
        self.close_validation_dropdown(DropdownCloseReason::ModalOpened);
        self.lua_console_visible = false;
        self.dialogs.tab_chain_origin_col = None;
        self.mode = Mode::GoTo;
        self.dialogs.goto_input = String::new();
    }

    /// Close the dialog to go to a cell.
    pub fn hide_goto(&mut self)
        ensures
            *final(self) == (Spreadsheet {
                mode: Mode::Navigation,
                dialogs: DialogState {
                    goto_input: final(self).dialogs.goto_input,
                    ..old(self).dialogs
                },
                ..*old(self)
            }),
            final(self).dialogs.goto_input@.len() == 0,
    {
        self.mode = Mode::Navigation;
        self.dialogs.goto_input = String::new();
    }

    /// Put the selection on a cell, or on the merged range that it is in.
    fn jump_to(&mut self, cell: (usize, usize), merge: &Option<CellSpan>)
        ensures
            *final(self) == (Spreadsheet {
                view: view_at(old(self).view, cell, *merge),
                extra_selections: final(self).extra_selections,
                ..*old(self)
            }),
            final(self).extra_selections@.len() == 0,
    {
        match merge {
            Some(m) => {
                self.view.selected = (m.min_row, m.min_col);
                self.view.selection_end = if m.max_row == m.min_row && m.max_col == m.min_col {
                    None
                } else {
                    Some((m.max_row, m.max_col))
                };
            },
            None => {
                self.view.selected = cell;
                self.view.selection_end = None;
            },
        }
        self.extra_selections = Vec::new();
    }

    /// Go to the cell that was entered. `cell` is what the input stands for, if
    /// it names a cell, and `merge` the merged range that it is in.
    pub fn confirm_goto(&mut self, cell: Option<(usize, usize)>, merge: &Option<CellSpan>)
        requires
            merge matches Some(m) ==> m.min_row < usize::MAX,
        ensures
            went_to(*old(self), *final(self), cell, *merge),
    {
        self.close_validation_dropdown(DropdownCloseReason::SelectionChanged);
        match cell {
            Some(p) => {
                if p.0 < NUM_ROWS && p.1 < NUM_COLS {
                    self.jump_to(p, merge);
                    let name = self.cell_ref();
                    self.say_with("Jumped to ", name.as_str());
                } else {
                    self.say("Cell reference out of range");
                }
            },
            None => self.say("Invalid cell reference"),
        }
        self.mode = Mode::Navigation;
        self.dialogs.goto_input = String::new();
    }

    /// A character was typed in the dialog to go to a cell.
    pub fn goto_insert_char(&mut self, c: char)
        ensures
            goto_typed(*old(self), *final(self), c),
    {
        if self.mode == Mode::GoTo {
            self.dialogs.goto_input.push(upper(c));
        }
    }

    /// The last character of the dialog to go to a cell is taken back.
    pub fn goto_backspace(&mut self)
        ensures
            goto_taken_back(*old(self), *final(self)),
    {
        if self.mode == Mode::GoTo {
            self.dialogs.goto_input.pop();
        }
    }

    // -----------------------------------------------------------------------
    // The name box
    // -----------------------------------------------------------------------

    /// Edit the name of the selected cell; the first key replaces it.
    pub fn start_name_box_edit(&mut self)
        requires
            old(self).view.selected.0 < usize::MAX,
        ensures
            name_box_entered(*old(self), *final(self)),
    {
        self.dialogs.name_box_input = self.cell_ref();
        self.dialogs.name_box_editing = true;
        self.dialogs.name_box_replace_next = true;
    }

    /// Leave the name box.
    pub fn cancel_name_box_edit(&mut self)
        ensures
            *final(self) == (Spreadsheet { dialogs: final(self).dialogs, ..*old(self) }),
            name_box_left(old(self).dialogs, final(self).dialogs),
    {
        self.dialogs.name_box_editing = false;
        self.dialogs.name_box_input = String::new();
        self.dialogs.name_box_replace_next = false;
    }

    /// Go to the cell in the name box, if it names one, and leave the box.
    pub fn confirm_name_box(&mut self, cell: Option<(usize, usize)>, merge: &Option<CellSpan>)
        ensures
            name_box_confirmed(*old(self), *final(self), cell, *merge),
    {
        match cell {
            Some(p) => {
                if p.0 < NUM_ROWS && p.1 < NUM_COLS {
                    self.jump_to(p, merge);
                }
            },
            None => {},
        }
        self.cancel_name_box_edit();
    }

    /// A character was typed in the name box.
    pub fn name_box_insert_char(&mut self, c: char)
        ensures
            name_typed(*old(self), *final(self), c),
    {
        if self.dialogs.name_box_editing {
            if self.dialogs.name_box_replace_next {
                self.dialogs.name_box_input = String::new();
                self.dialogs.name_box_replace_next = false;
            }
            self.dialogs.name_box_input.push(upper(c));
        }
    }

    /// The last character of the name box is taken back.
    pub fn name_box_backspace(&mut self)
        ensures
            if old(self).dialogs.name_box_editing {
                &&& *final(self) == (Spreadsheet {
                    dialogs: DialogState {
                        name_box_input: final(self).dialogs.name_box_input,
                        name_box_replace_next: false,
                        ..old(self).dialogs
                    },
                    ..*old(self)
                })
                &&& final(self).dialogs.name_box_input@ == text::shortened(
                    old(self).dialogs.name_box_input@,
                )
            } else {
                *final(self) == *old(self)
            },
    {
        if self.dialogs.name_box_editing {
            self.dialogs.name_box_replace_next = false;
            self.dialogs.name_box_input.pop();
        }
    }
}

/// The name box is left.
pub open spec fn name_box_left(old: DialogState, new: DialogState) -> bool {
    &&& new == (DialogState {
        name_box_input: new.name_box_input,
        name_box_editing: false,
        name_box_replace_next: false,
        ..old
    })
    &&& new.name_box_input@.len() == 0
}

// ---------------------------------------------------------------------------
// Preferences and themes
// ---------------------------------------------------------------------------

impl Spreadsheet {
    /// The theme that is shown: the one that is tried out, else `theme`.
    pub fn active_theme<'a>(&'a self, theme: &'a ThemeName) -> (r: &'a ThemeName)
        ensures
            *r == match self.dialogs.theme_preview {
                Some(p) => p,
                None => *theme,
            },
    {
        match &self.dialogs.theme_preview {
            Some(p) => p,
            None => theme,
        }
    }
}

/// The name of the theme has the query in it, whatever the case.
pub open spec fn theme_matches(t: ThemeName, query: Seq<char>) -> bool {
    query.len() == 0 || text::contains_text(text::lowercased(t.name@), text::lowercased(query))
}

/// The themes whose names have the query in them.
pub open spec fn themes_for(themes: Seq<ThemeName>, query: Seq<char>) -> Seq<ThemeName>
    decreases themes.len(),
{
    if themes.len() == 0 {
        Seq::empty()
    } else {
        let front = themes_for(themes.drop_last(), query);
        if theme_matches(themes.last(), query) {
            front.push(themes.last())
        } else {
            front
        }
    }
}

/// The preview shows the chosen theme, if there is one.
pub open spec fn preview_of(themes: Seq<ThemeName>, query: Seq<char>, selected: int) -> Option<ThemeName> {
    let found = themes_for(themes, query);
    if selected < found.len() {
        Some(found[selected])
    } else {
        None
    }
}

impl Spreadsheet {
    pub fn show_preferences(&mut self)
        ensures
            *final(self) == (Spreadsheet {
                mode: Mode::Preferences,
                lua_console_visible: false,
                ..*old(self)
            }),
    {
        self.lua_console_visible = false;
        self.mode = Mode::Preferences;
    }

    pub fn hide_preferences(&mut self)
        ensures
            *final(self) == (Spreadsheet { mode: Mode::Navigation, ..*old(self) }),
    {
        self.mode = Mode::Navigation;
    }

    /// The themes whose names have the query in them. `themes` are all of them.
    pub fn filter_themes(&self, themes: &Vec<ThemeName>) -> (r: Vec<ThemeName>)
        ensures
            r@ == themes_for(themes@, self.dialogs.theme_query@),
    {
        let query = self.dialogs.theme_query.as_str();
        proof {
            reveal_strlit("");
            if query@.len() == 0 {
                assert(query@ =~= ""@);
            }
        }
        let all = text::str_eq(query, "");
        let lower = text::to_lowercase(query);
        let mut r: Vec<ThemeName> = Vec::new();
        let mut i: usize = 0;
        assert(themes@.take(0) =~= Seq::empty());
        while i < themes.len()
            invariant
                i <= themes@.len(),
                all == (query@.len() == 0),
                lower@ == text::lowercased(query@),
                r@ == themes_for(themes@.take(i as int), query@),
            decreases themes@.len() - i,
        {
            assert(themes@.take(i + 1).drop_last() =~= themes@.take(i as int));
            assert(themes@.take(i + 1).last() == themes@[i as int]);
            let name = text::to_lowercase(themes[i].name.as_str());
            if all || text::contains(name.as_str(), lower.as_str()) {
                r.push(themes[i].clone());
            }
            i = i + 1;
        }
        assert(themes@.take(themes@.len() as int) =~= themes@);
        r
    }

    /// Show the chosen theme in the preview.
    fn update_theme_preview(&mut self, themes: &Vec<ThemeName>)
        ensures
            *final(self) == (Spreadsheet {
                dialogs: DialogState {
                    theme_preview: preview_of(
                        themes@,
                        old(self).dialogs.theme_query@,
                        old(self).dialogs.theme_selected as int,
                    ),
                    ..old(self).dialogs
                },
                ..*old(self)
            }),
    {
        let found = self.filter_themes(themes);
        if self.dialogs.theme_selected < found.len() {
            self.dialogs.theme_preview = Some(found[self.dialogs.theme_selected].clone());
        } else {
            self.dialogs.theme_preview = None;
        }
    }

    /// Choose the theme above.
    pub fn theme_picker_up(&mut self, themes: &Vec<ThemeName>)
        ensures
            theme_up(*old(self), *final(self), themes@),
    {
        if self.dialogs.theme_selected > 0 {
            self.dialogs.theme_selected = self.dialogs.theme_selected - 1;
            self.update_theme_preview(themes);
        }
    }

    /// Choose the theme below.
    pub fn theme_picker_down(&mut self, themes: &Vec<ThemeName>)
        ensures
            theme_down(*old(self), *final(self), themes@),
    {
        let found = self.filter_themes(themes);
        let n: usize = found.len();
        if n > 0 && self.dialogs.theme_selected < n - 1 {
            self.dialogs.theme_selected = self.dialogs.theme_selected + 1;
            self.update_theme_preview(themes);
        }
    }

    /// A character of the query was typed.
    pub fn theme_picker_insert_char(&mut self, c: char, themes: &Vec<ThemeName>)
        ensures
            *final(self) == (Spreadsheet {
                dialogs: DialogState {
                    theme_query: final(self).dialogs.theme_query,
                    theme_selected: 0,
                    theme_preview: preview_of(themes@, final(self).dialogs.theme_query@, 0),
                    ..old(self).dialogs
                },
                ..*old(self)
            }),
            final(self).dialogs.theme_query@ == old(self).dialogs.theme_query@.push(c),
    {
        self.dialogs.theme_query.push(c);
        self.dialogs.theme_selected = 0;
        self.update_theme_preview(themes);
    }

    /// The last character of the query is taken back.
    pub fn theme_picker_backspace(&mut self, themes: &Vec<ThemeName>)
        ensures
            *final(self) == (Spreadsheet {
                dialogs: DialogState {
                    theme_query: final(self).dialogs.theme_query,
                    theme_selected: 0,
                    theme_preview: preview_of(themes@, final(self).dialogs.theme_query@, 0),
                    ..old(self).dialogs
                },
                ..*old(self)
            }),
            final(self).dialogs.theme_query@ == text::shortened(old(self).dialogs.theme_query@),
    {
        self.dialogs.theme_query.pop();
        self.dialogs.theme_selected = 0;
        self.update_theme_preview(themes);
    }

    /// Take the chosen theme.
    pub fn theme_picker_execute(&mut self, themes: &Vec<ThemeName>, system_id: &str, resolved: &str) -> (r:
        Option<ThemeChoice>)
        ensures
            theme_applied(
                *old(self),
                *final(self),
                old(self).dialogs.theme_selected as int,
                themes@,
                system_id@,
                resolved@,
                r,
            ),
    {
        self.apply_theme_at_index(self.dialogs.theme_selected, themes, system_id, resolved)
    }

    /// Take the theme at a place in the list. `system_id` stands for the theme
    /// of the system, which at present is `resolved`; the choice that is kept is
    /// still that of the system.
    pub fn apply_theme_at_index(
        &mut self,
        index: usize,
        themes: &Vec<ThemeName>,
        system_id: &str,
        resolved: &str,
    ) -> (r: Option<ThemeChoice>)
        ensures
            theme_applied(
                *old(self),
                *final(self),
                index as int,
                themes@,
                system_id@,
                resolved@,
                r,
            ),
    {
        let found = self.filter_themes(themes);
        let r = if index < found.len() {
            let t = &found[index];
            self.say_with("Applied theme: ", t.name.as_str());
            let show = if text::str_eq(t.id.as_str(), system_id) {
                text::lit(resolved)
            } else {
                t.id.clone()
            };
            Some(ThemeChoice { show, keep: t.id.clone() })
        } else {
            None
        };
        self.dialogs.theme_preview = None;
        self.mode = Mode::Navigation;
        self.dialogs.theme_query = String::new();
        self.dialogs.theme_selected = 0;
        r
    }
}

/// A theme was taken, if there is one at the place, and the list is closed.
pub open spec fn theme_applied(
    old: Spreadsheet,
    new: Spreadsheet,
    index: int,
    themes: Seq<ThemeName>,
    system_id: Seq<char>,
    resolved: Seq<char>,
    r: Option<ThemeChoice>,
) -> bool {
    let found = themes_for(themes, old.dialogs.theme_query@);
    &&& new == (Spreadsheet {
        mode: Mode::Navigation,
        status_message: new.status_message,
        dialogs: DialogState {
            theme_query: new.dialogs.theme_query,
            theme_selected: 0,
            theme_preview: None,
            ..old.dialogs
        },
        ..old
    })
    &&& new.dialogs.theme_query@.len() == 0
    &&& if index < found.len() {
        let t = found[index];
        &&& text::opt_text(new.status_message) == Some("Applied theme: "@ + t.name@)
        &&& r matches Some(c) && c.keep@ == t.id@ && c.show@ == if t.id@ == system_id {
            resolved
        } else {
            t.id@
        }
    } else {
        r is None && new.status_message == old.status_message
    }
}

// ---------------------------------------------------------------------------
// About and paste special
// ---------------------------------------------------------------------------

/// The kinds of pasting, in the order of the dialog.
pub open spec fn paste_place(t: PasteType) -> int {
    match t {
        PasteType::All => 0,
        PasteType::Values => 1,
        PasteType::Formulas => 2,
        PasteType::Formats => 3,
    }
}

impl Spreadsheet {
    pub fn show_about(&mut self)
        ensures
            *final(self) == modal(*old(self), Mode::About),
    {
        self.close_validation_dropdown(DropdownCloseReason::ModalOpened);
        self.lua_console_visible = false;
        self.mode = Mode::About;
    }

    pub fn hide_about(&mut self)
        ensures
            *final(self) == (Spreadsheet { mode: Mode::Navigation, ..*old(self) }),
    {
        self.mode = Mode::Navigation;
    }

    /// Open the dialog on what to paste, at what was pasted last.
    pub fn show_paste_special(&mut self)
        ensures
            *final(self) == paste_special_shown(*old(self)),
    {
        self.close_validation_dropdown(DropdownCloseReason::ModalOpened);
        self.lua_console_visible = false;
        self.dialogs.paste_selected = self.dialogs.last_paste;
        self.mode = Mode::PasteSpecial;
    }

    pub fn hide_paste_special(&mut self)
        ensures
            *final(self) == (Spreadsheet { mode: Mode::Navigation, ..*old(self) }),
    {
        self.mode = Mode::Navigation;
    }

    /// Choose the kind of pasting above.
    pub fn paste_special_up(&mut self)
        ensures
            paste_up(*old(self), *final(self)),
    {
        self.dialogs.paste_selected = match self.dialogs.paste_selected {
            PasteType::All => PasteType::All,
            PasteType::Values => PasteType::All,
            PasteType::Formulas => PasteType::Values,
            PasteType::Formats => PasteType::Formulas,
        };
    }

    /// Choose the kind of pasting below.
    pub fn paste_special_down(&mut self)
        ensures
            paste_down(*old(self), *final(self)),
    {
        self.dialogs.paste_selected = match self.dialogs.paste_selected {
            PasteType::All => PasteType::Values,
            PasteType::Values => PasteType::Formulas,
            PasteType::Formulas => PasteType::Formats,
            PasteType::Formats => PasteType::Formats,
        };
    }

    /// Close the dialog: the result is what to paste, which is remembered.
    pub fn apply_paste_special(&mut self) -> (t: PasteType)
        ensures
            paste_chosen(*old(self), *final(self), t),
    {
        self.dialogs.last_paste = self.dialogs.paste_selected;
        self.mode = Mode::Navigation;
        self.dialogs.paste_selected
    }
}

// ---------------------------------------------------------------------------
// The license
// ---------------------------------------------------------------------------

/// The fields of the license are empty.
pub open spec fn license_cleared(old: DialogState, new: DialogState) -> bool {
    &&& new == (DialogState { license_input: new.license_input, license_error: None, ..old })
    &&& new.license_input@.len() == 0
}

impl Spreadsheet {
    pub fn show_license(&mut self)
        ensures
            *final(self) == (Spreadsheet {
                mode: Mode::License,
                lua_console_visible: false,
                dialogs: final(self).dialogs,
                ..*old(self)
            }),
            license_cleared(old(self).dialogs, final(self).dialogs),
    {
        self.lua_console_visible = false;
        self.dialogs.license_input = String::new();
        self.dialogs.license_error = None;
        self.mode = Mode::License;
    }

    pub fn hide_license(&mut self)
        ensures
            *final(self) == (Spreadsheet {
                mode: Mode::Navigation,
                dialogs: final(self).dialogs,
                ..*old(self)
            }),
            license_cleared(old(self).dialogs, final(self).dialogs),
    {
        self.mode = Mode::Navigation;
        self.dialogs.license_input = String::new();
        self.dialogs.license_error = None;
    }

    /// A trial was started, with the days that it lasts, or could not be.
    pub fn start_pro_trial(&mut self, started: Result<u64, String>)
        ensures
            *final(self) == (Spreadsheet {
                status_message: final(self).status_message,
                dialogs: DialogState { trial_confirm_visible: false, ..old(self).dialogs },
                ..*old(self)
            }),
            text::opt_text(final(self).status_message) == Some(
                match started {
                    Ok(days) => "Pro trial started — "@ + text::dec(days as nat)
                        + " days remaining"@,
                    Err(m) => m@,
                },
            ),
    {
        match started {
            Ok(days) => {
                let n = text::decimal(days);
                let m = text::cat3("Pro trial started — ", n.as_str(), " days remaining");
                self.say(m.as_str());
            },
            Err(m) => self.say(m.as_str()),
        }
        self.dialogs.trial_confirm_visible = false;
    }

    /// A character of the license was typed.
    pub fn license_insert_char(&mut self, c: char)
        ensures
            *final(self) == (Spreadsheet {
                dialogs: DialogState {
                    license_input: final(self).dialogs.license_input,
                    license_error: None,
                    ..old(self).dialogs
                },
                ..*old(self)
            }),
            final(self).dialogs.license_input@ == old(self).dialogs.license_input@.push(c),
    {
        self.dialogs.license_input.push(c);
        self.dialogs.license_error = None;
    }

    /// The last character of the license is taken back.
    pub fn license_backspace(&mut self)
        ensures
            *final(self) == (Spreadsheet {
                dialogs: DialogState {
                    license_input: final(self).dialogs.license_input,
                    license_error: None,
                    ..old(self).dialogs
                },
                ..*old(self)
            }),
            final(self).dialogs.license_input@ == text::shortened(
                old(self).dialogs.license_input@,
            ),
    {
        self.dialogs.license_input.pop();
        self.dialogs.license_error = None;
    }

    /// The license was read: a valid one closes the dialog.
    pub fn apply_license(&mut self, verdict: LicenseVerdict)
        ensures
            license_judged(*old(self), *final(self), verdict),
    {
        match verdict {
            LicenseVerdict::Valid(summary) => {
                self.say_with("License activated: ", summary.as_str());
                self.hide_license();
            },
            LicenseVerdict::Refused(why) => {
                self.dialogs.license_error = Some(why);
            },
        }
    }

    /// The license was removed.
    pub fn clear_license(&mut self)
        ensures
            *final(self) == (Spreadsheet {
                mode: Mode::Navigation,
                status_message: final(self).status_message,
                dialogs: final(self).dialogs,
                ..*old(self)
            }),
            license_cleared(old(self).dialogs, final(self).dialogs),
            text::opt_text(final(self).status_message) == Some("License removed"@),
    {
        self.say("License removed");
        self.hide_license();
    }

    // -----------------------------------------------------------------------
    // The inspector
    // -----------------------------------------------------------------------

    /// Keep the inspector at the selected cell, or let it follow the selection
    /// again.
    pub fn toggle_inspector_pin(&mut self)
        ensures
            *final(self) == (Spreadsheet {
                dialogs: DialogState {
                    inspector_pinned: if old(self).dialogs.inspector_pinned is Some {
                        None
                    } else {
                        Some(old(self).view.selected)
                    },
                    ..old(self).dialogs
                },
                ..*old(self)
            }),
    {
        self.dialogs.inspector_pinned = if self.dialogs.inspector_pinned.is_some() {
            None
        } else {
            Some(self.view.selected)
        };
    }

    /// Show a way from one cell to another, which was looked for.
    pub fn set_trace_path(&mut self, found: TracePath)
        ensures
            trace_shown(*old(self), *final(self), found),
    {
        if found.path.len() == 0 {
            self.dialogs.trace_path = None;
            self.dialogs.trace_incomplete = found.truncated;
            if found.truncated {
                self.say("Trace too large — refine by starting closer");
            }
        } else {
            self.dialogs.trace_incomplete = found.has_dynamic_refs || found.truncated;
            self.dialogs.trace_path = Some(found.path);
        }
    }

    /// Show no way any more.
    pub fn clear_trace_path(&mut self)
        ensures
            *final(self) == if old(self).dialogs.trace_path is Some {
                Spreadsheet {
                    dialogs: DialogState {
                        trace_path: None,
                        trace_incomplete: false,
                        ..old(self).dialogs
                    },
                    ..*old(self)
                }
            } else {
                *old(self)
            },
    {
        if self.dialogs.trace_path.is_some() {
            self.dialogs.trace_path = None;
            self.dialogs.trace_incomplete = false;
        }
    }
}

/// A cell that was entered was gone to.
pub open spec fn went_to(
    old: Spreadsheet,
    new: Spreadsheet,
    cell: Option<(usize, usize)>,
    merge: Option<CellSpan>,
) -> bool {
    &&& ({
        let closed = Spreadsheet {
            mode: Mode::Navigation,
            dropdown: None,
            status_message: new.status_message,
            dialogs: DialogState {
                goto_input: new.dialogs.goto_input,
                ..old.dialogs
            },
            ..old
        };
        &&& new.dialogs.goto_input@.len() == 0
        &&& if cell matches Some(p) && in_grid(p) {
            let view = view_at(old.view, cell->0, merge);
            &&& new == (Spreadsheet {
                view,
                extra_selections: new.extra_selections,
                ..closed
            })
            &&& new.extra_selections@.len() == 0
            &&& text::opt_text(new.status_message) == Some(
                "Jumped to "@ + naming::cell_text(view.selected.0, view.selected.1),
            )
        } else {
            &&& new == closed
            &&& text::opt_text(new.status_message) == Some(
                if cell is Some {
                    "Cell reference out of range"@
                } else {
                    "Invalid cell reference"@
                },
            )
        }
    })
}

/// What was entered in the name box was taken.
pub open spec fn name_box_confirmed(
    old: Spreadsheet,
    new: Spreadsheet,
    cell: Option<(usize, usize)>,
    merge: Option<CellSpan>,
) -> bool {
    &&& name_box_left(old.dialogs, new.dialogs)
    &&& if cell matches Some(p) && in_grid(p) {
        &&& new == (Spreadsheet {
            dialogs: new.dialogs,
            view: view_at(old.view, cell->0, merge),
            extra_selections: new.extra_selections,
            ..old
        })
        &&& new.extra_selections@.len() == 0
    } else {
        new == (Spreadsheet { dialogs: new.dialogs, ..old })
    }
}

/// A character was typed into the go-to dialog.
pub open spec fn goto_typed(
    old: Spreadsheet,
    new: Spreadsheet,
    c: char,
) -> bool {
    &&& new == (Spreadsheet {
        dialogs: DialogState {
            goto_input: new.dialogs.goto_input,
            ..old.dialogs
        },
        ..old
    })
    &&& if old.mode == Mode::GoTo {
        new.dialogs.goto_input@ == old.dialogs.goto_input@.push(
            ascii_upper(c),
        )
    } else {
        new.dialogs.goto_input == old.dialogs.goto_input
    }
}

/// A character was taken back in the go-to dialog.
pub open spec fn goto_taken_back(
    old: Spreadsheet,
    new: Spreadsheet,
) -> bool {
    &&& new == (Spreadsheet {
        dialogs: DialogState {
            goto_input: new.dialogs.goto_input,
            ..old.dialogs
        },
        ..old
    })
    &&& if old.mode == Mode::GoTo {
        new.dialogs.goto_input@ == text::shortened(old.dialogs.goto_input@)
    } else {
        new.dialogs.goto_input == old.dialogs.goto_input
    }
}

/// The name box was entered.
pub open spec fn name_box_entered(
    old: Spreadsheet,
    new: Spreadsheet,
) -> bool {
    &&& new == (Spreadsheet {
        dialogs: DialogState {
            name_box_input: new.dialogs.name_box_input,
            name_box_editing: true,
            name_box_replace_next: true,
            ..old.dialogs
        },
        ..old
    })
    &&& new.dialogs.name_box_input@ == naming::cell_text(
        old.view.selected.0,
        old.view.selected.1,
    )
}

/// A character was typed into the name box.
pub open spec fn name_typed(
    old: Spreadsheet,
    new: Spreadsheet,
    c: char,
) -> bool {
    &&& if old.dialogs.name_box_editing {
        &&& new == (Spreadsheet {
            dialogs: DialogState {
                name_box_input: new.dialogs.name_box_input,
                name_box_replace_next: false,
                ..old.dialogs
            },
            ..old
        })
        &&& new.dialogs.name_box_input@ == (if old.dialogs.name_box_replace_next {
            Seq::empty()
        } else {
            old.dialogs.name_box_input@
        }).push(ascii_upper(c))
    } else {
        new == old
    }
}

/// The theme above was selected.
pub open spec fn theme_up(
    old: Spreadsheet,
    new: Spreadsheet,
    themes: Seq<ThemeName>,
) -> bool {
    &&& new == if old.dialogs.theme_selected > 0 {
        let selected = (old.dialogs.theme_selected - 1) as usize;
        Spreadsheet {
            dialogs: DialogState {
                theme_selected: selected,
                theme_preview: preview_of(
                    themes,
                    old.dialogs.theme_query@,
                    selected as int,
                ),
                ..old.dialogs
            },
            ..old
        }
    } else {
        old
    }
}

/// The theme below was selected.
pub open spec fn theme_down(
    old: Spreadsheet,
    new: Spreadsheet,
    themes: Seq<ThemeName>,
) -> bool {
    &&& new == if old.dialogs.theme_selected + 1 < themes_for(
        themes,
        old.dialogs.theme_query@,
    ).len() {
        let selected = (old.dialogs.theme_selected + 1) as usize;
        Spreadsheet {
            dialogs: DialogState {
                theme_selected: selected,
                theme_preview: preview_of(
                    themes,
                    old.dialogs.theme_query@,
                    selected as int,
                ),
                ..old.dialogs
            },
            ..old
        }
    } else {
        old
    }
}

/// The way of pasting above was selected.
pub open spec fn paste_up(
    old: Spreadsheet,
    new: Spreadsheet,
) -> bool {
    &&& new == (Spreadsheet {
        dialogs: DialogState {
            paste_selected: new.dialogs.paste_selected,
            ..old.dialogs
        },
        ..old
    })
    &&& ({
        let at = paste_place(old.dialogs.paste_selected);
        paste_place(new.dialogs.paste_selected) == if at > 0 {
            at - 1
        } else {
            at
        }
    })
}

/// The way of pasting below was selected.
pub open spec fn paste_down(
    old: Spreadsheet,
    new: Spreadsheet,
) -> bool {
    &&& new == (Spreadsheet {
        dialogs: DialogState {
            paste_selected: new.dialogs.paste_selected,
            ..old.dialogs
        },
        ..old
    })
    &&& ({
        let at = paste_place(old.dialogs.paste_selected);
        paste_place(new.dialogs.paste_selected) == if at < 3 {
            at + 1
        } else {
            at
        }
    })
}

/// A way of pasting was chosen.
pub open spec fn paste_chosen(
    old: Spreadsheet,
    new: Spreadsheet,
    t: PasteType,
) -> bool {
    &&& t == old.dialogs.paste_selected
    &&& new == (Spreadsheet {
        mode: Mode::Navigation,
        dialogs: DialogState { last_paste: t, ..old.dialogs },
        ..old
    })
}

/// A trace was found.
pub open spec fn trace_shown(
    old: Spreadsheet,
    new: Spreadsheet,
    found: TracePath,
) -> bool {
    &&& new == (Spreadsheet {
        status_message: new.status_message,
        dialogs: DialogState {
            trace_path: if found.path@.len() == 0 {
                None
            } else {
                Some(found.path)
            },
            trace_incomplete: found.truncated || (found.path@.len() > 0
                && found.has_dynamic_refs),
            ..old.dialogs
        },
        ..old
    })
    &&& if found.path@.len() == 0 && found.truncated {
        text::opt_text(new.status_message) == Some(
            "Trace too large — refine by starting closer"@,
        )
    } else {
        new.status_message == old.status_message
    }
}

/// A license was judged.
pub open spec fn license_judged(
    old: Spreadsheet,
    new: Spreadsheet,
    verdict: LicenseVerdict,
) -> bool {
    &&& match verdict {
        LicenseVerdict::Valid(summary) => {
            &&& new == (Spreadsheet {
                mode: Mode::Navigation,
                status_message: new.status_message,
                dialogs: new.dialogs,
                ..old
            })
            &&& license_cleared(old.dialogs, new.dialogs)
            &&& text::opt_text(new.status_message) == Some(
                "License activated: "@ + summary@,
            )
        },
        LicenseVerdict::Refused(why) => new == (Spreadsheet {
            dialogs: DialogState { license_error: Some(why), ..old.dialogs },
            ..old
        }),
    }
}

// ---------------------------------------------------------------------------
// Laws
// ---------------------------------------------------------------------------

/// Going to a cell makes it the active cell and the only one selected; a merged cell is selected whole. What
/// names no cell of the grid leaves the selection as it is. The dialog is closed either way.
pub proof fn a_cell_that_is_entered_is_gone_to(
    old: Spreadsheet,
    new: Spreadsheet,
    cell: Option<(usize, usize)>,
    merge: Option<CellSpan>,
)
    requires
        went_to(old, new, cell, merge),
    ensures
        new.mode == Mode::Navigation && new.dialogs.goto_input@.len() == 0 && new.dropdown is None,
        cell matches Some(p) ==> (p.0 < 1_000_000 && p.1 < 16_384 ==> {
            &&& merge is None ==> new.view.selected == p && new.view.selection_end is None
            &&& merge matches Some(m) ==> {
                &&& new.view.selected == (m.min_row, m.min_col)
                &&& new.view.selection_end is None <==> m.max_row == m.min_row && m.max_col
                    == m.min_col
                &&& new.view.selection_end matches Some(e) ==> e == (m.max_row, m.max_col)
            }
            &&& new.extra_selections@.len() == 0
        }),
        !(cell matches Some(p) && p.0 < 1_000_000 && p.1 < 16_384) ==> new.view == old.view
            && new.extra_selections == old.extra_selections,
        new.file == old.file,
{
}

/// The name box goes to a cell as the dialog does, and is left either way.
pub proof fn the_name_box_goes_to_a_cell(
    old: Spreadsheet,
    new: Spreadsheet,
    cell: Option<(usize, usize)>,
)
    requires
        name_box_confirmed(old, new, cell, None),
    ensures
        !new.dialogs.name_box_editing && new.dialogs.name_box_input@.len() == 0,
        cell matches Some(p) ==> (p.0 < 1_000_000 && p.1 < 16_384 ==> new.view.selected == p
            && new.view.selection_end is None && new.extra_selections@.len() == 0),
        !(cell matches Some(p) && p.0 < 1_000_000 && p.1 < 16_384) ==> new.view == old.view,
        new.mode == old.mode && new.file == old.file,
{
}

/// The name box shows the name of the active cell. What is typed first replaces it, in upper case, and what
/// follows goes behind it.
pub proof fn typing_replaces_the_name(
    a: Spreadsheet,
    b: Spreadsheet,
    c: Spreadsheet,
    d: Spreadsheet,
    x: char,
    y: char,
)
    requires
        name_box_entered(a, b),
        name_typed(b, c, x),
        name_typed(c, d, y),
    ensures
        b.dialogs.name_box_input@ == naming::cell_text(a.view.selected.0, a.view.selected.1),
        c.dialogs.name_box_input@ == seq![ascii_upper(x)],
        d.dialogs.name_box_input@ == seq![ascii_upper(x), ascii_upper(y)],
        'a' <= x <= 'z' ==> ascii_upper(x) as u32 + 32 == x as u32,
        !('a' <= x <= 'z') ==> ascii_upper(x) == x,
        d.view == a.view && d.mode == a.mode,
{
    assert(d.dialogs.name_box_input@ =~= seq![ascii_upper(x), ascii_upper(y)]);
}

/// What is typed into the go-to dialog is kept in upper case, and taken back it is gone; elsewhere typing does
/// nothing to it.
pub proof fn typing_goes_into_the_open_dialog(a: Spreadsheet, b: Spreadsheet, c: Spreadsheet, x: char)
    requires
        goto_typed(a, b, x),
        goto_taken_back(b, c),
    ensures
        a.mode == Mode::GoTo ==> b.dialogs.goto_input@ == a.dialogs.goto_input@.push(
            ascii_upper(x),
        ) && c.dialogs.goto_input@ == a.dialogs.goto_input@,
        a.mode != Mode::GoTo ==> b == a && c == a,
        b.view == a.view && b.mode == a.mode,
{
    text::a_typed_character_can_be_taken_back(a.dialogs.goto_input@, ascii_upper(x));
}

/// The themes that are shown are just those whose name holds what was typed, in their order, and all of them
/// where nothing was typed.
pub proof fn themes_are_found_by_name(themes: Seq<ThemeName>, query: Seq<char>, t: ThemeName)
    ensures
        themes_for(themes, query).contains(t) <==> themes.contains(t) && (query.len() == 0
            || text::contains_text(text::lowercased(t.name@), text::lowercased(query))),
        query.len() == 0 ==> themes_for(themes, query) == themes,
        themes_for(themes, query).len() <= themes.len(),
    decreases themes.len(),
{
    let all = themes_for(themes, query);
    if themes.len() > 0 {
        let front = themes.drop_last();
        let rest = themes_for(front, query);
        themes_are_found_by_name(front, query, t);
        assert(themes[themes.len() - 1] == themes.last());
        if front.contains(t) {
            let k = choose|k: int| 0 <= k < front.len() && front[k] == t;
            assert(themes[k] == t);
        }
        if themes.contains(t) {
            let k = choose|k: int| 0 <= k < themes.len() && themes[k] == t;
            if k < front.len() {
                assert(front[k] == t);
            }
        }
        if rest.contains(t) {
            let k = choose|k: int| 0 <= k < rest.len() && rest[k] == t;
            assert(all[k] == t);
        }
        if theme_matches(themes.last(), query) {
            assert(all[rest.len() as int] == themes.last());
        }
        if all.contains(t) {
            let k = choose|k: int| 0 <= k < all.len() && all[k] == t;
            if k < rest.len() {
                assert(rest[k] == t);
            }
        }
        if query.len() == 0 {
            assert(front.push(themes.last()) =~= themes);
        }
    } else {
        assert(all =~= themes);
    }
}

/// Going down and up again in the list of themes comes back to the same theme, which is the one that is shown.
pub proof fn down_and_up_the_themes(
    a: Spreadsheet,
    b: Spreadsheet,
    c: Spreadsheet,
    themes: Seq<ThemeName>,
)
    requires
        theme_down(a, b, themes),
        theme_up(b, c, themes),
        a.dialogs.theme_selected + 1 < themes_for(themes, a.dialogs.theme_query@).len(),
        themes.len() <= usize::MAX,
    ensures
        b.dialogs.theme_selected == a.dialogs.theme_selected + 1,
        c.dialogs.theme_selected == a.dialogs.theme_selected,
        b.dialogs.theme_preview == Some(
            themes_for(themes, a.dialogs.theme_query@)[a.dialogs.theme_selected + 1],
        ),
        c.dialogs.theme_preview == Some(
            themes_for(themes, a.dialogs.theme_query@)[a.dialogs.theme_selected as int],
        ),
        c.dialogs.theme_query == a.dialogs.theme_query && c.mode == a.mode,
{
    themes_are_found_by_name(themes, a.dialogs.theme_query@, arbitrary());
}

/// The theme that is applied is the one that was chosen. It is kept under its own name, and shown as it is, but for
/// that of the system, which is shown as what it stands for.
pub proof fn the_chosen_theme_is_applied(
    old: Spreadsheet,
    new: Spreadsheet,
    index: int,
    themes: Seq<ThemeName>,
    system_id: Seq<char>,
    resolved: Seq<char>,
    r: Option<ThemeChoice>,
)
    requires
        0 <= index,
        theme_applied(old, new, index, themes, system_id, resolved, r),
    ensures
        r is Some <==> index < themes_for(themes, old.dialogs.theme_query@).len(),
        r matches Some(c) ==> c.keep@ == themes_for(themes, old.dialogs.theme_query@)[index].id@ && (
        c.keep@ != system_id ==> c.show@ == c.keep@) && (c.keep@ == system_id ==> c.show@
            == resolved),
        new.mode == Mode::Navigation && new.dialogs.theme_preview is None
            && new.dialogs.theme_query@.len() == 0,
        new.file == old.file && new.view == old.view,
{
}

/// Going down and up again among the ways of pasting comes back to the same one. The one that is chosen is the one
/// that the dialog opens with next time.
pub proof fn the_last_way_of_pasting_comes_first(
    a: Spreadsheet,
    b: Spreadsheet,
    c: Spreadsheet,
    d: Spreadsheet,
    t: PasteType,
)
    requires
        paste_down(a, b),
        paste_up(b, c),
        paste_chosen(b, d, t),
    ensures
        a.dialogs.paste_selected != PasteType::Formats ==> c.dialogs.paste_selected
            == a.dialogs.paste_selected && b.dialogs.paste_selected != a.dialogs.paste_selected,
        a.dialogs.paste_selected == PasteType::Formats ==> b.dialogs.paste_selected
            == PasteType::Formats,
        a.dialogs.paste_selected == PasteType::All ==> b.dialogs.paste_selected
            == PasteType::Values,
        a.dialogs.paste_selected == PasteType::Values ==> b.dialogs.paste_selected
            == PasteType::Formulas,
        t == b.dialogs.paste_selected && d.mode == Mode::Navigation,
        paste_special_shown(d).dialogs.paste_selected == t,
        paste_special_shown(d).mode == Mode::PasteSpecial && paste_special_shown(d).dropdown is None,
{
}

/// A trace is shown where there is one, and it is marked where it is not the whole; where there is none because it is
/// too large, that is said.
pub proof fn a_trace_is_shown(old: Spreadsheet, new: Spreadsheet, found: TracePath)
    requires
        trace_shown(old, new, found),
    ensures
        new.dialogs.trace_path is Some <==> found.path@.len() > 0,
        new.dialogs.trace_path matches Some(p) ==> p == found.path,
        found.truncated ==> new.dialogs.trace_incomplete,
        found.has_dynamic_refs && found.path@.len() > 0 ==> new.dialogs.trace_incomplete,
        !found.truncated && !found.has_dynamic_refs ==> !new.dialogs.trace_incomplete,
        found.path@.len() > 0 || !found.truncated ==> new.status_message == old.status_message,
        new.view == old.view,
{
}

/// A license that is refused says why and stays entered; one that is valid closes the dialog.
pub proof fn a_license_is_judged(old: Spreadsheet, new: Spreadsheet, verdict: LicenseVerdict)
    requires
        license_judged(old, new, verdict),
    ensures
        verdict matches LicenseVerdict::Refused(w) ==> new.dialogs.license_error == Some(w)
            && new.mode == old.mode && new.dialogs.license_input == old.dialogs.license_input,
        verdict is Valid ==> new.mode == Mode::Navigation && new.dialogs.license_error is None
            && new.dialogs.license_input@.len() == 0,
{
}

} // verus!
