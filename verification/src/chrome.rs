//! Menus, accelerators, panels and tips around the grid.

use vstd::prelude::*;

use crate::state::{Mode, Setting, Spreadsheet};
use crate::text;

verus! {

#[derive(Debug, Clone, Copy, PartialEq, Eq, Structural)]
pub enum MenuCategory {
    File,
    Edit,
    View,
    Format,
    Data,
    Tools,
    Help,
}

/// What the list of commands is narrowed to.
#[derive(Debug, Clone, Copy, PartialEq, Eq, Structural)]
pub enum PaletteScope {
    /// The commands of one menu.
    Menu(MenuCategory),
    /// The files that were open not long ago.
    QuickOpen,
}

/// What is shown of the history.
#[derive(Debug, Clone, Copy, PartialEq, Eq, Structural)]
pub enum HistoryFilterMode {
    All,
    CurrentSheet,
    ValidationOnly,
    DataEditsOnly,
    TransformsOnly,
}

/// The bar for fonts and formats.
#[derive(Debug, Clone, Copy, PartialEq, Eq, Structural)]
pub struct FormatBarState {
    pub size_editing: bool,
    pub size_dropdown: bool,
    pub number_format_menu_open: bool,
    pub cell_style_menu_open: bool,
}

impl FormatBarState {
    /// The bar takes the keys and clicks. `size_focused` is whether the field
    /// for the size has the focus of the window.
    pub fn is_active(&self, size_focused: bool) -> (r: bool)
        ensures
            r == (self.size_editing || self.size_dropdown || self.number_format_menu_open
                || self.cell_style_menu_open || size_focused),
    {
        self.size_editing || self.size_dropdown || self.number_format_menu_open
            || self.cell_style_menu_open || size_focused
    }
}

/// An entry of a menu: one that can be chosen by its letter, or not.
#[derive(Debug, Clone, Copy, PartialEq, Eq)]
pub enum MenuEntry {
    Item(char),
    Separator,
}

/// What surrounds the grid. A menu is given by its place in the bar, and times
/// are in milliseconds.
#[derive(Debug, Clone, Copy, PartialEq, Eq)]
pub struct UiState {
    pub open_menu: Option<usize>,
    pub menu_highlight: Option<usize>,
    pub format_menu_open: bool,
    pub format_bar: FormatBarState,
    pub keytips_active: bool,
    pub keytips_deadline: Option<u64>,
    pub last_keytips_scope: Option<MenuCategory>,
    pub inspector_visible: bool,
    pub inspector_on_format: bool,
    pub profiler_visible: bool,
    pub minimap_visible: bool,
    pub zen_mode: bool,
    pub convert_selected: usize,
    pub show_f2_tip: bool,
}

/// What surrounds the grid of a new window.
pub open spec fn no_chrome(u: UiState) -> bool {
    &&& u.open_menu is None && u.menu_highlight is None && !u.format_menu_open
    &&& !u.format_bar.size_editing && !u.format_bar.size_dropdown
    &&& !u.format_bar.number_format_menu_open && !u.format_bar.cell_style_menu_open
    &&& !u.keytips_active && u.keytips_deadline is None && u.last_keytips_scope is None
    &&& !u.inspector_visible && !u.inspector_on_format && !u.profiler_visible
    &&& !u.minimap_visible && !u.zen_mode && u.convert_selected == 0 && !u.show_f2_tip
}

impl UiState {
    pub fn new() -> (u: UiState)
        ensures
            no_chrome(u),
    {
        UiState {
            open_menu: None,
            menu_highlight: None,
            format_menu_open: false,
            format_bar: FormatBarState {
                size_editing: false,
                size_dropdown: false,
                number_format_menu_open: false,
                cell_style_menu_open: false,
            },
            keytips_active: false,
            keytips_deadline: None,
            last_keytips_scope: None,
            inspector_visible: false,
            inspector_on_format: false,
            profiler_visible: false,
            minimap_visible: false,
            zen_mode: false,
            convert_selected: 0,
            show_f2_tip: false,
        }
    }
}

// ---------------------------------------------------------------------------
// Heights
// ---------------------------------------------------------------------------

/// Heights and widths that do not go by the zoom, in pixels.
pub const MENU_BAR_HEIGHT: u32 = 28;

pub const FORMULA_BAR_HEIGHT: u32 = 28;

pub const FORMAT_BAR_HEIGHT: u32 = 28;

pub const STATUS_BAR_HEIGHT: u32 = 24;

pub const MACOS_TITLEBAR_HEIGHT: u32 = 34;

/// The column headers at the usual zoom.
pub const COLUMN_HEADER_HEIGHT: u32 = 24;

/// How close to the edge of a header a size is grabbed.
pub const ROW_RESIZE_GRAB_PX: u32 = 4;

pub const COL_RESIZE_GRAB_PX: u32 = 6;

/// How much stands above the column headers: the title bar or the menu bar, the
/// formula bar and the format bar. Zen mode hides them all.
pub open spec fn above_headers(zen: bool, macos: bool, format_bar: bool) -> int {
    if zen {
        0
    } else {
        (if macos {
            MACOS_TITLEBAR_HEIGHT
        } else {
            MENU_BAR_HEIGHT
        }) + FORMULA_BAR_HEIGHT + (if format_bar {
            FORMAT_BAR_HEIGHT as int
        } else {
            0
        })
    }
}

impl Spreadsheet {
    /// The height of what stands above the grid: the bars and the column
    /// headers, of which only the headers stay in zen mode. `header_h` is the
    /// height of the headers, which goes by the zoom.
    pub fn top_chrome_height(&self, macos: bool, format_bar: &Setting<bool>, header_h: u32) -> (r:
        u32)
        requires
            header_h <= u32::MAX - MACOS_TITLEBAR_HEIGHT - FORMULA_BAR_HEIGHT - FORMAT_BAR_HEIGHT,
        ensures
            r == header_h + above_headers(
                self.ui.zen_mode,
                macos,
                crate::files::resolved(*format_bar, true),
            ),
    {
        self.height_above_headers(macos, format_bar) + header_h
    }

    /// The height of what stands above the column headers. Without a choice the
    /// format bar is shown.
    pub fn height_above_headers(&self, macos: bool, format_bar: &Setting<bool>) -> (r: u32)
        ensures
            r == above_headers(
                self.ui.zen_mode,
                macos,
                crate::files::resolved(*format_bar, true),
            ),
    {
        if self.ui.zen_mode {
            return 0;
        }
        let bar: u32 = if macos {
            MACOS_TITLEBAR_HEIGHT
        } else {
            MENU_BAR_HEIGHT
        };
        let shown = match format_bar {
            Setting::Value(v) => *v,
            Setting::Inherit => true,
        };
        let format: u32 = if shown {
            FORMAT_BAR_HEIGHT
        } else {
            0
        };
        bar + FORMULA_BAR_HEIGHT + format
    }

    /// Where the formula bar begins: below the title bar or the menu bar, of
    /// which zen mode hides only the menu bar.
    pub fn formula_bar_top(&self, macos: bool) -> (r: u32)
        ensures
            r == if macos {
                MACOS_TITLEBAR_HEIGHT
            } else if self.ui.zen_mode {
                0
            } else {
                MENU_BAR_HEIGHT
            },
    {
        if macos {
            MACOS_TITLEBAR_HEIGHT
        } else if self.ui.zen_mode {
            0
        } else {
            MENU_BAR_HEIGHT
        }
    }

    /// The height of what stands below the grid: the status bar, which zen mode
    /// hides.
    pub fn bottom_chrome_height(&self) -> (r: u32)
        ensures
            r == if self.ui.zen_mode {
                0
            } else {
                STATUS_BAR_HEIGHT
            },
    {
        if self.ui.zen_mode {
            0
        } else {
            STATUS_BAR_HEIGHT
        }
    }
}

// ---------------------------------------------------------------------------
// Menus
// ---------------------------------------------------------------------------

/// How many menus are tried in the search for one with entries.
pub const MENU_TRIES: u32 = 7;

/// The menu behind another one, or before it, all around the bar.
pub open spec fn neighbour(n: int, m: int, back: bool) -> int {
    crate::focus::place_after(n, m, back)
}

/// The first menu from `m` on, in one direction, that has entries; `start`
/// where none of the next `tries` has.
pub open spec fn active_from(counts: Seq<usize>, m: int, start: int, back: bool, tries: nat) -> int
    decreases tries,
{
    if tries == 0 {
        start
    } else if counts[m] > 0 {
        m
    } else {
        active_from(counts, neighbour(counts.len() as int, m, back), start, back, (tries - 1) as nat)
    }
}

/// The next menu with entries, or the previous one.
pub open spec fn active_menu(counts: Seq<usize>, start: int, back: bool) -> int {
    active_from(
        counts,
        neighbour(counts.len() as int, start, back),
        start,
        back,
        MENU_TRIES as nat,
    )
}

fn find_active_menu(counts: &Vec<usize>, start: usize, back: bool) -> (m: usize)
    requires
        start < counts@.len(),
    ensures
        m == active_menu(counts@, start as int, back),
        m < counts@.len(),
{
    let n: usize = counts.len();
    let mut m: usize = crate::focus::step(n, start, back);
    let mut tries: u32 = MENU_TRIES;
    while tries > 0
        invariant
            n == counts@.len(),
            m < n,
            start < n,
            tries <= MENU_TRIES,
            active_from(counts@, m as int, start as int, back, tries as nat) == active_menu(
                counts@,
                start as int,
                back,
            ),
        decreases tries,
    {
        if counts[m] > 0 {
            return m;
        }
        m = crate::focus::step(n, m, back);
        tries = tries - 1;
    }
    start
}

/// The menus are as they were, but for the highlight.
pub open spec fn highlighted(old: Spreadsheet, new: Spreadsheet, h: Option<usize>) -> bool {
    new == (Spreadsheet { ui: UiState { menu_highlight: h, ..old.ui }, ..old })
}

/// The place among the entries that can be chosen of the first one with a
/// letter.
pub open spec fn letter_place(entries: Seq<MenuEntry>, letter: char) -> Option<nat>
    decreases entries.len(),
{
    if entries.len() == 0 {
        None
    } else {
        match entries[0] {
            MenuEntry::Item(l) => if l == letter {
                Some(0)
            } else {
                match letter_place(entries.skip(1), letter) {
                    Some(k) => Some(k + 1),
                    None => None,
                }
            },
            MenuEntry::Separator => letter_place(entries.skip(1), letter),
        }
    }
}

fn find_letter(entries: &Vec<MenuEntry>, letter: char) -> (r: Option<usize>)
    ensures
        match r {
            Some(k) => letter_place(entries@, letter) == Some(k as nat),
            None => letter_place(entries@, letter) is None,
        },
{
    let mut count: usize = 0;
    let mut i: usize = 0;
    assert(entries@.skip(0) =~= entries@);
    while i < entries.len()
        invariant
            i <= entries@.len(),
            count <= i,
            letter_place(entries@, letter) == match letter_place(entries@.skip(i as int), letter) {
                Some(k) => Some((k + count) as nat),
                None => None,
            },
        decreases entries@.len() - i,
    {
        assert(entries@.skip(i as int)[0] == entries@[i as int]);
        assert(entries@.skip(i as int).skip(1) =~= entries@.skip(i + 1));
        match entries[i] {
            MenuEntry::Item(l) => {
                if l == letter {
                    return Some(count);
                }
                count = count + 1;
            },
            MenuEntry::Separator => {},
        }
        i = i + 1;
    }
    None
}

impl Spreadsheet {
    /// Open a menu, or close it if it is open.
    pub fn toggle_menu(&mut self, menu: usize)
        ensures
            menu_toggled(*old(self), *final(self), menu),
    {
        let open = match self.ui.open_menu {
            Some(m) => m == menu,
            None => false,
        };
        self.ui.open_menu = if open {
            None
        } else {
            Some(menu)
        };
        self.ui.menu_highlight = None;
    }

    /// Close the menu that is open.
    pub fn close_menu(&mut self)
        ensures
            *final(self) == if old(self).ui.open_menu is Some {
                Spreadsheet {
                    ui: UiState { open_menu: None, menu_highlight: None, ..old(self).ui },
                    ..*old(self)
                }
            } else {
                *old(self)
            },
    {
        if self.ui.open_menu.is_some() {
            self.ui.open_menu = None;
            self.ui.menu_highlight = None;
        }
    }

    pub fn close_format_menu(&mut self)
        ensures
            *final(self) == (Spreadsheet {
                ui: UiState { format_menu_open: false, ..old(self).ui },
                ..*old(self)
            }),
    {
        self.ui.format_menu_open = false;
    }

    pub fn open_format_menu(&mut self)
        ensures
            *final(self) == (Spreadsheet {
                ui: UiState { format_menu_open: true, ..old(self).ui },
                ..*old(self)
            }),
    {
        self.ui.format_menu_open = true;
    }

    /// Open the menu for formats, or close it; the one for styles is closed.
    pub fn toggle_format_menu(&mut self)
        ensures
            *final(self) == (Spreadsheet {
                ui: UiState {
                    format_menu_open: !old(self).ui.format_menu_open,
                    format_bar: FormatBarState {
                        cell_style_menu_open: false,
                        ..old(self).ui.format_bar
                    },
                    ..old(self).ui
                },
                ..*old(self)
            }),
    {
        self.ui.format_menu_open = !self.ui.format_menu_open;
        self.ui.format_bar.cell_style_menu_open = false;
    }

    /// Go to the next entry of the menu; behind the last one comes the first.
    /// `count` is how many entries it has.
    pub fn menu_highlight_next(&mut self, count: usize)
        ensures
            next_highlighted(*old(self), *final(self), count),
    {
        if self.ui.open_menu.is_none() || count == 0 {
            return;
        }
        self.ui.menu_highlight = match self.ui.menu_highlight {
            None => Some(0),
            Some(i) => if i >= count - 1 {
                Some(0)
            } else {
                Some(i + 1)
            },
        };
    }

    /// Go to the previous entry of the menu; before the first one comes the
    /// last.
    pub fn menu_highlight_prev(&mut self, count: usize)
        ensures
            prev_highlighted(*old(self), *final(self), count),
    {
        if self.ui.open_menu.is_none() || count == 0 {
            return;
        }
        self.ui.menu_highlight = match self.ui.menu_highlight {
            None => Some(count - 1),
            Some(i) => if i == 0 {
                Some(count - 1)
            } else {
                Some(i - 1)
            },
        };
    }

    /// Open the next menu with entries in place of the one that is open.
    /// `counts` are how many entries each menu has.
    pub fn menu_switch_next(&mut self, counts: &Vec<usize>)
        requires
            old(self).ui.open_menu matches Some(m) ==> m < counts@.len(),
        ensures
            *final(self) == match old(self).ui.open_menu {
                Some(m) => Spreadsheet {
                    ui: UiState {
                        open_menu: Some(active_menu(counts@, m as int, false) as usize),
                        menu_highlight: None,
                        ..old(self).ui
                    },
                    ..*old(self)
                },
                None => *old(self),
            },
    {
        match self.ui.open_menu {
            Some(m) => {
                self.ui.open_menu = Some(find_active_menu(counts, m, false));
                self.ui.menu_highlight = None;
            },
            None => {},
        }
    }

    /// Open the previous menu with entries in place of the one that is open.
    pub fn menu_switch_prev(&mut self, counts: &Vec<usize>)
        requires
            old(self).ui.open_menu matches Some(m) ==> m < counts@.len(),
        ensures
            *final(self) == match old(self).ui.open_menu {
                Some(m) => Spreadsheet {
                    ui: UiState {
                        open_menu: Some(active_menu(counts@, m as int, true) as usize),
                        menu_highlight: None,
                        ..old(self).ui
                    },
                    ..*old(self)
                },
                None => *old(self),
            },
    {
        match self.ui.open_menu {
            Some(m) => {
                self.ui.open_menu = Some(find_active_menu(counts, m, true));
                self.ui.menu_highlight = None;
            },
            None => {},
        }
    }

    /// Choose the highlighted entry: the result is the menu and the entry, and
    /// the menu is closed.
    pub fn menu_execute_highlighted(&mut self) -> (r: Option<(usize, usize)>)
        ensures
            match (old(self).ui.open_menu, old(self).ui.menu_highlight) {
                (Some(m), Some(i)) => r == Some((m, i)) && *final(self) == (Spreadsheet {
                    ui: UiState { open_menu: None, menu_highlight: None, ..old(self).ui },
                    ..*old(self)
                }),
                _ => r is None && *final(self) == *old(self),
            },
    {
        match (self.ui.open_menu, self.ui.menu_highlight) {
            (Some(m), Some(i)) => {
                self.close_menu();
                Some((m, i))
            },
            _ => None,
        }
    }

    /// Choose the first entry of the open menu with a letter: the result is the
    /// menu and the entry, and the menu is closed.
    pub fn menu_execute_by_letter(&mut self, letter: char, entries: &Vec<MenuEntry>) -> (r: Option<
        (usize, usize),
    >)
        ensures
            letter_pressed(*old(self), *final(self), letter, entries@, r),
    {
        match self.ui.open_menu {
            Some(m) => match find_letter(entries, letter) {
                Some(k) => {
                    self.close_menu();
                    Some((m, k))
                },
                None => None,
            },
            None => None,
        }
    }
}

// ---------------------------------------------------------------------------
// Accelerators
// ---------------------------------------------------------------------------

/// How long the accelerators are shown, in milliseconds.
pub const KEYTIPS_MS: u64 = 3000;

/// What is done with a key while the accelerators are shown.
#[derive(Debug, Clone, Copy, PartialEq, Eq)]
pub struct KeytipsOutcome {
    pub handled: bool,
    /// The list of commands is opened with this menu alone.
    pub scope: Option<MenuCategory>,
}

/// The menu that a key in lower case stands for.
pub open spec fn category_of(key: Seq<char>) -> Option<MenuCategory> {
    if key == "f"@ {
        Some(MenuCategory::File)
    } else if key == "e"@ {
        Some(MenuCategory::Edit)
    } else if key == "v"@ {
        Some(MenuCategory::View)
    } else if key == "o"@ {
        Some(MenuCategory::Format)
    } else if key == "d"@ {
        Some(MenuCategory::Data)
    } else if key == "t"@ {
        Some(MenuCategory::Tools)
    } else if key == "h"@ {
        Some(MenuCategory::Help)
    } else {
        None
    }
}

/// The accelerators are gone.
pub open spec fn keytips_gone(u: UiState) -> UiState {
    UiState { keytips_active: false, keytips_deadline: None, ..u }
}

/// What a key in lower case comes to while the accelerators are shown.
pub open spec fn keytips_step(u: UiState, key: Seq<char>) -> (UiState, Option<MenuCategory>) {
    match category_of(key) {
        Some(c) => (UiState { last_keytips_scope: Some(c), ..keytips_gone(u) }, Some(c)),
        None => if key == "enter"@ || key == "space"@ {
            (keytips_gone(u), u.last_keytips_scope)
        } else {
            (keytips_gone(u), None)
        },
    }
}

fn category(key: &str) -> (r: Option<MenuCategory>)
    ensures
        r == category_of(key@),
{
    if text::str_eq(key, "f") {
        Some(MenuCategory::File)
    } else if text::str_eq(key, "e") {
        Some(MenuCategory::Edit)
    } else if text::str_eq(key, "v") {
        Some(MenuCategory::View)
    } else if text::str_eq(key, "o") {
        Some(MenuCategory::Format)
    } else if text::str_eq(key, "d") {
        Some(MenuCategory::Data)
    } else if text::str_eq(key, "t") {
        Some(MenuCategory::Tools)
    } else if text::str_eq(key, "h") {
        Some(MenuCategory::Help)
    } else {
        None
    }
}

impl Spreadsheet {
    /// Whether the keys of accelerators are not wanted as text.
    /// `mode_takes_text` is whether the mode has a field for text,
    /// `filter_search` whether the search of a filter holds any, and `renaming`
    /// whether a sheet is being renamed.
    pub fn should_handle_option_accelerators(
        &self,
        mode_takes_text: bool,
        filter_search: bool,
        renaming: bool,
    ) -> (r: bool)
        ensures
            r == (!mode_takes_text && !self.lua_console_visible && !filter_search && !renaming
                && self.dropdown is None),
    {
        !mode_takes_text && !self.lua_console_visible && !filter_search && !renaming
            && !self.is_validation_dropdown_open()
    }

    /// Show the accelerators, or hide them. The result is whether they have to
    /// be hidden after [`KEYTIPS_MS`].
    pub fn toggle_keytips(&mut self, macos: bool, wanted: bool, now: u64) -> (started: bool)
        requires
            now <= u64::MAX - KEYTIPS_MS,
        ensures
            keytips_toggled(*old(self), *final(self), macos, wanted, now, started),
    {
        if !macos || !wanted {
            return false;
        }
        if self.ui.keytips_active {
            self.dismiss_keytips();
            return false;
        }
        self.ui.keytips_active = true;
        self.ui.keytips_deadline = Some(now + KEYTIPS_MS);
        true
    }

    /// Hide the accelerators.
    pub fn dismiss_keytips(&mut self)
        ensures
            *final(self) == if old(self).ui.keytips_active {
                Spreadsheet { ui: keytips_gone(old(self).ui), ..*old(self) }
            } else {
                *old(self)
            },
    {
        if self.ui.keytips_active {
            self.ui.keytips_active = false;
            self.ui.keytips_deadline = None;
        }
    }

    /// A key, in lower case, was pressed while the accelerators are shown.
    pub fn keytips_handle_lower_key(&mut self, key: &str) -> (r: KeytipsOutcome)
        ensures
            if old(self).ui.keytips_active {
                let (ui, scope) = keytips_step(old(self).ui, key@);
                r == (KeytipsOutcome { handled: true, scope }) && *final(self) == (Spreadsheet {
                    ui,
                    ..*old(self)
                })
            } else {
                r == (KeytipsOutcome { handled: false, scope: None }) && *final(self) == *old(self)
            },
    {
        if !self.ui.keytips_active {
            return KeytipsOutcome { handled: false, scope: None };
        }
        self.ui.keytips_active = false;
        self.ui.keytips_deadline = None;
        match category(key) {
            Some(c) => {
                self.ui.last_keytips_scope = Some(c);
                KeytipsOutcome { handled: true, scope: Some(c) }
            },
            None => if text::str_eq(key, "enter") || text::str_eq(key, "space") {
                KeytipsOutcome { handled: true, scope: self.ui.last_keytips_scope }
            } else {
                KeytipsOutcome { handled: true, scope: None }
            },
        }
    }

    /// A key was pressed while the accelerators are shown.
    pub fn keytips_handle_key(&mut self, key: &str) -> (r: KeytipsOutcome)
        ensures
            if old(self).ui.keytips_active {
                let (ui, scope) = keytips_step(old(self).ui, text::lowercased(key@));
                r == (KeytipsOutcome { handled: true, scope }) && *final(self) == (Spreadsheet {
                    ui,
                    ..*old(self)
                })
            } else {
                r == (KeytipsOutcome { handled: false, scope: None }) && *final(self) == *old(self)
            },
    {
        let lower = text::to_lowercase(key);
        self.keytips_handle_lower_key(lower.as_str())
    }

    // -----------------------------------------------------------------------
    // The tip on the F2 key
    // -----------------------------------------------------------------------

    /// Whether the tip is shown.
    pub fn should_show_f2_tip(&self, macos: bool, dismissed: bool) -> (r: bool)
        ensures
            r == (macos && self.ui.show_f2_tip && !dismissed),
    {
        macos && self.ui.show_f2_tip && !dismissed
    }

    /// A cell is edited without the key: the tip is in place.
    pub fn maybe_show_f2_tip(&mut self, macos: bool, dismissed: bool)
        ensures
            *final(self) == (Spreadsheet {
                ui: UiState {
                    show_f2_tip: old(self).ui.show_f2_tip || (macos && !dismissed),
                    ..old(self).ui
                },
                ..*old(self)
            }),
    {
        if macos && !dismissed {
            self.ui.show_f2_tip = true;
        }
    }

    /// The tip is not wanted any more: it is hidden, and the caller keeps in the
    /// settings that it was dismissed.
    pub fn dismiss_f2_tip(&mut self)
        ensures
            *final(self) == (Spreadsheet {
                ui: UiState { show_f2_tip: false, ..old(self).ui },
                ..*old(self)
            }),
    {
        self.hide_f2_tip();
    }

    /// Hide the tip.
    pub fn hide_f2_tip(&mut self)
        ensures
            *final(self) == (Spreadsheet {
                ui: UiState { show_f2_tip: false, ..old(self).ui },
                ..*old(self)
            }),
    {
        self.ui.show_f2_tip = false;
    }
}

// ---------------------------------------------------------------------------
// Converting a file
// ---------------------------------------------------------------------------

/// The extension of a format in the list of formats.
pub open spec fn convert_ext(i: usize) -> Seq<char> {
    if i == 1 {
        "tsv"@
    } else if i == 2 {
        "json"@
    } else if i == 3 {
        "xlsx"@
    } else {
        "csv"@
    }
}

impl Spreadsheet {
    /// Open the list of formats to convert the file to. `dirty` is whether it
    /// has changes that are not saved.
    pub fn show_convert_picker(&mut self, dirty: bool)
        ensures
            convert_asked(*old(self), *final(self), dirty),
    {
        if self.file.current_file.is_none() {
            self.say("No active workbook to convert.");
            return;
        }
        if dirty {
            self.say("Save the file before converting.");
            return;
        }
        self.ui.convert_selected = 0;
        self.mode = Mode::ConvertPicker;
    }

    pub fn cancel_convert_picker(&mut self)
        ensures
            *final(self) == (Spreadsheet { mode: Mode::Navigation, ..*old(self) }),
    {
        self.mode = Mode::Navigation;
    }
}

/// A menu was clicked.
pub open spec fn menu_toggled(
    old: Spreadsheet,
    new: Spreadsheet,
    menu: usize,
) -> bool {
    &&& new == (Spreadsheet {
        ui: UiState {
            open_menu: if old.ui.open_menu == Some(menu) {
                None
            } else {
                Some(menu)
            },
            menu_highlight: None,
            ..old.ui
        },
        ..old
    })
}

/// The next entry of the menu is highlighted.
pub open spec fn next_highlighted(
    old: Spreadsheet,
    new: Spreadsheet,
    count: usize,
) -> bool {
    &&& if old.ui.open_menu is None || count == 0 {
        new == old
    } else {
        highlighted(
            old,
            new,
            match old.ui.menu_highlight {
                None => Some(0usize),
                Some(i) => if i + 1 >= count {
                    Some(0usize)
                } else {
                    Some((i + 1) as usize)
                },
            },
        )
    }
}

/// The entry before is highlighted.
pub open spec fn prev_highlighted(
    old: Spreadsheet,
    new: Spreadsheet,
    count: usize,
) -> bool {
    &&& if old.ui.open_menu is None || count == 0 {
        new == old
    } else {
        highlighted(
            old,
            new,
            match old.ui.menu_highlight {
                None => Some((count - 1) as usize),
                Some(i) => if i == 0 {
                    Some((count - 1) as usize)
                } else {
                    Some((i - 1) as usize)
                },
            },
        )
    }
}

/// A letter was pressed in a menu.
pub open spec fn letter_pressed(
    old: Spreadsheet,
    new: Spreadsheet,
    letter: char,
    entries: Seq<MenuEntry>,
    r: Option<(usize, usize)>,
) -> bool {
    &&& match (old.ui.open_menu, letter_place(entries, letter)) {
        (Some(m), Some(k)) => r == Some((m, k as usize)) && new == (Spreadsheet {
            ui: UiState { open_menu: None, menu_highlight: None, ..old.ui },
            ..old
        }),
        _ => r is None && new == old,
    }
}

/// The key tips were switched.
pub open spec fn keytips_toggled(
    old: Spreadsheet,
    new: Spreadsheet,
    macos: bool,
    wanted: bool,
    now: u64,
    started: bool,
) -> bool {
    &&& started == (macos && wanted && !old.ui.keytips_active)
    &&& new == (Spreadsheet {
        ui: if started {
            UiState {
                keytips_active: true,
                keytips_deadline: Some((now + KEYTIPS_MS) as u64),
                ..old.ui
            }
        } else if macos && wanted {
            keytips_gone(old.ui)
        } else {
            old.ui
        },
        ..old
    })
}

/// The file is to be converted.
pub open spec fn convert_asked(
    old: Spreadsheet,
    new: Spreadsheet,
    dirty: bool,
) -> bool {
    &&& if old.file.current_file is None {
        crate::hub::only_says(
            old,
            new,
            "No active workbook to convert."@,
        )
    } else if dirty {
        crate::hub::only_says(
            old,
            new,
            "Save the file before converting."@,
        )
    } else {
        new == (Spreadsheet {
            mode: Mode::ConvertPicker,
            ui: UiState { convert_selected: 0, ..old.ui },
            ..old
        })
    }
}

// ---------------------------------------------------------------------------
// Laws
// ---------------------------------------------------------------------------

/// The letters of the accelerators are all different: each menu has its own.
pub proof fn each_menu_has_its_own_letter(a: Seq<char>, b: Seq<char>)
    requires
        category_of(a) is Some,
        category_of(a) == category_of(b),
    ensures
        a == b,
{
}

/// Nothing stands above the headers in zen mode. Otherwise there are a title bar or a menu bar, the formula bar, and
/// the format bar where it is shown, which takes just its own height.
pub proof fn what_stands_above_the_headers(macos: bool, format_bar: bool)
    ensures
        above_headers(true, macos, format_bar) == 0,
        above_headers(false, true, false) == 34 + 28,
        above_headers(false, false, false) == 28 + 28,
        above_headers(false, macos, true) == above_headers(false, macos, false) + 28,
{
}

/// A switch of menus goes to the next one with entries, in either direction; where the next one has entries, that is the
/// one, and where none has any, the menu stays open.
pub proof fn empty_menus_are_passed_over(counts: Seq<usize>, start: int, back: bool)
    requires
        0 <= start < counts.len(),
    ensures
        0 <= active_menu(counts, start, back) < counts.len(),
        counts[active_menu(counts, start, back)] > 0 || active_menu(counts, start, back) == start,
        start + 1 < counts.len() && counts[start + 1] > 0 ==> active_menu(counts, start, false)
            == start + 1,
        start > 0 && counts[start - 1] > 0 ==> active_menu(counts, start, true) == start - 1,
        start + 1 == counts.len() && counts[0] > 0 ==> active_menu(counts, start, false) == 0,
        start == 0 && counts.last() > 0 ==> active_menu(counts, start, true) == counts.len() - 1,
        start + 2 < counts.len() && counts[start + 1] == 0 && counts[start + 2] > 0 ==> active_menu(
            counts,
            start,
            false,
        ) == start + 2,
        start > 1 && counts[start - 1] == 0 && counts[start - 2] > 0 ==> active_menu(
            counts,
            start,
            true,
        ) == start - 2,
{
    reveal_with_fuel(active_from, 3);
    lemma_active_from(
        counts,
        neighbour(counts.len() as int, start, back),
        start,
        back,
        MENU_TRIES as nat,
    );
}

proof fn lemma_active_from(counts: Seq<usize>, m: int, start: int, back: bool, tries: nat)
    requires
        0 <= start < counts.len(),
        0 <= m < counts.len(),
    ensures
        0 <= active_from(counts, m, start, back, tries) < counts.len(),
        counts[active_from(counts, m, start, back, tries)] > 0 || active_from(
            counts,
            m,
            start,
            back,
            tries,
        ) == start,
    decreases tries,
{
    if tries > 0 && counts[m] == 0 {
        lemma_active_from(
            counts,
            neighbour(counts.len() as int, m, back),
            start,
            back,
            (tries - 1) as nat,
        );
    }
}

/// A click on the open menu closes it, and one on another opens that.
pub proof fn a_menu_is_opened_and_closed(a: Spreadsheet, b: Spreadsheet, c: Spreadsheet, menu: usize)
    requires
        menu_toggled(a, b, menu),
        menu_toggled(b, c, menu),
    ensures
        a.ui.open_menu != Some(menu) ==> b.ui.open_menu == Some(menu) && c.ui.open_menu is None,
        a.ui.open_menu == Some(menu) ==> b.ui.open_menu is None && c.ui.open_menu == Some(menu),
        b.ui.menu_highlight is None && b.mode == a.mode,
{
}

/// Going on and back in a menu comes back to the same entry, round the ends too. The first step highlights the first
/// entry, or going back the last.
pub proof fn on_and_back_in_a_menu(a: Spreadsheet, b: Spreadsheet, c: Spreadsheet, count: usize)
    requires
        next_highlighted(a, b, count),
        prev_highlighted(b, c, count),
        a.ui.open_menu is Some,
        count > 0,
    ensures
        a.ui.menu_highlight matches Some(i) ==> (i < count ==> c.ui.menu_highlight == Some(i)),
        a.ui.menu_highlight is None ==> b.ui.menu_highlight == Some(0usize) && c.ui.menu_highlight
            == Some((count - 1) as usize),
        b.ui.menu_highlight matches Some(i) && i < count,
        a.ui.menu_highlight matches Some(i) ==> (i + 1 < count ==> b.ui.menu_highlight == Some(
            (i + 1) as usize,
        )),
        b.ui.open_menu == a.ui.open_menu,
{
}

/// How many of the first `n` lines of a menu are entries.
pub open spec fn entries_before(entries: Seq<MenuEntry>, n: int) -> nat
    decreases n,
{
    if n <= 0 {
        0
    } else {
        entries_before(entries, n - 1) + if entries[n - 1] is Item {
            1nat
        } else {
            0nat
        }
    }
}

proof fn lemma_entries_behind(entries: Seq<MenuEntry>, n: int)
    requires
        entries.len() > 0,
        0 <= n < entries.len(),
    ensures
        entries_before(entries, n + 1) == entries_before(entries.skip(1), n) + if entries[0] is Item {
            1nat
        } else {
            0nat
        },
    decreases n,
{
    reveal_with_fuel(entries_before, 2);
    if n > 0 {
        lemma_entries_behind(entries, n - 1);
        assert(entries.skip(1)[n - 1] == entries[n]);
    }
}

/// A letter runs the first entry that has it, counted without the lines between entries; a letter that no entry has runs
/// nothing.
pub proof fn a_letter_runs_its_entry(entries: Seq<MenuEntry>, letter: char)
    ensures
        match letter_place(entries, letter) {
            Some(k) => exists|i: int|
                0 <= i < entries.len() && #[trigger] entries[i] == MenuEntry::Item(letter)
                    && entries_before(entries, i) == k && forall|j: int|
                    0 <= j < i ==> #[trigger] entries[j] != MenuEntry::Item(letter),
            None => forall|j: int|
                0 <= j < entries.len() ==> #[trigger] entries[j] != MenuEntry::Item(letter),
        },
    decreases entries.len(),
{
    if entries.len() > 0 {
        let t = entries.skip(1);
        if entries[0] == MenuEntry::Item(letter) {
            assert(entries_before(entries, 0) == 0);
        } else {
            a_letter_runs_its_entry(t, letter);
            match letter_place(t, letter) {
                Some(k) => {
                    let i = choose|i: int|
                        0 <= i < t.len() && #[trigger] t[i] == MenuEntry::Item(letter)
                            && entries_before(t, i) == k && forall|j: int|
                            0 <= j < i ==> #[trigger] t[j] != MenuEntry::Item(letter);
                    lemma_entries_behind(entries, i);
                    assert(entries[i + 1] == t[i]);
                    assert forall|j: int| 0 <= j < i + 1 implies #[trigger] entries[j]
                        != MenuEntry::Item(letter) by {
                        if j > 0 {
                            assert(entries[j] == t[j - 1]);
                        }
                    }
                },
                None => {
                    assert forall|j: int| 0 <= j < entries.len() implies #[trigger] entries[j]
                        != MenuEntry::Item(letter) by {
                        if j > 0 {
                            assert(entries[j] == t[j - 1]);
                        }
                    }
                },
            }
        }
    }
}

/// Each menu has its letter. A key ends the key tips, whatever it is; a letter opens its menu and is remembered, and enter
/// and the space bar open the menu that was opened last.
pub proof fn a_key_ends_the_key_tips(u: UiState, key: Seq<char>, c: MenuCategory)
    ensures
        category_of("f"@) == Some(MenuCategory::File) && category_of("e"@) == Some(
            MenuCategory::Edit,
        ) && category_of("v"@) == Some(MenuCategory::View) && category_of("o"@) == Some(
            MenuCategory::Format,
        ) && category_of("d"@) == Some(MenuCategory::Data) && category_of("t"@) == Some(
            MenuCategory::Tools,
        ) && category_of("h"@) == Some(MenuCategory::Help),
        !keytips_step(u, key).0.keytips_active && keytips_step(u, key).0.keytips_deadline is None,
        category_of(key) == Some(c) ==> keytips_step(u, key).1 == Some(c) && keytips_step(
            keytips_step(u, key).0,
            "enter"@,
        ).1 == Some(c) && keytips_step(keytips_step(u, key).0, "space"@).1 == Some(c),
        category_of(key) is None && key != "enter"@ && key != "space"@ ==> keytips_step(u, key).1
            is None && keytips_step(u, key).0.last_keytips_scope == u.last_keytips_scope,
        keytips_step(u, key).0.open_menu == u.open_menu,
{
    reveal_strlit("f");
    reveal_strlit("e");
    reveal_strlit("v");
    reveal_strlit("o");
    reveal_strlit("d");
    reveal_strlit("t");
    reveal_strlit("h");
    reveal_strlit("enter");
    reveal_strlit("space");
    assert("f"@[0] == 'f' && "e"@[0] == 'e' && "v"@[0] == 'v' && "o"@[0] == 'o' && "d"@[0] == 'd'
        && "t"@[0] == 't' && "h"@[0] == 'h');
    assert("enter"@.len() == 5 && "space"@.len() == 5);
    assert("f"@.len() == 1 && "e"@.len() == 1 && "v"@.len() == 1 && "o"@.len() == 1 && "d"@.len()
        == 1 && "t"@.len() == 1 && "h"@.len() == 1);
}

/// The key tips are shown for three seconds, and a second press takes them away.
pub proof fn key_tips_are_switched_on_and_off(
    a: Spreadsheet,
    b: Spreadsheet,
    c: Spreadsheet,
    now: u64,
    later: u64,
    s1: bool,
    s2: bool,
)
    requires
        now <= u64::MAX - 3000,
        !a.ui.keytips_active,
        keytips_toggled(a, b, true, true, now, s1),
        keytips_toggled(b, c, true, true, later, s2),
    ensures
        s1 && !s2,
        b.ui.keytips_active && b.ui.keytips_deadline == Some((now + 3000) as u64),
        !c.ui.keytips_active && c.ui.keytips_deadline is None,
        c.ui.open_menu == a.ui.open_menu && c.mode == a.mode,
{
}

/// A file is converted to one of four kinds, and only once it is saved.
pub proof fn what_a_file_is_converted_to(
    old: Spreadsheet,
    new: Spreadsheet,
    dirty: bool,
    i: usize,
    j: usize,
)
    requires
        convert_asked(old, new, dirty),
        i < j < 4,
    ensures
        convert_ext(i) != convert_ext(j),
        convert_ext(0) == "csv"@ && convert_ext(1) == "tsv"@ && convert_ext(2) == "json"@
            && convert_ext(3) == "xlsx"@,
        old.mode != Mode::ConvertPicker ==> (new.mode == Mode::ConvertPicker
            <==> old.file.current_file is Some && !dirty),
        new.mode != Mode::ConvertPicker ==> new.mode == old.mode && new.ui == old.ui,
{
    reveal_strlit("csv");
    reveal_strlit("tsv");
    reveal_strlit("json");
    reveal_strlit("xlsx");
    assert("csv"@[0] == 'c' && "tsv"@[0] == 't' && "json"@[0] == 'j' && "xlsx"@[0] == 'x');
}

} // verus!
