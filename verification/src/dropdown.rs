//! The list that drops down from a cell whose values are restricted to it.

use vstd::prelude::*;

use crate::state::Spreadsheet;
use crate::text;

verus! {

/// The items that a cell can have, and a fingerprint of where they come from.
#[derive(Debug, PartialEq, Eq)]
pub struct ResolvedList {
    pub items: Vec<String>,
    pub source_fingerprint: u64,
}

/// A list that has dropped down.
#[derive(Debug, PartialEq, Eq)]
pub struct OpenDropdown {
    pub row: usize,
    pub col: usize,
    pub list: ResolvedList,
}

#[derive(Debug, Clone, Copy, PartialEq, Eq, Structural)]
pub enum DropdownCloseReason {
    SelectionChanged,
    SheetSwitch,
    Scroll,
    Zoom,
    ModalOpened,
    ClickOutside,
    Escape,
    Committed,
    SourceChanged,
}

/// What the list did with a key.
#[derive(Debug, PartialEq, Eq)]
pub enum DropdownOutcome {
    Consumed,
    CloseNoCommit,
    CommitValue(String),
    NotConsumed,
}

/// What opening a list comes to.
#[derive(Debug, Clone, Copy, PartialEq, Eq, Structural)]
pub enum DropdownStep {
    /// The list of the cell is open, or there is nothing to open.
    Finished,
    /// The filter of this column drops down instead.
    OpenFilter(usize),
}

/// A value that a cell is given.
#[derive(Debug, PartialEq, Eq)]
pub struct CellWrite {
    pub row: usize,
    pub col: usize,
    pub value: String,
}

/// What is left to do with a key.
#[derive(Debug, PartialEq, Eq)]
pub struct DropdownRoute {
    /// Nothing: the list has dealt with it.
    pub consumed: bool,
    /// Give a cell a value.
    pub write: Option<CellWrite>,
}

impl Spreadsheet {
    /// Close the list if it is open.
    pub fn close_validation_dropdown(&mut self, reason: DropdownCloseReason)
        ensures
            *final(self) == (Spreadsheet {
                dropdown: None,
                status_message: final(self).status_message,
                ..*old(self)
            }),
            if old(self).dropdown is Some && reason == DropdownCloseReason::SourceChanged {
                text::opt_text(final(self).status_message) == Some("List updated"@)
            } else {
                final(self).status_message == old(self).status_message
            },
    {
        if self.dropdown.is_some() {
            self.dropdown = None;
            if reason == DropdownCloseReason::SourceChanged {
                self.say("List updated");
            }
        }
    }

    pub fn is_validation_dropdown_open(&self) -> (r: bool)
        ensures
            r == (self.dropdown is Some),
    {
        self.dropdown.is_some()
    }

    /// Open what drops down from the selected cell: its list, else the filter
    /// of its column. `list` is what the rule of the cell allows, if it has one
    /// with a list; `filter_cols` are the first and the last column of the
    /// filter, if it is on.
    pub fn open_validation_dropdown(
        &mut self,
        list: Option<ResolvedList>,
        filter_cols: Option<(usize, usize)>,
    ) -> (step: DropdownStep)
        ensures
            dropdown_opened(*old(self), *final(self), list, filter_cols, step),
    {
        let (row, col) = self.view.selected;
        match list {
            Some(l) => {
                if l.items.len() > 0 {
                    self.dropdown = Some(OpenDropdown { row, col, list: l });
                } else {
                    self.say("Validation list is empty");
                }
                return DropdownStep::Finished;
            },
            None => {},
        }
        match filter_cols {
            Some((first, last)) => {
                if col >= first && col <= last {
                    return DropdownStep::OpenFilter(col);
                }
            },
            None => {},
        }
        self.say("No dropdown available");
        DropdownStep::Finished
    }

    /// Close the list if it no longer is what the cell allows. `current` is the
    /// fingerprint of what the cell of the open list allows now.
    pub fn check_dropdown_staleness(&mut self, current: Option<u64>)
        ensures
            staleness_checked(*old(self), *final(self), current),
    {
        let stale = match &self.dropdown {
            None => {
                return;
            },
            Some(d) => match current {
                Some(f) => f != d.list.source_fingerprint,
                None => true,
            },
        };
        if stale {
            self.close_validation_dropdown(DropdownCloseReason::SourceChanged);
        }
    }

    /// A key goes to the open list first; `outcome` is what it did with it. A
    /// list that the tab key closes leaves the key to the grid.
    pub fn route_dropdown_key_event(&mut self, key: &str, outcome: DropdownOutcome) -> (r:
        DropdownRoute)
        ensures
            key_routed(*old(self), *final(self), key@, outcome, r),
    {
        if self.dropdown.is_none() {
            return DropdownRoute { consumed: false, write: None };
        }
        match outcome {
            DropdownOutcome::Consumed => DropdownRoute { consumed: true, write: None },
            DropdownOutcome::CloseNoCommit => {
                self.dropdown = None;
                DropdownRoute { consumed: !text::str_eq(key, "tab"), write: None }
            },
            DropdownOutcome::CommitValue(v) => {
                let w = self.commit_validation_value(v.as_str());
                DropdownRoute { consumed: true, write: Some(w) }
            },
            DropdownOutcome::NotConsumed => DropdownRoute { consumed: false, write: None },
        }
    }

    /// A character goes to the open list first. The result is whether the list
    /// has dealt with it.
    pub fn route_dropdown_char_event(&self, outcome: &DropdownOutcome) -> (consumed: bool)
        ensures
            consumed == (self.dropdown is Some && *outcome == DropdownOutcome::Consumed),
    {
        if self.dropdown.is_none() {
            return false;
        }
        match outcome {
            DropdownOutcome::Consumed => true,
            _ => false,
        }
    }

    /// An item of the list was chosen: the selected cell is given its value.
    pub fn commit_validation_value(&mut self, value: &str) -> (w: CellWrite)
        ensures
            *final(self) == (Spreadsheet {
                dropdown: None,
                cells_rev: crate::state::bumped(old(self).cells_rev),
                ..*old(self)
            }),
            w.row == old(self).view.selected.0,
            w.col == old(self).view.selected.1,
            w.value@ == value@,
    {
        self.close_validation_dropdown(DropdownCloseReason::Committed);
        self.bump_cells_rev();
        let (row, col) = self.view.selected;
        CellWrite { row, col, value: text::lit(value) }
    }
}

/// The list of a cell is to drop down.
pub open spec fn dropdown_opened(
    old: Spreadsheet,
    new: Spreadsheet,
    list: Option<ResolvedList>,
    filter_cols: Option<(usize, usize)>,
    step: DropdownStep,
) -> bool {
    &&& match list {
        Some(l) => if l.items@.len() > 0 {
            &&& step == DropdownStep::Finished
            &&& new == (Spreadsheet {
                dropdown: Some(
                    OpenDropdown {
                        row: old.view.selected.0,
                        col: old.view.selected.1,
                        list: l,
                    },
                ),
                ..old
            })
        } else {
            &&& step == DropdownStep::Finished
            &&& crate::hub::only_says(
                old,
                new,
                "Validation list is empty"@,
            )
        },
        None => {
            let col = old.view.selected.1;
            if filter_cols matches Some(r) && r.0 <= col <= r.1 {
                step == DropdownStep::OpenFilter(col) && new == old
            } else {
                &&& step == DropdownStep::Finished
                &&& crate::hub::only_says(
                    old,
                    new,
                    "No dropdown available"@,
                )
            }
        },
    }
}

/// It was looked whether the open list is still the list of its cell.
pub open spec fn staleness_checked(
    old: Spreadsheet,
    new: Spreadsheet,
    current: Option<u64>,
) -> bool {
    &&& if old.dropdown matches Some(d) && current != Some(d.list.source_fingerprint) {
        &&& new == (Spreadsheet {
            dropdown: None,
            status_message: new.status_message,
            ..old
        })
        &&& text::opt_text(new.status_message) == Some("List updated"@)
    } else {
        new == old
    }
}

/// A key was pressed while a list is open.
pub open spec fn key_routed(
    old: Spreadsheet,
    new: Spreadsheet,
    key: Seq<char>,
    outcome: DropdownOutcome,
    r: DropdownRoute,
) -> bool {
    &&& if old.dropdown is None {
        new == old && !r.consumed && r.write is None
    } else {
        match outcome {
            DropdownOutcome::Consumed => new == old && r.consumed
                && r.write is None,
            DropdownOutcome::CloseNoCommit => new == (Spreadsheet {
                dropdown: None,
                ..old
            }) && r.consumed == (key != "tab"@) && r.write is None,
            DropdownOutcome::CommitValue(v) => {
                &&& new == (Spreadsheet {
                    dropdown: None,
                    cells_rev: crate::state::bumped(old.cells_rev),
                    ..old
                })
                &&& r.consumed
                &&& r.write matches Some(w) && w.row == old.view.selected.0 && w.col
                    == old.view.selected.1 && w.value@ == v@
            },
            DropdownOutcome::NotConsumed => new == old && !r.consumed
                && r.write is None,
        }
    }
}

// ---------------------------------------------------------------------------
// Laws
// ---------------------------------------------------------------------------

/// A list drops down at the active cell where it has items. A column with a filter drops that down where the cell has no
/// list; and nothing else opens anything.
pub proof fn a_list_drops_down_at_the_active_cell(
    old: Spreadsheet,
    new: Spreadsheet,
    list: Option<ResolvedList>,
    filter_cols: Option<(usize, usize)>,
    step: DropdownStep,
)
    requires
        dropdown_opened(old, new, list, filter_cols, step),
    ensures
        list matches Some(l) ==> (l.items@.len() > 0 ==> (new.dropdown matches Some(d) && (
        d.row,
        d.col,
    ) == old.view.selected && d.list == l) && new.status_message == old.status_message),
        !(list matches Some(l) && l.items@.len() > 0) ==> new.dropdown == old.dropdown,
        step matches DropdownStep::OpenFilter(c) ==> list is None && c == old.view.selected.1 && (
        filter_cols matches Some(f) && f.0 <= c <= f.1),
        list is None && (filter_cols matches Some(f) && f.0 <= old.view.selected.1 <= f.1) ==> step
            == DropdownStep::OpenFilter(old.view.selected.1),
        new.view == old.view && new.file == old.file,
{
}

/// A value that is chosen from an open list goes into the active cell and closes the list; no other key writes anything,
/// and without an open list keys go their usual way.
pub proof fn a_chosen_value_goes_into_the_cell(
    old: Spreadsheet,
    new: Spreadsheet,
    key: Seq<char>,
    outcome: DropdownOutcome,
    r: DropdownRoute,
)
    requires
        key_routed(old, new, key, outcome, r),
    ensures
        r.write is Some <==> old.dropdown is Some && outcome is CommitValue,
        r.write matches Some(w) ==> (w.row, w.col) == old.view.selected && (outcome matches
            DropdownOutcome::CommitValue(v) && w.value@ == v@) && new.dropdown is None && r.consumed
            && new.cells_rev != old.cells_rev,
        old.dropdown is Some && outcome == DropdownOutcome::CloseNoCommit ==> new.dropdown is None && (
        r.consumed <==> key != "tab"@),
        old.dropdown is Some && outcome == DropdownOutcome::Consumed ==> r.consumed && new == old,
        old.dropdown is None || outcome == DropdownOutcome::NotConsumed ==> !r.consumed && new == old,
        new.view == old.view,
{
}

/// An open list is closed exactly if it is no longer the list of its cell.
pub proof fn a_stale_list_is_closed(old: Spreadsheet, new: Spreadsheet, current: Option<u64>)
    requires
        staleness_checked(old, new, current),
    ensures
        old.dropdown matches Some(d) ==> (new.dropdown is None <==> current != Some(
            d.list.source_fingerprint,
        )),
        old.dropdown is None ==> new == old,
        new.dropdown is Some ==> new == old,
{
}

} // verus!
