//! The text that is being edited in a cell. The cursor counts bytes.

use vstd::prelude::*;

use crate::state::{Mode, Spreadsheet};
use crate::text;

verus! {

/// The text that is being edited.
#[derive(Debug, PartialEq, Eq)]
pub struct EditState {
    pub value: String,
    pub cursor: usize,
    pub original: String,
    /// The text has to be scrolled to the cursor.
    pub scroll_dirty: bool,
    /// What is known of the formula is no longer true.
    pub cache_dirty: bool,
}

/// Nothing is being edited.
pub open spec fn no_edit(e: EditState) -> bool {
    e.value@.len() == 0 && e.cursor == 0 && e.original@.len() == 0 && !e.scroll_dirty
        && !e.cache_dirty
}

impl EditState {
    pub fn new() -> (e: EditState)
        ensures
            no_edit(e),
    {
        EditState {
            value: String::new(),
            cursor: 0,
            original: String::new(),
            scroll_dirty: false,
            cache_dirty: false,
        }
    }

    /// Where the cursor stands in the text.
    pub open spec fn at(self) -> nat {
        text::bytes_up_to(self.value@, self.cursor as nat)
    }
}

/// A cell is being edited.
pub open spec fn is_editing(m: Mode) -> bool {
    m == Mode::Edit || m == Mode::Formula
}

/// The text begins like a formula.
pub open spec fn is_formula_text(s: Seq<char>) -> bool {
    s.len() > 0 && (s[0] == '=' || s[0] == '+')
}

/// Whether a text begins with a character.
pub fn begins_with(s: &str, c: char) -> (r: bool)
    ensures
        r == (s@.len() > 0 && s@[0] == c),
{
    let v = text::chars_of(s);
    v.len() > 0 && v[0] == c
}

/// A line break is put in at the cursor.
pub open spec fn newline_put(old: EditState, new: EditState) -> bool {
    &&& new == (EditState {
        value: new.value,
        cursor: (old.at() + 1) as usize,
        scroll_dirty: true,
        cache_dirty: true,
        ..old
    })
    &&& new.value@ == text::with_insert(old.value@, old.at(), seq!['\n'])
}

impl Spreadsheet {
    /// Whether the text that is being edited begins like a formula.
    pub fn is_formula_content(&self) -> (r: bool)
        ensures
            r == is_formula_text(self.edit.value@),
    {
        begins_with(self.edit.value.as_str(), '=') || begins_with(self.edit.value.as_str(), '+')
    }

    /// Whether a cell is being edited.
    pub fn mode_is_editing(&self) -> (r: bool)
        ensures
            r == is_editing(self.mode),
    {
        self.mode == Mode::Edit || self.mode == Mode::Formula
    }

    fn put_newline(&mut self)
        requires
            old(self).edit.at() < usize::MAX,
            text::has_boundary(old(self).edit.value@, old(self).edit.at()),
        ensures
            *final(self) == (Spreadsheet { edit: final(self).edit, ..*old(self) }),
            newline_put(old(self).edit, final(self).edit),
    {
        let at = text::clamp_bytes(self.edit.value.as_str(), self.edit.cursor);
        proof {
            reveal_strlit("\n");
            assert("\n"@ =~= seq!['\n']);
        }
        self.edit.value = text::insert_at_byte(self.edit.value.as_str(), at, "\n");
        self.edit.cursor = at + 1;
        self.edit.scroll_dirty = true;
        self.edit.cache_dirty = true;
    }

    /// Put a line break into the text that is being edited. A part of the text
    /// that is selected is deleted by the caller first, who holds the selection.
    /// Where nothing is edited, the selected cell is edited from now on; `raw` is
    /// what it holds.
    pub fn insert_newline(&mut self, raw: &str)
        requires
            is_editing(old(self).mode) ==> old(self).edit.at() < usize::MAX && text::has_boundary(
                old(self).edit.value@,
                old(self).edit.at(),
            ),
            !is_editing(old(self).mode) ==> text::utf8_len(raw@) < usize::MAX,
        ensures
            newline_typed(*old(self), *final(self), raw@),
    {
        if self.mode_is_editing() {
            self.put_newline();
        } else {
            self.edit.original = text::lit(raw);
            self.edit.value = text::lit(raw);
            self.edit.cursor = text::byte_count(raw);
            self.mode = Mode::Edit;
            proof {
                text::lemma_end_is_boundary(raw@);
                assert(self.edit.at() == text::utf8_len(raw@));
            }
            self.put_newline();
            assert(self.edit.value@ =~= raw@.push('\n'));
        }
    }

    /// Put a function into the formula that is being edited, or begin a formula
    /// with it; `raw` is what the selected cell holds, and `signature` is shown
    /// for reference.
    pub fn insert_function(&mut self, name: &str, signature: &str, raw: &str)
        requires
            text::utf8_len(name@) + 2 <= usize::MAX,
            in_formula(*old(self)) ==> text::has_boundary(old(self).edit.value@, old(self).edit.at())
                && old(self).edit.cursor + text::utf8_len(name@) + 1 <= usize::MAX,
        ensures
            function_typed(*old(self), *final(self), name@, signature@, raw@),
    {
        let n = text::byte_count(name);
        if self.mode == Mode::Formula || (self.mode == Mode::Edit && begins_with(
            self.edit.value.as_str(),
            '=',
        )) {
            let at = text::clamp_bytes(self.edit.value.as_str(), self.edit.cursor);
            let call = text::cat(name, "(");
            self.edit.value = text::insert_at_byte(self.edit.value.as_str(), at, call.as_str());
            self.edit.cursor = self.edit.cursor + n + 1;
        } else {
            self.edit.original = text::lit(raw);
            self.edit.value = text::cat3("=", name, "(");
            self.edit.cursor = n + 2;
            self.mode = Mode::Formula;
        }
        self.say(signature);
    }
}

/// A formula is being edited.
pub open spec fn in_formula(s: Spreadsheet) -> bool {
    s.mode == Mode::Formula || (s.mode == Mode::Edit && s.edit.value@.len() > 0 && s.edit.value@[0]
        == '=')
}

/// A new line was typed.
pub open spec fn newline_typed(
    old: Spreadsheet,
    new: Spreadsheet,
    raw: Seq<char>,
) -> bool {
    &&& if is_editing(old.mode) {
        &&& new == (Spreadsheet { edit: new.edit, ..old })
        &&& newline_put(old.edit, new.edit)
    } else {
        &&& new == (Spreadsheet {
            mode: Mode::Edit,
            edit: new.edit,
            ..old
        })
        &&& new.edit.value@ == raw.push('\n')
        &&& new.edit.original@ == raw
        &&& new.edit.cursor == text::utf8_len(raw) + 1
        &&& new.edit.scroll_dirty
        &&& new.edit.cache_dirty
    }
}

/// A function was put in.
pub open spec fn function_typed(
    old: Spreadsheet,
    new: Spreadsheet,
    name: Seq<char>,
    signature: Seq<char>,
    raw: Seq<char>,
) -> bool {
    &&& text::opt_text(new.status_message) == Some(signature)
    &&& if in_formula(old) {
        &&& new == (Spreadsheet {
            status_message: new.status_message,
            edit: EditState {
                value: new.edit.value,
                cursor: (old.edit.cursor + text::utf8_len(name) + 1) as usize,
                ..old.edit
            },
            ..old
        })
        &&& new.edit.value@ == text::with_insert(
            old.edit.value@,
            old.edit.at(),
            name + "("@,
        )
    } else {
        &&& new == (Spreadsheet {
            mode: Mode::Formula,
            status_message: new.status_message,
            edit: EditState {
                value: new.edit.value,
                cursor: (text::utf8_len(name) + 2) as usize,
                original: new.edit.original,
                ..old.edit
            },
            ..old
        })
        &&& new.edit.value@ == "="@ + name + "("@
        &&& new.edit.original@ == raw
    }
}

// ---------------------------------------------------------------------------
// Laws
// ---------------------------------------------------------------------------

/// A new line goes in at the cursor, which stands behind it then, and the text around it stays. Outside of editing the
/// cell is edited with a new line at the end of what it holds, which is what a cancel brings back.
pub proof fn a_new_line_goes_in_at_the_cursor(old: Spreadsheet, new: Spreadsheet, raw: Seq<char>)
    requires
        newline_typed(old, new, raw),
        is_editing(old.mode) ==> old.edit.at() < usize::MAX && text::has_boundary(
            old.edit.value@,
            old.edit.at(),
        ),
        text::utf8_len(raw) < usize::MAX,
    ensures
        is_editing(old.mode) ==> new.mode == old.mode && new.edit.original == old.edit.original
            && exists|k: int|
            0 <= k <= old.edit.value@.len() && new.edit.value@ == #[trigger] old.edit.value@.take(k)
                + seq!['\n'] + old.edit.value@.skip(k) && text::utf8_len(
                old.edit.value@.take(k) + seq!['\n'],
            ) == new.edit.cursor,
        !is_editing(old.mode) ==> new.mode == Mode::Edit && new.edit.value@ == raw + seq!['\n']
            && new.edit.original@ == raw && new.edit.cursor == text::utf8_len(new.edit.value@),
        new.edit.scroll_dirty && new.edit.cache_dirty && new.view == old.view,
{
    if is_editing(old.mode) {
        let s = old.edit.value@;
        text::an_insert_leaves_the_text_around_it(s, old.edit.at(), seq!['\n']);
        let k = choose|k: int|
            0 <= k <= s.len() && text::utf8_len(#[trigger] s.take(k)) == old.edit.at()
                && text::with_insert(s, old.edit.at(), seq!['\n']) == s.take(k) + seq!['\n'] + s.skip(
                k,
            );
        text::byte_lengths_add_up(s.take(k), seq!['\n']);
        assert(text::utf8_len(s.take(k) + seq!['\n']) == old.edit.at() + 1);
    } else {
        text::byte_lengths_add_up(raw, seq!['\n']);
        assert(raw.push('\n') =~= raw + seq!['\n']);
    }
}

/// A function goes into the formula at the cursor, with its opening bracket, and the text around it stays. Elsewhere a
/// formula is begun with it, and the cursor stands behind the bracket.
pub proof fn a_function_goes_in_with_its_bracket(
    old: Spreadsheet,
    new: Spreadsheet,
    name: Seq<char>,
    signature: Seq<char>,
    raw: Seq<char>,
)
    requires
        function_typed(old, new, name, signature, raw),
        text::utf8_len(name) + 2 <= usize::MAX,
        in_formula(old) ==> text::has_boundary(old.edit.value@, old.edit.at()),
    ensures
        in_formula(old) ==> exists|k: int|
            0 <= k <= old.edit.value@.len() && new.edit.value@ == #[trigger] old.edit.value@.take(k)
                + (name + seq!['(']) + old.edit.value@.skip(k) && text::utf8_len(
                old.edit.value@.take(k),
            ) == old.edit.at(),
        !in_formula(old) ==> new.mode == Mode::Formula && new.edit.value@ == seq!['='] + name
            + seq!['('] && new.edit.cursor == text::utf8_len(new.edit.value@)
            && new.edit.original@ == raw,
        text::opt_text(new.status_message) == Some(signature),
        new.view == old.view,
{
    reveal_strlit("(");
    reveal_strlit("=");
    assert("("@ =~= seq!['(']);
    assert("="@ =~= seq!['=']);
    if in_formula(old) {
        text::an_insert_leaves_the_text_around_it(old.edit.value@, old.edit.at(), name + seq!['(']);
    } else {
        text::byte_lengths_add_up(seq!['='] + name, seq!['(']);
        text::byte_lengths_add_up(seq!['='], name);
        text::byte_lengths_add_up(Seq::empty(), seq!['=']);
    }
}

/// A formula is what begins with an equals sign or a plus, and a cell is edited in two modes.
pub proof fn what_is_edited_as_a_formula(s: Seq<char>, m: Mode)
    ensures
        is_formula_text(seq!['='] + s) && is_formula_text(seq!['+'] + s),
        is_formula_text(s) ==> s.len() > 0 && (s[0] == '=' || s[0] == '+'),
        is_editing(Mode::Edit) && is_editing(Mode::Formula) && !is_editing(Mode::Navigation),
        is_editing(m) ==> m == Mode::Edit || m == Mode::Formula,
{
}

} // verus!
