//! The names of columns and cells.

use vstd::prelude::*;

use crate::state::Spreadsheet;
use crate::text;

verus! {

/// The capital letter at a place in the alphabet.
pub open spec fn letter(d: int) -> char {
    (65 + d) as char
}

/// The letters of a column: A to Z, then AA to ZZ and so on.
pub open spec fn column_letters(col: nat) -> Seq<char>
    decreases col,
{
    if col < 26 {
        seq![letter(col as int)]
    } else {
        column_letters((col / 26 - 1) as nat).push(letter((col % 26) as int))
    }
}

/// The column that some letters stand for.
pub open spec fn letters_value(s: Seq<char>) -> int
    decreases s.len(),
{
    if s.len() == 0 {
        -1
    } else {
        (letters_value(s.drop_last()) + 1) * 26 + (s.last() as int - 65)
    }
}

/// The name of a cell.
pub open spec fn cell_text(row: usize, col: usize) -> Seq<char> {
    column_letters(col as nat) + text::dec((row + 1) as nat)
}

/// The name of a cell. The row that is named is counted from one.
pub fn cell_name(row: usize, col: usize) -> (r: String)
    requires
        row < usize::MAX,
    ensures
        r@ == cell_text(row, col),
{
    let place: usize = row + 1;
    let letters = Spreadsheet::col_letter(col);
    let n = text::decimal(place as u64);
    text::cat(letters.as_str(), n.as_str())
}

impl Spreadsheet {
    /// The letters of a column.
    pub fn col_letter(col: usize) -> (r: String)
        ensures
            r@ == column_letters(col as nat),
        decreases col,
    {
        let c: u8 = 65 + (col % 26) as u8;
        if col < 26 {
            let mut s = String::new();
            s.push(c as char);
            assert(s@ =~= column_letters(col as nat));
            return s;
        }
        let mut s = Spreadsheet::col_letter(col / 26 - 1);
        s.push(c as char);
        s
    }

    /// The name of the selected cell.
    pub fn cell_ref(&self) -> (r: String)
        requires
            self.view.selected.0 < usize::MAX,
        ensures
            r@ == cell_text(self.view.selected.0, self.view.selected.1),
    {
        cell_name(self.view.selected.0, self.view.selected.1)
    }
}

// ---------------------------------------------------------------------------
// Laws
// ---------------------------------------------------------------------------

/// The letters of a column stand for that column: no two columns have the same
/// letters.
pub proof fn column_letters_read_back(col: nat)
    ensures
        letters_value(column_letters(col)) == col,
    decreases col,
{
    let s = column_letters(col);
    if col < 26 {
        assert(s.drop_last() =~= Seq::empty());
        assert(s.last() == letter(col as int));
        assert(letters_value(s.drop_last()) == -1);
    } else {
        let front = column_letters((col / 26 - 1) as nat);
        assert(s.drop_last() =~= front);
        column_letters_read_back((col / 26 - 1) as nat);
        assert(s.last() == letter((col % 26) as int));
        assert(letters_value(front) == col / 26 - 1);
        assert(letters_value(s) == (col / 26) * 26 + col % 26);
    }
}

proof fn lemma_letters(col: nat, i: int)
    requires
        0 <= i < column_letters(col).len(),
    ensures
        'A' <= column_letters(col)[i] <= 'Z',
    decreases col,
{
    if col >= 26 {
        let front = column_letters((col / 26 - 1) as nat);
        if i < front.len() {
            lemma_letters((col / 26 - 1) as nat, i);
            assert(column_letters(col)[i] == front[i]);
        }
    }
}

/// A cell is named by the letters of its column and the number of its row, counted from
/// one, and no two cells have the same name.
pub proof fn cells_have_different_names(r1: usize, c1: usize, r2: usize, c2: usize)
    ensures
        cell_text(r1, c1) == cell_text(r2, c2) ==> r1 == r2 && c1 == c2,
        ({
            let n = column_letters(c1 as nat).len() as int;
            &&& n > 0 && (c1 < 26 <==> n == 1)
            &&& letters_value(cell_text(r1, c1).take(n)) == c1
            &&& text::digits_value(cell_text(r1, c1).skip(n)) == r1 + 1
            &&& text::all_digits(cell_text(r1, c1).skip(n))
            &&& forall|i: int| 0 <= i < n ==> 'A' <= #[trigger] cell_text(r1, c1)[i] <= 'Z'
        }),
{
    let a = column_letters(c1 as nat);
    let b = column_letters(c2 as nat);
    let x = text::dec((r1 + 1) as nat);
    let y = text::dec((r2 + 1) as nat);
    let s = cell_text(r1, c1);
    let t = cell_text(r2, c2);
    text::decimal_texts_differ((r2 + 1) as nat, (r1 + 1) as nat);
    text::decimal_texts_differ((r1 + 1) as nat, (r2 + 1) as nat);
    column_letters_read_back(c1 as nat);
    column_letters_read_back(c2 as nat);
    reveal_with_fuel(column_letters, 2);
    assert(s.take(a.len() as int) =~= a);
    assert(s.skip(a.len() as int) =~= x);
    assert(t.take(b.len() as int) =~= b);
    assert(t.skip(b.len() as int) =~= y);
    assert forall|i: int| 0 <= i < a.len() implies 'A' <= #[trigger] s[i] <= 'Z' by {
        lemma_letters(c1 as nat, i);
        assert(s[i] == a[i]);
    }
    if c1 >= 26 {
        let front = column_letters((c1 as nat / 26 - 1) as nat);
        assert(front.len() > 0);
    }
    if s == t {
        if a.len() < b.len() {
            lemma_letters(c2 as nat, a.len() as int);
            assert(s[a.len() as int] == x[0]);
            assert(t[a.len() as int] == b[a.len() as int]);
            assert(text::is_digit(x[0]));
        } else if b.len() < a.len() {
            lemma_letters(c1 as nat, b.len() as int);
            assert(t[b.len() as int] == y[0]);
            assert(s[b.len() as int] == a[b.len() as int]);
            assert(text::is_digit(y[0]));
        }
    }
}

/// The columns go from A to Z and on to AA: each column ends with the letter after that
/// of the column before it, and after Z it begins again at A.
pub proof fn columns_go_through_the_alphabet(col: nat)
    ensures
        column_letters(0) == seq!['A'] && column_letters(25) == seq!['Z'] && column_letters(26)
            == seq!['A', 'A'],
        column_letters(col).last() as int == 65 + col % 26,
        column_letters(col).len() <= column_letters(col + 1).len(),
    decreases col,
{
    reveal_with_fuel(column_letters, 3);
    assert(column_letters(26) =~= seq!['A', 'A']);
    if col >= 26 {
        let c = (col / 26 - 1) as nat;
        columns_go_through_the_alphabet(c);
        if (col + 1) / 26 == col / 26 {
        } else {
            assert((col + 1) / 26 == col / 26 + 1);
        }
    }
}

} // verus!
