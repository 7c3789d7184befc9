//! Scripts out of a conversation: finding them in a reply, naming their files,
//! and saying what running them would touch.

use std::collections::hash_map::DefaultHasher;
use std::collections::HashSet;
use std::hash::Hasher;

use vstd::prelude::*;

use crate::caches;
use crate::startup;
use crate::text;

verus! {

// ---------------------------------------------------------------------------
// Fenced blocks
// ---------------------------------------------------------------------------

/// A line that opens a block of Lua: three backticks, and the language in any
/// case.
pub open spec fn opens(line: Seq<char>) -> bool {
    let t = text::trimmed(line);
    text::has_prefix(t, "```"@) && text::same_but_case(text::trimmed(t.skip(3)), "lua"@)
}

/// A line that closes a block.
pub open spec fn closes(line: Seq<char>) -> bool {
    text::trimmed(line) == "```"@
}

/// What was read so far.
pub struct Scan {
    /// The lines of the block that is open.
    pub open: Option<Seq<Seq<char>>>,
    /// The last block with a line in it that was closed.
    pub last: Option<Seq<char>>,
}

/// What is known after some lines.
pub open spec fn scan(lines: Seq<Seq<char>>) -> Scan
    decreases lines.len(),
{
    if lines.len() == 0 {
        Scan { open: None, last: None }
    } else {
        let before = scan(lines.drop_last());
        let line = lines.last();
        match before.open {
            None => Scan {
                open: if opens(line) {
                    Some(Seq::empty())
                } else {
                    None
                },
                ..before
            },
            Some(body) => if closes(line) {
                Scan {
                    open: None,
                    last: if body.len() > 0 {
                        Some(startup::joined(body, "\n"@))
                    } else {
                        before.last
                    },
                }
            } else {
                Scan { open: Some(body.push(line)), ..before }
            },
        }
    }
}

/// The last block of Lua in a text.
pub open spec fn last_block(s: Seq<char>) -> Option<Seq<char>> {
    scan(text::lines(s)).last
}

fn line_opens(line: &str) -> (r: bool)
    ensures
        r == opens(line@),
{
    let t = text::trim(line);
    proof {
        reveal_strlit("```");
    }
    if !text::starts_with(t.as_str(), "```") {
        return false;
    }
    let v = text::chars_of(t.as_str());
    let after = text::slice_text(&v, 3, v.len());
    assert(after@ =~= t@.skip(3));
    let tag = text::trim(after.as_str());
    text::eq_but_case(tag.as_str(), "lua")
}

/// The last block of Lua in a text: the lines between a line of three backticks
/// with the language and a line of three backticks. A block that is not closed
/// does not count, and neither does one without lines.
pub fn extract_last_lua_block(reply: &str) -> (r: Option<String>)
    ensures
        text::opt_text(r) == last_block(reply@),
{
    let lines = text::lines_of(reply);
    let ghost all = text::texts(lines@);
    let mut last: Option<String> = None;
    let mut in_block = false;
    let mut body: Vec<String> = Vec::new();
    let mut i: usize = 0;
    assert(all.take(0) =~= Seq::empty());
    while i < lines.len()
        invariant
            i <= lines@.len(),
            all == text::texts(lines@),
            text::opt_text(last) == scan(all.take(i as int)).last,
            in_block == (scan(all.take(i as int)).open is Some),
            in_block ==> scan(all.take(i as int)).open == Some(text::texts(body@)),
        decreases lines@.len() - i,
    {
        let line = lines[i].as_str();
        proof {
            assert(all.take(i + 1).drop_last() =~= all.take(i as int));
            assert(all.take(i + 1).last() == line@);
        }
        if !in_block {
            if line_opens(line) {
                in_block = true;
                body = Vec::new();
                assert(text::texts(body@) =~= Seq::empty());
            }
        } else {
            let t = text::trim(line);
            if text::str_eq(t.as_str(), "```") {
                if body.len() > 0 {
                    last = Some(startup::join(&body, "\n"));
                }
                in_block = false;
            } else {
                let ghost before = body@;
                body.push(text::lit(line));
                assert(text::texts(body@) =~= text::texts(before).push(line@));
            }
        }
        i = i + 1;
    }
    assert(all.take(all.len() as int) =~= all);
    last
}

// ---------------------------------------------------------------------------
// Files
// ---------------------------------------------------------------------------

/// The name that a script is always saved under as well.
pub const LAST_SCRIPT: &'static str = "last.lua";

/// The parts of the path of the directory for scripts: under the workspace, or
/// under the home directory.
pub open spec fn script_dir_parts(
    workspace: Option<Seq<char>>,
    home: Option<Seq<char>>,
) -> Seq<Seq<char>> {
    match workspace {
        Some(w) => seq![w, "ai"@, "generated"@],
        None => seq![
            match home {
                Some(h) => h,
                None => "/tmp"@,
            },
            ".visigrid"@,
            "ai"@,
            "generated"@,
        ],
    }
}

/// The parts of the path of the directory for scripts.
pub fn script_dir(workspace: &Option<String>, home: &Option<String>) -> (r: Vec<String>)
    ensures
        text::texts(r@) == script_dir_parts(text::opt_text(*workspace), text::opt_text(*home)),
{
    let mut r: Vec<String> = Vec::new();
    match workspace {
        Some(w) => {
            r.push(w.clone());
        },
        None => {
            match home {
                Some(h) => r.push(h.clone()),
                None => r.push(text::lit("/tmp")),
            }
            r.push(text::lit(".visigrid"));
        },
    }
    r.push(text::lit("ai"));
    r.push(text::lit("generated"));
    assert(text::texts(r@) =~= script_dir_parts(text::opt_text(*workspace), text::opt_text(*home)));
    r
}

/// The file name of a script that was made at a second since the epoch.
pub fn script_name(epoch: u64) -> (r: String)
    ensures
        r@ == "model_"@ + text::dec(epoch as nat) + ".lua"@,
{
    let n = text::decimal(epoch);
    text::cat3("model_", n.as_str(), ".lua")
}

// ---------------------------------------------------------------------------
// Fingerprints
// ---------------------------------------------------------------------------

/// A cell that holds something: its place, and what was typed into it.
#[derive(Debug, PartialEq, Eq)]
pub struct FilledCell {
    pub row: usize,
    pub col: usize,
    pub raw: String,
}

/// How many of the first and of the last cells are looked at, and how many in
/// all.
pub const HEAD: usize = 20;

pub const TAIL: usize = 20;

pub const TOTAL_SAMPLES: usize = 128;

/// How many cells are looked at between the first and the last ones.
pub const MIDDLE: usize = 88;

/// The cells of a large sheet that are looked at: the first ones, some that are
/// evenly spaced, and the last ones.
pub open spec fn sample(count: nat, i: int) -> int {
    if count <= TOTAL_SAMPLES || i < HEAD {
        i
    } else if i < HEAD + MIDDLE {
        HEAD + ((i - HEAD) * (count - HEAD - TAIL)) / (MIDDLE as int)
    } else {
        count - TOTAL_SAMPLES + i
    }
}

/// How many cells are looked at.
pub open spec fn sample_count(count: nat) -> nat {
    if count <= TOTAL_SAMPLES {
        count
    } else {
        TOTAL_SAMPLES as nat
    }
}

/// The smallest number in a list that is not empty.
pub open spec fn least(s: Seq<usize>) -> usize
    decreases s.len(),
{
    if s.len() <= 1 {
        s[0]
    } else {
        let m = least(s.drop_last());
        if s.last() < m {
            s.last()
        } else {
            m
        }
    }
}

/// The largest number in a list that is not empty.
pub open spec fn greatest(s: Seq<usize>) -> usize
    decreases s.len(),
{
    if s.len() <= 1 {
        s[0]
    } else {
        let m = greatest(s.drop_last());
        if s.last() > m {
            s.last()
        } else {
            m
        }
    }
}

pub open spec fn rows_of(cells: Seq<FilledCell>) -> Seq<usize> {
    cells.map_values(|c: FilledCell| c.row)
}

pub open spec fn cols_of(cells: Seq<FilledCell>) -> Seq<usize> {
    cells.map_values(|c: FilledCell| c.col)
}

/// The chunks by which a position is hashed.
pub open spec fn position_chunks(n: usize) -> Seq<Seq<u8>> {
    seq![vstd::bytes::spec_u64_to_le_bytes(n as u64)]
}

/// The chunks by which a text is hashed: its bytes, and a byte that is in no
/// text.
pub open spec fn text_chunks(s: Seq<char>) -> Seq<Seq<u8>> {
    seq![vstd::utf8::encode_utf8(s), seq![0xffu8]]
}

/// The chunks by which a cell is hashed.
pub open spec fn cell_chunks(c: FilledCell) -> Seq<Seq<u8>> {
    position_chunks(c.row) + position_chunks(c.col) + text_chunks(c.raw@)
}

/// The chunks by which the first `n` of the cells that are looked at are hashed.
pub open spec fn sampled_chunks(cells: Seq<FilledCell>, n: nat) -> Seq<Seq<u8>>
    decreases n,
{
    if n == 0 {
        Seq::empty()
    } else {
        sampled_chunks(cells, (n - 1) as nat) + cell_chunks(cells[sample(cells.len(), n - 1)])
    }
}

/// The chunks by which a sheet is hashed: its name, how many cells hold
/// something, where they stand, and some of them.
pub open spec fn sheet_chunks(name: Seq<char>, cells: Seq<FilledCell>) -> Seq<Seq<u8>> {
    let start = text_chunks(name) + position_chunks(cells.len() as usize);
    if cells.len() == 0 {
        start
    } else {
        start + position_chunks(least(rows_of(cells))) + position_chunks(least(cols_of(cells)))
            + position_chunks(greatest(rows_of(cells))) + position_chunks(greatest(cols_of(cells)))
            + sampled_chunks(cells, sample_count(cells.len()))
    }
}

/// The fingerprint of a sheet.
pub open spec fn fingerprint(name: Seq<char>, cells: Seq<FilledCell>) -> u64 {
    <DefaultHasher as vstd::std_specs::hash::DefaultHasherAdditionalSpecFns>::spec_finish(
        sheet_chunks(name, cells),
    )
}

fn write_position(h: &mut DefaultHasher, n: usize)
    ensures
        final(h)@ == old(h)@ + position_chunks(n),
{
    let bytes = vstd::bytes::u64_to_le_bytes(n as u64);
    let ghost before = h@;
    h.write(bytes.as_slice());
    assert(h@ =~= before + position_chunks(n));
}

fn write_text(h: &mut DefaultHasher, s: &str)
    ensures
        final(h)@ == old(h)@ + text_chunks(s@),
{
    let ghost before = h@;
    h.write(s.as_bytes());
    let mut end: Vec<u8> = Vec::new();
    end.push(0xff);
    h.write(end.as_slice());
    assert(end@ =~= seq![0xffu8]);
    assert(h@ =~= before + text_chunks(s@));
}

fn write_cell(h: &mut DefaultHasher, c: &FilledCell)
    ensures
        final(h)@ == old(h)@ + cell_chunks(*c),
{
    let ghost before = h@;
    write_position(h, c.row);
    write_position(h, c.col);
    write_text(h, c.raw.as_str());
    assert(h@ =~= before + cell_chunks(*c));
}

/// Where the cells stand: the least row and column, and the greatest ones.
fn used_range(cells: &Vec<FilledCell>) -> (r: (usize, usize, usize, usize))
    requires
        cells@.len() > 0,
    ensures
        r.0 == least(rows_of(cells@)),
        r.1 == least(cols_of(cells@)),
        r.2 == greatest(rows_of(cells@)),
        r.3 == greatest(cols_of(cells@)),
{
    let mut min_row: usize = cells[0].row;
    let mut min_col: usize = cells[0].col;
    let mut max_row: usize = min_row;
    let mut max_col: usize = min_col;
    let ghost rows = rows_of(cells@);
    let ghost cols = cols_of(cells@);
    let mut i: usize = 1;
    while i < cells.len()
        invariant
            1 <= i <= cells@.len(),
            rows == rows_of(cells@),
            cols == cols_of(cells@),
            min_row == least(rows.take(i as int)),
            min_col == least(cols.take(i as int)),
            max_row == greatest(rows.take(i as int)),
            max_col == greatest(cols.take(i as int)),
        decreases cells@.len() - i,
    {
        proof {
            assert(rows.take(i + 1).drop_last() =~= rows.take(i as int));
            assert(cols.take(i + 1).drop_last() =~= cols.take(i as int));
            assert(rows.take(i + 1).last() == cells@[i as int].row);
            assert(cols.take(i + 1).last() == cells@[i as int].col);
        }
        let c = &cells[i];
        if c.row < min_row {
            min_row = c.row;
        }
        if c.col < min_col {
            min_col = c.col;
        }
        if c.row > max_row {
            max_row = c.row;
        }
        if c.col > max_col {
            max_col = c.col;
        }
        i = i + 1;
    }
    assert(rows.take(rows.len() as int) =~= rows);
    assert(cols.take(cols.len() as int) =~= cols);
    (min_row, min_col, max_row, max_col)
}

proof fn lemma_middle_sample(count: nat, k: int)
    requires
        count > TOTAL_SAMPLES,
        0 <= k < MIDDLE,
    ensures
        0 <= k * (count - HEAD - TAIL),
        (k * (count - HEAD - TAIL)) / (MIDDLE as int) < count - HEAD - TAIL,
        k <= (k * (count - HEAD - TAIL)) / (MIDDLE as int),
{
    let m = count - HEAD - TAIL;
    assert(0 <= k * m && k * m < 88 * m && 88 * k <= k * m) by (nonlinear_arith)
        requires
            0 <= k < 88,
            m >= 89,
    ;
    assert((k * m) / 88 < m && k <= (k * m) / 88) by (nonlinear_arith)
        requires
            0 <= k * m,
            k * m < 88 * m,
            88 * k <= k * m,
    ;
}

/// Which cell is looked at.
fn sample_index(count: usize, i: usize) -> (r: usize)
    requires
        i < sample_count(count as nat),
    ensures
        r == sample(count as nat, i as int),
        r < count,
{
    if count <= TOTAL_SAMPLES || i < HEAD {
        i
    } else if i < HEAD + MIDDLE {
        proof {
            lemma_middle_sample(count as nat, i - HEAD);
        }
        let k: u128 = (i - HEAD) as u128;
        let m: u128 = (count - HEAD - TAIL) as u128;
        assert(k * m <= 88 * 0xffff_ffff_ffff_ffff) by (nonlinear_arith)
            requires
                0 <= k <= 88,
                0 <= m <= 0xffff_ffff_ffff_ffff,
        ;
        let step: u128 = (k * m) / 88;
        HEAD + step as usize
    } else {
        count - TOTAL_SAMPLES + i
    }
}

/// A fingerprint of a sheet, by which a change is noticed. Of a large sheet it
/// goes by a sample of its cells.
pub fn sheet_fingerprint(name: &str, cells: &Vec<FilledCell>) -> (r: u64)
    ensures
        r == fingerprint(name@, cells@),
{
    let mut h = DefaultHasher::new();
    let count: usize = cells.len();
    write_text(&mut h, name);
    write_position(&mut h, count);
    assert(h@ =~= text_chunks(name@) + position_chunks(count));
    if count == 0 {
        return h.finish();
    }
    let (min_row, min_col, max_row, max_col) = used_range(cells);
    write_position(&mut h, min_row);
    write_position(&mut h, min_col);
    write_position(&mut h, max_row);
    write_position(&mut h, max_col);
    let ghost start = h@;
    let n: usize = if count <= TOTAL_SAMPLES {
        count
    } else {
        TOTAL_SAMPLES
    };
    let mut i: usize = 0;
    assert(h@ =~= start + sampled_chunks(cells@, 0));
    while i < n
        invariant
            i <= n,
            count == cells@.len(),
            n == sample_count(count as nat),
            h@ == start + sampled_chunks(cells@, i as nat),
        decreases n - i,
    {
        let k = sample_index(count, i);
        write_cell(&mut h, &cells[k]);
        i = i + 1;
        assert(h@ =~= start + sampled_chunks(cells@, i as nat));
    }
    assert(h@ =~= sheet_chunks(name@, cells@));
    h.finish()
}

// ---------------------------------------------------------------------------
// Overwriting
// ---------------------------------------------------------------------------

/// A step of a script: a cell gets a value or a formula, or something else is
/// done.
#[derive(Debug, Clone, Copy, PartialEq, Eq)]
pub enum LuaOp {
    SetValue { row: u32, col: u32 },
    SetFormula { row: u32, col: u32 },
    Other,
}

/// The cell that a step writes.
pub open spec fn written(op: LuaOp) -> Option<(u32, u32)> {
    match op {
        LuaOp::SetValue { row, col } => Some((row, col)),
        LuaOp::SetFormula { row, col } => Some((row, col)),
        LuaOp::Other => None,
    }
}

/// The cells that hold something and that some steps write.
pub open spec fn overwritten(ops: Seq<LuaOp>, filled: Seq<(u32, u32)>) -> Set<(u32, u32)>
    decreases ops.len(),
{
    if ops.len() == 0 {
        Set::empty()
    } else {
        let before = overwritten(ops.drop_last(), filled);
        match written(ops.last()) {
            Some(p) => if filled.contains(p) {
                before.insert(p)
            } else {
                before
            },
            None => before,
        }
    }
}

/// A set of cells, by their numbers.
pub open spec fn keys_are(keys: Set<u64>, cells: Set<(u32, u32)>) -> bool {
    forall|p: (u32, u32)| #[trigger] cells.contains(p) <==> keys.contains(caches::cell_number(p.0, p.1))
}

fn filled_keys(filled: &Vec<(u32, u32)>) -> (s: HashSet<u64>)
    ensures
        keys_are(s@, filled@.to_set()),
{
    broadcast use vstd::std_specs::hash::group_hash_axioms;

    let mut s: HashSet<u64> = HashSet::new();
    let mut i: usize = 0;
    assert(filled@.take(0).to_set() =~= Set::empty());
    while i < filled.len()
        invariant
            i <= filled@.len(),
            keys_are(s@, filled@.take(i as int).to_set()),
        decreases filled@.len() - i,
    {
        let (row, col) = filled[i];
        let ghost before = s@;
        s.insert(caches::number_of(row, col));
        proof {
            let was = filled@.take(i as int);
            let now = filled@.take(i + 1);
            assert(now =~= was.push((row, col)));
            assert forall|p: (u32, u32)| #[trigger] now.to_set().contains(p) <==> s@.contains(
                caches::cell_number(p.0, p.1),
            ) by {
                assert(was.to_set().contains(p) <==> before.contains(caches::cell_number(p.0, p.1)));
                assert(was.to_set().contains(p) <==> was.contains(p));
                assert(now.to_set().contains(p) <==> now.contains(p));
                assert(caches::cell_number(p.0, p.1) == caches::cell_number(row, col) <==> p == (row, col));
                if was.contains(p) {
                    let k = choose|k: int| 0 <= k < was.len() && was[k] == p;
                    assert(now[k] == p);
                }
                if p == (row, col) {
                    assert(now[i as int] == p);
                }
                if now.contains(p) && p != (row, col) {
                    let k = choose|k: int| 0 <= k < now.len() && now[k] == p;
                    assert(was[k] == p);
                }
            }
        }
        i = i + 1;
    }
    assert(filled@.take(filled@.len() as int) =~= filled@);
    s
}

/// How many of the cells that hold something some steps write. `filled` are the
/// cells that hold something.
pub fn count_lua_overwrites(ops: &Vec<LuaOp>, filled: &Vec<(u32, u32)>) -> (r: usize)
    ensures
        overwritten(ops@, filled@).finite(),
        r == overwritten(ops@, filled@).len(),
{
    broadcast use vstd::std_specs::hash::group_hash_axioms;

    let full = filled_keys(filled);
    let mut seen: HashSet<u64> = HashSet::new();
    let mut count: usize = 0;
    let mut i: usize = 0;
    assert(ops@.take(0) =~= Seq::empty());
    while i < ops.len()
        invariant
            i <= ops@.len(),
            count <= i,
            keys_are(full@, filled@.to_set()),
            overwritten(ops@.take(i as int), filled@).finite(),
            count == overwritten(ops@.take(i as int), filled@).len(),
            forall|p: (u32, u32)| #[trigger]
                overwritten(ops@.take(i as int), filled@).contains(p) <==> filled@.contains(p)
                    && seen@.contains(caches::cell_number(p.0, p.1)),
        decreases ops@.len() - i,
    {
        proof {
            assert(ops@.take(i + 1).drop_last() =~= ops@.take(i as int));
            assert(ops@.take(i + 1).last() == ops@[i as int]);
        }
        let place: Option<(u32, u32)> = match ops[i] {
            LuaOp::SetValue { row, col } => Some((row, col)),
            LuaOp::SetFormula { row, col } => Some((row, col)),
            LuaOp::Other => None,
        };
        match place {
            Some((row, col)) => {
                let k = caches::number_of(row, col);
                let fresh = seen.insert(k);
                let holds = full.contains(&k);
                assert(holds == filled@.to_set().contains((row, col)));
                if fresh && holds {
                    count = count + 1;
                }
            },
            None => {},
        }
        i = i + 1;
    }
    assert(ops@.take(ops@.len() as int) =~= ops@);
    count
}

// ---------------------------------------------------------------------------
// Laws
// ---------------------------------------------------------------------------

/// A block that opened on line `i` and that line `j` closes.
pub open spec fn is_block(lines: Seq<Seq<char>>, i: int, j: int) -> bool {
    &&& 0 <= i && i + 1 < j < lines.len()
    &&& opens(lines[i]) && closes(lines[j])
    &&& forall|k: int| i < k < j ==> !closes(#[trigger] lines[k])
}

/// A block that opened on line `i` and that nothing closes.
pub open spec fn is_open(lines: Seq<Seq<char>>, i: int) -> bool {
    &&& 0 <= i < lines.len()
    &&& opens(lines[i])
    &&& forall|k: int| i < k < lines.len() ==> !closes(#[trigger] lines[k])
}

proof fn lemma_open_block(lines: Seq<Seq<char>>)
    requires
        scan(lines).open is Some,
    ensures
        exists|i: int| #[trigger]
            is_open(lines, i) && scan(lines).open == Some(
                lines.subrange(i + 1, lines.len() as int),
            ),
    decreases lines.len(),
{
    let front = lines.drop_last();
    match scan(front).open {
        None => {
            let i = lines.len() - 1;
            assert(is_open(lines, i));
            assert(lines.subrange(i + 1, lines.len() as int) =~= Seq::empty());
        },
        Some(body) => {
            lemma_open_block(front);
            let i = choose|i: int| #[trigger]
                is_open(front, i) && scan(front).open == Some(
                    front.subrange(i + 1, front.len() as int),
                );
            assert(front[i] == lines[i]);
            assert forall|k: int| i < k < lines.len() implies !closes(#[trigger] lines[k]) by {
                if k < front.len() {
                    assert(front[k] == lines[k]);
                }
            }
            assert(is_open(lines, i));
            assert(lines.subrange(i + 1, lines.len() as int) =~= front.subrange(
                i + 1,
                front.len() as int,
            ).push(lines.last()));
        },
    }
}

/// What is found stands between a line that opens a block and the first line
/// after it that closes one.
pub proof fn a_script_stands_between_fences(lines: Seq<Seq<char>>)
    requires
        scan(lines).last is Some,
    ensures
        exists|i: int, j: int| #[trigger]
            is_block(lines, i, j) && scan(lines).last == Some(
                startup::joined(lines.subrange(i + 1, j), "\n"@),
            ),
    decreases lines.len(),
{
    let front = lines.drop_last();
    let n = lines.len() - 1;
    if scan(front).open is Some && closes(lines.last()) && scan(front).open->0.len() > 0 {
        lemma_open_block(front);
        let i = choose|i: int| #[trigger]
            is_open(front, i) && scan(front).open == Some(
                front.subrange(i + 1, front.len() as int),
            );
        assert(front[i] == lines[i]);
        assert forall|k: int| i < k < n implies !closes(#[trigger] lines[k]) by {
            assert(front[k] == lines[k]);
        }
        assert(is_block(lines, i, n));
        assert(lines.subrange(i + 1, n) =~= front.subrange(i + 1, front.len() as int));
    } else {
        a_script_stands_between_fences(front);
        let (i, j) = choose|i: int, j: int| #[trigger]
            is_block(front, i, j) && scan(front).last == Some(
                startup::joined(front.subrange(i + 1, j), "\n"@),
            );
        assert(front[i] == lines[i] && front[j] == lines[j]);
        assert forall|k: int| i < k < j implies !closes(#[trigger] lines[k]) by {
            assert(front[k] == lines[k]);
        }
        assert(is_block(lines, i, j));
        assert(lines.subrange(i + 1, j) =~= front.subrange(i + 1, j));
    }
}

proof fn lemma_body(before: Seq<Seq<char>>, opening: Seq<char>, body: Seq<Seq<char>>)
    requires
        scan(before).open is None,
        opens(opening),
        forall|k: int| 0 <= k < body.len() ==> !closes(#[trigger] body[k]),
    ensures
        scan(before.push(opening) + body).open == Some(body),
    decreases body.len(),
{
    let all = before.push(opening) + body;
    if body.len() == 0 {
        assert(all =~= before.push(opening));
        assert(all.drop_last() =~= before);
        assert(body =~= Seq::empty());
    } else {
        let front = body.drop_last();
        assert forall|k: int| 0 <= k < front.len() implies !closes(#[trigger] front[k]) by {
            assert(front[k] == body[k]);
        }
        lemma_body(before, opening, front);
        assert(all.drop_last() =~= before.push(opening) + front);
        assert(all.last() == body.last());
        assert(!closes(body[body.len() - 1]));
        assert(front.push(body.last()) =~= body);
    }
}

/// A script that is put between fences after a text is found, as long as no
/// block is open there and no line of the script is a fence.
pub proof fn a_fenced_script_is_found(
    before: Seq<Seq<char>>,
    opening: Seq<char>,
    body: Seq<Seq<char>>,
    closing: Seq<char>,
)
    requires
        scan(before).open is None,
        opens(opening),
        closes(closing),
        body.len() > 0,
        forall|k: int| 0 <= k < body.len() ==> !closes(#[trigger] body[k]),
    ensures
        scan((before.push(opening) + body).push(closing)).last == Some(
            startup::joined(body, "\n"@),
        ),
{
    lemma_body(before, opening, body);
    assert((before.push(opening) + body).push(closing).drop_last() =~= before.push(opening)
        + body);
}

/// The cells that are looked at are cells of the sheet, and each is looked at
/// once.
pub proof fn samples_are_distinct(count: nat, i: int, j: int)
    requires
        0 <= i < j < sample_count(count),
    ensures
        0 <= sample(count, i) < sample(count, j) < count,
{
    if count > TOTAL_SAMPLES {
        let m = count - HEAD - TAIL;
        if HEAD <= i < HEAD + MIDDLE {
            lemma_middle_sample(count, i - HEAD);
        }
        if HEAD <= j < HEAD + MIDDLE {
            lemma_middle_sample(count, j - HEAD);
        }
        if HEAD <= i && j < HEAD + MIDDLE {
            let a = i - HEAD;
            let b = j - HEAD;
            assert(a * m + 88 <= b * m) by (nonlinear_arith)
                requires
                    a + 1 <= b,
                    m >= 89,
            ;
            assert((a * m) / 88 < (b * m) / 88) by (nonlinear_arith)
                requires
                    a * m + 88 <= b * m,
            ;
        }
    }
}

/// Every cell of a small sheet is looked at.
pub proof fn small_sheets_are_looked_at_whole(count: nat, i: int)
    requires
        count <= TOTAL_SAMPLES,
        0 <= i < count,
    ensures
        i < sample_count(count),
        sample(count, i) == i,
{
}

/// A cell is counted when it holds something and a step writes it.
pub proof fn what_is_overwritten(ops: Seq<LuaOp>, filled: Seq<(u32, u32)>, p: (u32, u32))
    ensures
        overwritten(ops, filled).contains(p) <==> filled.contains(p) && exists|i: int|
            0 <= i < ops.len() && written(#[trigger] ops[i]) == Some(p),
    decreases ops.len(),
{
    if ops.len() > 0 {
        let front = ops.drop_last();
        what_is_overwritten(front, filled, p);
        if exists|i: int| 0 <= i < front.len() && written(#[trigger] front[i]) == Some(p) {
            let i = choose|i: int| 0 <= i < front.len() && written(#[trigger] front[i]) == Some(p);
            assert(ops[i] == front[i]);
        }
        if written(ops.last()) == Some(p) {
            assert(ops[ops.len() - 1] == ops.last());
        }
        if exists|i: int| 0 <= i < ops.len() && written(#[trigger] ops[i]) == Some(p) {
            let i = choose|i: int| 0 <= i < ops.len() && written(#[trigger] ops[i]) == Some(p);
            if i < front.len() {
                assert(front[i] == ops[i]);
            }
        }
    }
}

proof fn lemma_least(s: Seq<usize>, i: int)
    requires
        0 <= i < s.len(),
    ensures
        least(s) <= s[i] <= greatest(s),
        s.contains(least(s)) && s.contains(greatest(s)),
    decreases s.len(),
{
    if s.len() > 1 {
        let t = s.drop_last();
        let j = if i < t.len() {
            i
        } else {
            0
        };
        lemma_least(t, j);
        assert(t[j] == s[j]);
        let a = choose|k: int| 0 <= k < t.len() && t[k] == least(t);
        let b = choose|k: int| 0 <= k < t.len() && t[k] == greatest(t);
        assert(s[a] == least(t) && s[b] == greatest(t));
        assert(s[s.len() - 1] == s.last());
    } else {
        assert(s[0] == least(s));
    }
}

/// The bounds that a fingerprint is taken of are those of the cells: every cell lies within them, and each bound is
/// reached.
pub proof fn bounds_are_those_of_the_cells(cells: Seq<FilledCell>, i: int)
    requires
        0 <= i < cells.len(),
    ensures
        least(rows_of(cells)) <= cells[i].row <= greatest(rows_of(cells)),
        least(cols_of(cells)) <= cells[i].col <= greatest(cols_of(cells)),
        exists|k: int| 0 <= k < cells.len() && (#[trigger] cells[k]).row == least(rows_of(cells)),
        exists|k: int| 0 <= k < cells.len() && (#[trigger] cells[k]).row == greatest(rows_of(cells)),
        exists|k: int| 0 <= k < cells.len() && (#[trigger] cells[k]).col == least(cols_of(cells)),
        exists|k: int| 0 <= k < cells.len() && (#[trigger] cells[k]).col == greatest(cols_of(cells)),
{
    let r = rows_of(cells);
    let c = cols_of(cells);
    lemma_least(r, i);
    lemma_least(c, i);
    let a = choose|k: int| 0 <= k < r.len() && r[k] == least(r);
    let b = choose|k: int| 0 <= k < r.len() && r[k] == greatest(r);
    let d = choose|k: int| 0 <= k < c.len() && c[k] == least(c);
    let e = choose|k: int| 0 <= k < c.len() && c[k] == greatest(c);
    assert(cells[a].row == r[a] && cells[b].row == r[b] && cells[d].col == c[d] && cells[e].col
        == c[e]);
}

proof fn lemma_sampled(cells: Seq<FilledCell>, n: nat, i: int)
    requires
        0 <= i < n,
    ensures
        sampled_chunks(cells, n).len() == 4 * n,
        sampled_chunks(cells, n).subrange(4 * i, 4 * i + 4) == cell_chunks(
            cells[sample(cells.len(), i)],
        ),
    decreases n,
{
    let m = (n - 1) as nat;
    let rest = sampled_chunks(cells, m);
    let all = sampled_chunks(cells, n);
    let c = cell_chunks(cells[sample(cells.len(), n - 1)]);
    assert(c.len() == 4);
    if m > 0 {
        lemma_sampled(cells, m, 0);
    }
    if i < m {
        lemma_sampled(cells, m, i);
        assert(all.subrange(4 * i, 4 * i + 4) =~= rest.subrange(4 * i, 4 * i + 4));
    } else {
        assert(all.subrange(4 * i, 4 * i + 4) =~= c);
    }
}

/// A fingerprint is taken of the name of the sheet, of the number of its cells, and of the place and the content of each cell
/// that is looked at.
pub proof fn a_fingerprint_looks_at_the_cells(name: Seq<char>, cells: Seq<FilledCell>, i: int)
    requires
        0 <= i < sample_count(cells.len()),
    ensures
        ({
            let all = sheet_chunks(name, cells);
            let c = cells[sample(cells.len(), i)];
            &&& all.len() == 7 + 4 * sample_count(cells.len())
            &&& all[0] == vstd::utf8::encode_utf8(name)
            &&& all[2] == vstd::bytes::spec_u64_to_le_bytes(cells.len() as usize as u64)
            &&& all[7 + 4 * i] == vstd::bytes::spec_u64_to_le_bytes(c.row as u64)
            &&& all[7 + 4 * i + 1] == vstd::bytes::spec_u64_to_le_bytes(c.col as u64)
            &&& all[7 + 4 * i + 2] == vstd::utf8::encode_utf8(c.raw@)
        }),
{
    let n = sample_count(cells.len());
    lemma_sampled(cells, n, i);
    let s = sampled_chunks(cells, n);
    let all = sheet_chunks(name, cells);
    assert(forall|k: int| 0 <= k < s.len() ==> all[7 + k] == #[trigger] s[k]);
    let c = cell_chunks(cells[sample(cells.len(), i)]);
    let part = s.subrange(4 * i, 4 * i + 4);
    assert(part[0] == s[4 * i] && part[1] == s[4 * i + 1] && part[2] == s[4 * i + 2]);
    assert(c[0] == part[0]);
}

/// Scripts are kept under the workspace where there is one, and else under the home directory, in a place of their own.
pub proof fn where_scripts_are_kept(workspace: Option<Seq<char>>, home: Option<Seq<char>>)
    ensures
        script_dir_parts(workspace, home).len() >= 3,
        workspace matches Some(w) ==> script_dir_parts(workspace, home)[0] == w,
        workspace is None ==> (home matches Some(h) ==> script_dir_parts(workspace, home)[0] == h),
        workspace is None && home is None ==> script_dir_parts(workspace, home)[0] == "/tmp"@,
        script_dir_parts(workspace, home).last() == "generated"@,
        script_dir_parts(workspace, home)[script_dir_parts(workspace, home).len() - 2] == "ai"@,
{
}

} // verus!
