//! The fonts that can be chosen.

use vstd::prelude::*;

use crate::text;

verus! {

/// The systems whose fonts are known.
#[derive(Debug, Clone, Copy, PartialEq, Eq, Structural)]
pub enum FontPlatform {
    Mac,
    Linux,
    Windows,
    Unknown,
}

// ---------------------------------------------------------------------------
// Reading a list
// ---------------------------------------------------------------------------

/// The name on a line of a font list: what stands before the first comma.
pub open spec fn font_name(line: Seq<char>) -> Seq<char> {
    text::trimmed(text::split(line, ',')[0])
}

/// The names on the lines of a font list, without the empty ones.
pub open spec fn font_names(lines: Seq<Seq<char>>) -> Seq<Seq<char>>
    decreases lines.len(),
{
    if lines.len() == 0 {
        Seq::empty()
    } else {
        let before = font_names(lines.drop_last());
        let name = font_name(lines.last());
        if name.len() > 0 {
            before.push(name)
        } else {
            before
        }
    }
}

proof fn lemma_split_has_parts(s: Seq<char>, sep: char)
    ensures
        text::split(s, sep).len() > 0,
    decreases s.len(),
{
    if s.len() > 0 {
        lemma_split_has_parts(s.drop_last(), sep);
    }
}

fn is_blank(s: &str) -> (r: bool)
    ensures
        r == (s@.len() == 0),
{
    proof {
        reveal_strlit("");
        if s@.len() == 0 {
            assert(s@ =~= ""@);
        }
    }
    text::str_eq(s, "")
}

/// The fonts that a list names, one on each line, with its variants behind
/// commas.
pub fn listed_fonts(output: &str) -> (r: Vec<String>)
    ensures
        text::texts(r@) == font_names(text::lines(output@)),
{
    let lines = text::lines_of(output);
    let ghost all = text::texts(lines@);
    let mut r: Vec<String> = Vec::new();
    let mut i: usize = 0;
    assert(all.take(0) =~= Seq::empty());
    assert(text::texts(r@) =~= Seq::empty());
    while i < lines.len()
        invariant
            i <= lines@.len(),
            all == text::texts(lines@),
            text::texts(r@) == font_names(all.take(i as int)),
        decreases lines@.len() - i,
    {
        let line = lines[i].as_str();
        proof {
            assert(all.take(i + 1).drop_last() =~= all.take(i as int));
            assert(all.take(i + 1).last() == line@);
            lemma_split_has_parts(line@, ',');
        }
        let parts = text::split_at(line, ',');
        assert(text::texts(parts@)[0] == parts@[0]@);
        let name = text::trim(parts[0].as_str());
        if !is_blank(name.as_str()) {
            let ghost before = r@;
            let ghost n = name@;
            r.push(name);
            assert(text::texts(r@) =~= text::texts(before).push(n));
        }
        i = i + 1;
    }
    assert(all.take(all.len() as int) =~= all);
    r
}

// ---------------------------------------------------------------------------
// Fonts of a system
// ---------------------------------------------------------------------------

/// The fonts that are offered where a system does not say which it has.
pub open spec fn usual_fonts(p: FontPlatform) -> Seq<Seq<char>> {
    match p {
        FontPlatform::Mac => seq![
            "Menlo"@,
            "Monaco"@,
            "Courier New"@,
            "Helvetica"@,
            "Arial"@,
            "Times New Roman"@,
            "Georgia"@,
            "Verdana"@,
        ],
        FontPlatform::Linux => seq![
            "DejaVu Sans"@,
            "DejaVu Sans Mono"@,
            "DejaVu Serif"@,
            "Liberation Mono"@,
            "Liberation Sans"@,
            "Liberation Serif"@,
            "Noto Sans"@,
            "Noto Sans Mono"@,
        ],
        FontPlatform::Windows => seq![
            "Consolas"@,
            "Cascadia Mono"@,
            "Courier New"@,
            "Arial"@,
            "Calibri"@,
            "Cambria"@,
            "Times New Roman"@,
            "Georgia"@,
            "Verdana"@,
            "Segoe UI"@,
            "Tahoma"@,
            "Trebuchet MS"@,
            "Lucida Console"@,
            "Comic Sans MS"@,
        ],
        FontPlatform::Unknown => seq![
            "Courier New"@,
            "Arial"@,
            "Times New Roman"@,
            "Georgia"@,
            "Verdana"@,
        ],
    }
}

fn mac_fonts() -> (r: Vec<String>)
    ensures
        text::texts(r@) == usual_fonts(FontPlatform::Mac),
{
    let mut r: Vec<String> = Vec::new();
    r.push(text::lit("Menlo"));
    r.push(text::lit("Monaco"));
    r.push(text::lit("Courier New"));
    r.push(text::lit("Helvetica"));
    r.push(text::lit("Arial"));
    r.push(text::lit("Times New Roman"));
    r.push(text::lit("Georgia"));
    r.push(text::lit("Verdana"));
    assert(text::texts(r@) =~= usual_fonts(FontPlatform::Mac));
    r
}

fn linux_fonts() -> (r: Vec<String>)
    ensures
        text::texts(r@) == usual_fonts(FontPlatform::Linux),
{
    let mut r: Vec<String> = Vec::new();
    r.push(text::lit("DejaVu Sans"));
    r.push(text::lit("DejaVu Sans Mono"));
    r.push(text::lit("DejaVu Serif"));
    r.push(text::lit("Liberation Mono"));
    r.push(text::lit("Liberation Sans"));
    r.push(text::lit("Liberation Serif"));
    r.push(text::lit("Noto Sans"));
    r.push(text::lit("Noto Sans Mono"));
    assert(text::texts(r@) =~= usual_fonts(FontPlatform::Linux));
    r
}

fn windows_fonts() -> (r: Vec<String>)
    ensures
        text::texts(r@) == usual_fonts(FontPlatform::Windows),
{
    let mut r: Vec<String> = Vec::new();
    r.push(text::lit("Consolas"));
    r.push(text::lit("Cascadia Mono"));
    r.push(text::lit("Courier New"));
    r.push(text::lit("Arial"));
    r.push(text::lit("Calibri"));
    r.push(text::lit("Cambria"));
    r.push(text::lit("Times New Roman"));
    r.push(text::lit("Georgia"));
    r.push(text::lit("Verdana"));
    r.push(text::lit("Segoe UI"));
    r.push(text::lit("Tahoma"));
    r.push(text::lit("Trebuchet MS"));
    r.push(text::lit("Lucida Console"));
    r.push(text::lit("Comic Sans MS"));
    assert(text::texts(r@) =~= usual_fonts(FontPlatform::Windows));
    r
}

fn other_fonts() -> (r: Vec<String>)
    ensures
        text::texts(r@) == usual_fonts(FontPlatform::Unknown),
{
    let mut r: Vec<String> = Vec::new();
    r.push(text::lit("Courier New"));
    r.push(text::lit("Arial"));
    r.push(text::lit("Times New Roman"));
    r.push(text::lit("Georgia"));
    r.push(text::lit("Verdana"));
    assert(text::texts(r@) =~= usual_fonts(FontPlatform::Unknown));
    r
}

/// The fonts of a system: those that it listed, or the usual ones if it listed
/// none.
pub fn enumerate_system_fonts(platform: FontPlatform, listed: Vec<String>) -> (r: Vec<String>)
    ensures
        text::texts(r@) == if listed@.len() > 0 {
            text::texts(listed@)
        } else {
            usual_fonts(platform)
        },
{
    if listed.len() > 0 {
        return listed;
    }
    match platform {
        FontPlatform::Mac => mac_fonts(),
        FontPlatform::Linux => linux_fonts(),
        FontPlatform::Windows => windows_fonts(),
        FontPlatform::Unknown => other_fonts(),
    }
}

// ---------------------------------------------------------------------------
// The list that is shown
// ---------------------------------------------------------------------------

/// A text comes before another: it is a proper beginning of it, or it has the
/// smaller character where they differ first.
pub open spec fn comes_before(a: Seq<char>, b: Seq<char>) -> bool
    decreases a.len(),
{
    if b.len() == 0 {
        false
    } else if a.len() == 0 {
        true
    } else if a[0] == b[0] {
        comes_before(a.skip(1), b.skip(1))
    } else {
        a[0] < b[0]
    }
}

/// A font that is shown: its name is not empty, and not one of those for
/// internal use.
pub open spec fn is_shown(name: Seq<char>) -> bool {
    name.len() > 0 && name[0] != '.' && name[0] != '#'
}

/// A list in order, with nothing in it twice.
pub open spec fn ascending(v: Seq<Seq<char>>) -> bool {
    forall|i: int, j: int| 0 <= i < j < v.len() ==> comes_before(#[trigger] v[i], #[trigger] v[j])
}

/// How two texts stand in the order.
#[derive(Debug, Clone, Copy, PartialEq, Eq, Structural)]
enum Place {
    Before,
    Same,
    After,
}

proof fn lemma_prefix_before(a: Seq<char>, b: Seq<char>, n: nat)
    requires
        n <= a.len(),
        n <= b.len(),
        forall|k: int| 0 <= k < n ==> a[k] == b[k],
    ensures
        comes_before(a, b) == comes_before(a.skip(n as int), b.skip(n as int)),
    decreases n,
{
    if n == 0 {
        assert(a.skip(0) =~= a);
        assert(b.skip(0) =~= b);
    } else {
        let x = a.skip(1);
        let y = b.skip(1);
        assert forall|k: int| 0 <= k < n - 1 implies x[k] == y[k] by {
            assert(a[k + 1] == b[k + 1]);
        }
        lemma_prefix_before(x, y, (n - 1) as nat);
        assert(a[0] == b[0]);
        assert(x.skip(n - 1) =~= a.skip(n as int));
        assert(y.skip(n - 1) =~= b.skip(n as int));
    }
}

fn place(a: &str, b: &str) -> (r: Place)
    ensures
        match r {
            Place::Before => comes_before(a@, b@),
            Place::Same => a@ == b@,
            Place::After => comes_before(b@, a@),
        },
{
    let x = text::chars_of(a);
    let y = text::chars_of(b);
    let mut i: usize = 0;
    while i < x.len() && i < y.len()
        invariant
            i <= x@.len(),
            i <= y@.len(),
            x@ == a@,
            y@ == b@,
            forall|k: int| 0 <= k < i ==> x@[k] == y@[k],
        decreases x@.len() - i,
    {
        if x[i] != y[i] {
            proof {
                lemma_prefix_before(x@, y@, i as nat);
                lemma_prefix_before(y@, x@, i as nat);
                assert(x@.skip(i as int)[0] == x@[i as int]);
                assert(y@.skip(i as int)[0] == y@[i as int]);
            }
            return if x[i] < y[i] {
                Place::Before
            } else {
                Place::After
            };
        }
        i = i + 1;
    }
    proof {
        lemma_prefix_before(x@, y@, i as nat);
        lemma_prefix_before(y@, x@, i as nat);
    }
    if i < y.len() {
        Place::Before
    } else if i < x.len() {
        Place::After
    } else {
        assert(x@ =~= y@);
        Place::Same
    }
}

/// The order is one: what comes before what comes before a text comes before it.
pub proof fn the_order_is_transitive(a: Seq<char>, b: Seq<char>, c: Seq<char>)
    requires
        comes_before(a, b),
        comes_before(b, c),
    ensures
        comes_before(a, c),
    decreases a.len(),
{
    if a.len() > 0 {
        if a[0] == b[0] && b[0] == c[0] {
            the_order_is_transitive(a.skip(1), b.skip(1), c.skip(1));
        }
    }
}

/// Nothing comes before itself.
pub proof fn nothing_comes_before_itself(a: Seq<char>)
    ensures
        !comes_before(a, a),
    decreases a.len(),
{
    if a.len() > 0 {
        nothing_comes_before_itself(a.skip(1));
    }
}

/// A name in a list.
pub open spec fn listed(v: Seq<Seq<char>>, name: Seq<char>) -> bool {
    exists|i: int| 0 <= i < v.len() && #[trigger] v[i] == name
}

/// Put a name into its place, unless it is there.
fn insert_name(v: &mut Vec<String>, name: &String)
    requires
        ascending(text::texts(old(v)@)),
    ensures
        ascending(text::texts(final(v)@)),
        forall|n: Seq<char>| #[trigger]
            listed(text::texts(final(v)@), n) <==> listed(text::texts(old(v)@), n) || n == name@,
{
    let ghost before = text::texts(v@);
    let mut i: usize = 0;
    while i < v.len()
        invariant
            i <= v@.len(),
            before == text::texts(v@),
            before == text::texts(old(v)@),
            ascending(before),
            forall|k: int| 0 <= k < i ==> comes_before(#[trigger] before[k], name@),
        decreases v@.len() - i,
    {
        assert(before[i as int] == v@[i as int]@);
        match place(v[i].as_str(), name.as_str()) {
            Place::Before => {},
            Place::Same => {
                assert(listed(before, name@));
                return;
            },
            Place::After => {
                proof {
                    assert forall|k: int| i <= k < before.len() implies comes_before(
                        name@,
                        #[trigger] before[k],
                    ) by {
                        if k > i {
                            assert(comes_before(before[i as int], before[k]));
                            the_order_is_transitive(name@, before[i as int], before[k]);
                        }
                    }
                }
                v.insert(i, name.clone());
                proof {
                    lemma_inserted(before, text::texts(v@), i as int, name@);
                }
                return;
            },
        }
        i = i + 1;
    }
    let ghost n = v@.len();
    v.push(name.clone());
    proof {
        lemma_inserted(before, text::texts(v@), n as int, name@);
    }
}

proof fn lemma_inserted(before: Seq<Seq<char>>, after: Seq<Seq<char>>, i: int, name: Seq<char>)
    requires
        0 <= i <= before.len(),
        after =~= before.insert(i, name),
        ascending(before),
        forall|k: int| 0 <= k < i ==> comes_before(#[trigger] before[k], name),
        forall|k: int| i <= k < before.len() ==> comes_before(name, #[trigger] before[k]),
    ensures
        ascending(after),
        forall|n: Seq<char>| #[trigger]
            listed(after, n) <==> listed(before, n) || n == name,
{
    assert forall|n: Seq<char>| #[trigger]
        listed(after, n) <==> listed(before, n) || n == name by {
        if listed(before, n) {
            let k = choose|k: int| 0 <= k < before.len() && #[trigger] before[k] == n;
            if k < i {
                assert(after[k] == n);
            } else {
                assert(after[k + 1] == n);
            }
        }
        if n == name {
            assert(after[i] == n);
        }
        if listed(after, n) && n != name {
            let k = choose|k: int| 0 <= k < after.len() && #[trigger] after[k] == n;
            if k < i {
                assert(before[k] == n);
            } else {
                assert(before[k - 1] == n);
            }
        }
    }
    assert forall|a: int, b: int| 0 <= a < b < after.len() implies comes_before(
        #[trigger] after[a],
        #[trigger] after[b],
    ) by {
        let x = if a < i { a } else { a - 1 };
        let y = if b < i { b } else { b - 1 };
        if a != i && b != i {
            assert(after[a] == before[x]);
            assert(after[b] == before[y]);
        } else if a == i {
            assert(after[b] == before[y]);
        } else {
            assert(after[a] == before[x]);
        }
    }
}

fn shown(name: &str) -> (r: bool)
    ensures
        r == is_shown(name@),
{
    let v = text::chars_of(name);
    v.len() > 0 && v[0] != '.' && v[0] != '#'
}

/// The fonts that can be chosen: each one that is shown, once, in order.
pub fn enumerate_fonts(fonts: &Vec<String>) -> (r: Vec<String>)
    ensures
        ascending(text::texts(r@)),
        forall|n: Seq<char>| #[trigger]
            listed(text::texts(r@), n) <==> listed(text::texts(fonts@), n) && is_shown(n),
{
    let ghost all = text::texts(fonts@);
    let mut r: Vec<String> = Vec::new();
    let mut i: usize = 0;
    while i < fonts.len()
        invariant
            i <= fonts@.len(),
            all == text::texts(fonts@),
            ascending(text::texts(r@)),
            forall|n: Seq<char>| #[trigger]
                listed(text::texts(r@), n) <==> listed(all.take(i as int), n) && is_shown(n),
        decreases fonts@.len() - i,
    {
        let name = &fonts[i];
        let ghost was = text::texts(r@);
        if shown(name.as_str()) {
            insert_name(&mut r, name);
        }
        proof {
            let now = all.take(i + 1);
            let before = all.take(i as int);
            assert(now[i as int] == name@);
            assert forall|n: Seq<char>| #[trigger]
                listed(text::texts(r@), n) <==> listed(now, n) && is_shown(n) by {
                assert(listed(was, n) <==> listed(before, n) && is_shown(n));
                if listed(before, n) {
                    let k = choose|k: int| 0 <= k < before.len() && #[trigger] before[k] == n;
                    assert(now[k] == n);
                }
                if listed(now, n) && n != name@ {
                    let k = choose|k: int| 0 <= k < now.len() && #[trigger] now[k] == n;
                    assert(before[k] == n);
                }
            }
        }
        i = i + 1;
    }
    assert(all.take(all.len() as int) =~= all);
    r
}

// ---------------------------------------------------------------------------
// Laws
// ---------------------------------------------------------------------------

/// Of two different names one comes before the other, a shorter beginning of a name first, and names go by their first
/// different character.
pub proof fn names_are_in_one_order(a: Seq<char>, b: Seq<char>, c: char, d: char)
    ensures
        a != b ==> comes_before(a, b) || comes_before(b, a),
        comes_before(a, a.push(c)),
        c < d ==> comes_before(a.push(c), a.push(d)),
    decreases a.len(),
{
    if a.len() > 0 {
        let x = a.skip(1);
        assert(a.push(c).skip(1) =~= x.push(c));
        assert(a.push(d).skip(1) =~= x.push(d));
        if b.len() > 0 && a[0] == b[0] {
            names_are_in_one_order(x, b.skip(1), c, d);
            if x == b.skip(1) {
                assert(a =~= seq![a[0]] + x);
                assert(b =~= seq![b[0]] + b.skip(1));
            }
        } else {
            names_are_in_one_order(x, Seq::empty(), c, d);
        }
    } else {
        if b.len() == 0 {
            assert(a =~= b);
        }
    }
}

/// A font is named by what stands before the first comma of its line, without the white space around it; lines without a
/// name name none. Names that begin with a dot or a number sign are not shown.
pub proof fn fonts_are_named_by_their_lines(lines: Seq<Seq<char>>, line: Seq<char>, name: Seq<char>)
    ensures
        !line.contains(',') ==> font_name(line) == text::trimmed(line),
        font_name(line).len() > 0 ==> font_names(lines.push(line)) == font_names(lines).push(
            font_name(line),
        ),
        font_name(line).len() == 0 ==> font_names(lines.push(line)) == font_names(lines),
        is_shown(name) <==> name.len() > 0 && name[0] != '.' && name[0] != '#',
{
    assert(lines.push(line).drop_last() =~= lines);
    if !line.contains(',') {
        lemma_whole(line);
    }
}

proof fn lemma_whole(s: Seq<char>)
    requires
        !s.contains(','),
    ensures
        text::split(s, ',') == seq![s],
    decreases s.len(),
{
    if s.len() > 0 {
        let t = s.drop_last();
        if t.contains(',') {
            let k = choose|k: int| 0 <= k < t.len() && t[k] == ',';
            assert(s[k] == ',');
        }
        lemma_whole(t);
        assert(s[s.len() - 1] == s.last());
        assert(t.push(s.last()) =~= s);
        assert(text::split(s, ',') =~= seq![s]);
    } else {
        assert(s =~= Seq::empty());
    }
}

} // verus!
