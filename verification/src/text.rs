//! Text over characters: the small string operations that the rest of the
//! library is written in, each with its meaning as a sequence of characters.

use vstd::prelude::*;

verus! {

/// `String::push`: the character becomes the last one.
pub assume_specification[ String::push ](s: &mut String, c: char)
    ensures
        final(s)@ == old(s)@.push(c),
;

/// `String::pop`: the last character, if there is one, is taken off and handed
/// out.
pub assume_specification[ String::pop ](s: &mut String) -> (r: Option<char>)
    ensures
        old(s)@.len() == 0 ==> r is None && final(s)@ == old(s)@,
        old(s)@.len() > 0 ==> r == Some(old(s)@.last()) && final(s)@ == old(s)@.drop_last(),
;

/// The text of an optional string.
pub open spec fn opt_text(s: Option<String>) -> Option<Seq<char>> {
    match s {
        Some(t) => Some(t@),
        None => None,
    }
}

/// An owned copy of a piece of text.
pub fn lit(s: &str) -> (r: String)
    ensures
        r@ == s@,
{
    s.to_owned()
}

/// Whether two pieces of text are the same.
pub fn str_eq(a: &str, b: &str) -> (r: bool)
    ensures
        r == (a@ == b@),
{
    a.to_owned() == b.to_owned()
}

/// The characters of a text, in order.
pub fn chars_of(s: &str) -> (v: Vec<char>)
    ensures
        v@ == s@,
{
    let mut v: Vec<char> = Vec::new();
    for c in it: s.chars()
        invariant
            it.seq() == s@,
            v@ == s@.take(it.index() as int),
    {
        v.push(c);
        assert(v@ =~= s@.take(it.index() + 1));
    }
    assert(s@.take(s@.len() as int) =~= s@);
    v
}

/// The text `a` with `b` behind it.
pub fn cat(a: &str, b: &str) -> (r: String)
    ensures
        r@ == a@ + b@,
{
    let mut s = a.to_owned();
    s.append(b);
    s
}

/// `a`, `b` and `c` in a row.
pub fn cat3(a: &str, b: &str, c: &str) -> (r: String)
    ensures
        r@ == a@ + b@ + c@,
{
    let mut s = a.to_owned();
    s.append(b);
    s.append(c);
    s
}

// ---------------------------------------------------------------------------
// Numbers in decimal
// ---------------------------------------------------------------------------

/// The character for a digit below ten.
pub open spec fn digit(d: nat) -> char {
    (48 + d) as char
}

/// A number in decimal, without leading zeros.
pub open spec fn dec(n: nat) -> Seq<char>
    decreases n,
{
    if n < 10 {
        seq![digit(n)]
    } else {
        dec(n / 10).push(digit(n % 10))
    }
}

/// A number in decimal, with zeros in front up to a width of `width`.
pub open spec fn dec_padded(n: nat, width: nat) -> Seq<char> {
    if dec(n).len() >= width {
        dec(n)
    } else {
        Seq::new((width - dec(n).len()) as nat, |i: int| '0') + dec(n)
    }
}

pub fn decimal(n: u64) -> (r: String)
    ensures
        r@ == dec(n as nat),
    decreases n,
{
    let d: u8 = (n % 10) as u8;
    let c: char = (48 + d) as char;
    if n < 10 {
        let mut s = String::new();
        s.push(c);
        assert(s@ =~= dec(n as nat));
        s
    } else {
        let mut s = decimal(n / 10);
        s.push(c);
        s
    }
}

pub fn decimal_padded(n: u64, width: usize) -> (r: String)
    ensures
        r@ == dec_padded(n as nat, width as nat),
{
    let d = decimal(n);
    let len: usize = d.as_str().unicode_len();
    if len >= width {
        return d;
    }
    let mut s = String::new();
    let mut i: usize = 0;
    while i < width - len
        invariant
            i <= width - len,
            s@ =~= Seq::new(i as nat, |j: int| '0'),
        decreases width - len - i,
    {
        s.push('0');
        i = i + 1;
    }
    s.append(d.as_str());
    s
}

// ---------------------------------------------------------------------------
// Looking into a text
// ---------------------------------------------------------------------------

pub open spec fn has_prefix(s: Seq<char>, p: Seq<char>) -> bool {
    p.len() <= s.len() && s.take(p.len() as int) == p
}

pub open spec fn has_suffix(s: Seq<char>, p: Seq<char>) -> bool {
    p.len() <= s.len() && s.skip(s.len() - p.len()) == p
}

/// `p` stands in `s` from position `i` on.
pub open spec fn occurs_at(s: Seq<char>, p: Seq<char>, i: int) -> bool {
    0 <= i && i + p.len() <= s.len() && s.subrange(i, i + p.len()) == p
}

pub open spec fn contains_text(s: Seq<char>, p: Seq<char>) -> bool {
    exists|i: int| occurs_at(s, p, i)
}

/// Whether `p` stands in `s` from position `i` on, over character vectors.
fn matches_at(s: &Vec<char>, p: &Vec<char>, i: usize) -> (r: bool)
    ensures
        r == occurs_at(s@, p@, i as int),
{
    if p.len() > s.len() || i > s.len() - p.len() {
        return false;
    }
    let mut j: usize = 0;
    while j < p.len()
        invariant
            j <= p.len(),
            i + p.len() <= s.len(),
            forall|k: int| 0 <= k < j ==> s@[i + k] == p@[k],
        decreases p.len() - j,
    {
        if s[i + j] != p[j] {
            assert(s@.subrange(i as int, i + p.len())[j as int] != p@[j as int]);
            return false;
        }
        j = j + 1;
    }
    assert(s@.subrange(i as int, i + p.len()) =~= p@);
    true
}

/// The first position at or after `from` where `p` stands in `s`.
pub fn find_from(s: &Vec<char>, p: &Vec<char>, from: usize) -> (r: Option<usize>)
    ensures
        r is None ==> forall|i: int| from <= i ==> !occurs_at(s@, p@, i),
        r matches Some(k) ==> from <= k && occurs_at(s@, p@, k as int) && forall|i: int|
            from <= i < k ==> !occurs_at(s@, p@, i),
{
    let mut i: usize = from;
    while i <= s.len()
        invariant
            from <= i,
            i <= s.len() + 1 || i == from,
            forall|k: int| from <= k < i ==> !occurs_at(s@, p@, k),
        decreases s.len() + 1 - i,
    {
        if matches_at(s, p, i) {
            return Some(i);
        }
        if i == s.len() {
            return None;
        }
        i = i + 1;
    }
    None
}

pub fn starts_with(s: &str, p: &str) -> (r: bool)
    ensures
        r == has_prefix(s@, p@),
{
    let sv = chars_of(s);
    let pv = chars_of(p);
    assert(p@.len() <= s@.len() ==> s@.subrange(0, p@.len() as int) =~= s@.take(p@.len() as int));
    matches_at(&sv, &pv, 0)
}

pub fn ends_with(s: &str, p: &str) -> (r: bool)
    ensures
        r == has_suffix(s@, p@),
{
    let sv = chars_of(s);
    let pv = chars_of(p);
    if pv.len() > sv.len() {
        return false;
    }
    assert(s@.subrange(s@.len() - p@.len(), s@.len() as int) =~= s@.skip(s@.len() - p@.len()));
    matches_at(&sv, &pv, sv.len() - pv.len())
}

pub fn contains(s: &str, p: &str) -> (r: bool)
    ensures
        r == contains_text(s@, p@),
{
    let sv = chars_of(s);
    let pv = chars_of(p);
    let r = find_from(&sv, &pv, 0);
    proof {
        if let Some(k) = r {
            assert(occurs_at(s@, p@, k as int));
        }
    }
    r.is_some()
}

// ---------------------------------------------------------------------------
// White space
// ---------------------------------------------------------------------------

/// The characters with the Unicode property `White_Space`.
pub open spec fn is_white(c: char) -> bool {
    let u = c as u32;
    9 <= u <= 13 || u == 0x20 || u == 0x85 || u == 0xA0 || u == 0x1680 || 0x2000 <= u <= 0x200A
        || u == 0x2028 || u == 0x2029 || u == 0x202F || u == 0x205F || u == 0x3000
}

pub fn white(c: char) -> (r: bool)
    ensures
        r == is_white(c),
{
    let u: u32 = c as u32;
    (9 <= u && u <= 13) || u == 0x20 || u == 0x85 || u == 0xA0 || u == 0x1680 || (0x2000 <= u && u
        <= 0x200A) || u == 0x2028 || u == 0x2029 || u == 0x202F || u == 0x205F || u == 0x3000
}

/// `s` without its leading white space.
pub open spec fn trim_start(s: Seq<char>) -> Seq<char>
    decreases s.len(),
{
    if s.len() > 0 && is_white(s[0]) {
        trim_start(s.skip(1))
    } else {
        s
    }
}

/// `s` without its trailing white space.
pub open spec fn trim_end(s: Seq<char>) -> Seq<char>
    decreases s.len(),
{
    if s.len() > 0 && is_white(s.last()) {
        trim_end(s.drop_last())
    } else {
        s
    }
}

/// `s` without the white space around it.
pub open spec fn trimmed(s: Seq<char>) -> Seq<char> {
    trim_end(trim_start(s))
}

/// The characters of `v` from `from` up to `to`.
pub fn slice_text(v: &Vec<char>, from: usize, to: usize) -> (r: String)
    requires
        from <= to <= v.len(),
    ensures
        r@ == v@.subrange(from as int, to as int),
{
    let mut s = String::new();
    let mut i: usize = from;
    while i < to
        invariant
            from <= i <= to <= v.len(),
            s@ == v@.subrange(from as int, i as int),
        decreases to - i,
    {
        s.push(v[i]);
        i = i + 1;
        assert(s@ =~= v@.subrange(from as int, i as int));
    }
    s
}

pub fn trim(s: &str) -> (r: String)
    ensures
        r@ == trimmed(s@),
{
    let v = chars_of(s);
    let mut a: usize = 0;
    assert(s@.skip(0) =~= s@);
    while a < v.len() && white(v[a])
        invariant
            v@ == s@,
            a <= v.len(),
            trim_start(s@) == trim_start(s@.skip(a as int)),
        decreases v.len() - a,
    {
        assert(s@.skip(a as int).skip(1) =~= s@.skip(a + 1));
        a = a + 1;
    }
    let ghost t = s@.skip(a as int);
    assert(trim_start(s@) == t);
    let mut b: usize = v.len();
    assert(v@.subrange(a as int, b as int) =~= t);
    while b > a && white(v[b - 1])
        invariant
            v@ == s@,
            a <= b <= v.len(),
            trim_end(t) == trim_end(v@.subrange(a as int, b as int)),
        decreases b,
    {
        assert(v@.subrange(a as int, b as int).drop_last() =~= v@.subrange(a as int, b - 1));
        assert(v@.subrange(a as int, b as int).last() == v@[b - 1]);
        b = b - 1;
    }
    proof {
        if b > a {
            assert(v@.subrange(a as int, b as int).last() == v@[b - 1]);
        }
    }
    slice_text(&v, a, b)
}

// ---------------------------------------------------------------------------
// Reading numbers
// ---------------------------------------------------------------------------

pub open spec fn is_digit(c: char) -> bool {
    48 <= c as u32 <= 57
}

pub open spec fn all_digits(s: Seq<char>) -> bool {
    forall|i: int| 0 <= i < s.len() ==> is_digit(#[trigger] s[i])
}

/// The value of a row of digits.
pub open spec fn digits_value(s: Seq<char>) -> nat
    decreases s.len(),
{
    if s.len() == 0 {
        0
    } else {
        digits_value(s.drop_last()) * 10 + (s.last() as u32 - 48) as nat
    }
}

/// `s` without one leading plus sign.
pub open spec fn without_plus(s: Seq<char>) -> Seq<char> {
    if s.len() > 0 && s[0] == '+' {
        s.skip(1)
    } else {
        s
    }
}

/// The number that a text stands for, read as a position: digits, behind an
/// optional plus sign, whose value can be counted.
pub open spec fn position_of(s: Seq<char>) -> Option<usize> {
    let d = without_plus(s);
    if d.len() > 0 && all_digits(d) && digits_value(d) <= usize::MAX {
        Some(digits_value(d) as usize)
    } else {
        None
    }
}

proof fn lemma_value_grows(s: Seq<char>, i: int)
    requires
        0 <= i <= s.len(),
        all_digits(s),
    ensures
        digits_value(s.take(i)) <= digits_value(s),
    decreases s.len() - i,
{
    if i == s.len() {
        assert(s.take(i) =~= s);
    } else {
        lemma_value_grows(s, i + 1);
        assert(s.take(i + 1).drop_last() =~= s.take(i));
        assert(is_digit(s[i]));
        assert(s.take(i + 1).last() == s[i]);
    }
}

/// Read a text as a position.
pub fn parse_position(s: &str) -> (r: Option<usize>)
    ensures
        r == position_of(s@),
{
    let v = chars_of(s);
    let start: usize = if v.len() > 0 && v[0] == '+' {
        1
    } else {
        0
    };
    let ghost d = without_plus(s@);
    assert(d =~= v@.skip(start as int));
    if start == v.len() {
        return None;
    }
    let mut i: usize = start;
    let mut n: usize = 0;
    assert(d.take(0) =~= Seq::<char>::empty());
    while i < v.len()
        invariant
            start <= i <= v.len(),
            start <= 1,
            v@ == s@,
            d == without_plus(s@),
            d == v@.skip(start as int),
            forall|j: int| 0 <= j < i - start ==> is_digit(#[trigger] d[j]),
            n == digits_value(d.take(i - start)),
            start < v.len(),
        decreases v.len() - i,
    {
        let u: u32 = v[i] as u32;
        if u < 48 || u > 57 {
            assert(!is_digit(d[i - start]));
            return None;
        }
        let x: usize = (u - 48) as usize;
        proof {
            assert(d.take(i - start + 1).drop_last() =~= d.take(i - start));
            assert(d.take(i - start + 1).last() == d[i - start]);
            if all_digits(d) {
                lemma_value_grows(d, i - start + 1);
            }
        }
        if n > (usize::MAX - x) / 10 {
            proof {
                assert(n * 10 + x > usize::MAX) by {
                    assert(((usize::MAX - x) / 10) * 10 + 9 >= usize::MAX - x);
                }
            }
            return None;
        }
        n = n * 10 + x;
        i = i + 1;
    }
    assert(d.take(d.len() as int) =~= d);
    Some(n)
}

proof fn lemma_dec_digits(n: nat)
    ensures
        dec(n).len() > 0,
        all_digits(dec(n)),
        digits_value(dec(n)) == n,
    decreases n,
{
    if n < 10 {
        assert(dec(n) =~= seq![digit(n)]);
        assert(dec(n).drop_last() =~= Seq::<char>::empty());
        assert(digits_value(Seq::<char>::empty()) == 0);
    } else {
        lemma_dec_digits(n / 10);
        assert(dec(n).drop_last() =~= dec(n / 10));
        assert forall|i: int| 0 <= i < dec(n).len() implies is_digit(#[trigger] dec(n)[i]) by {
            if i < dec(n).len() - 1 {
                assert(dec(n)[i] == dec(n / 10)[i]);
                assert(is_digit(dec(n / 10)[i]));
            }
        }
    }
}

/// A position reads back from its decimal text.
pub proof fn position_reads_back(n: usize)
    ensures
        position_of(dec(n as nat)) == Some(n),
{
    lemma_dec_digits(n as nat);
    assert(is_digit(dec(n as nat)[0]));
    assert(without_plus(dec(n as nat)) == dec(n as nat));
}

/// `c` is the lower-case ASCII letter `l`, or its upper-case form.
pub open spec fn is_letter(c: char, l: char) -> bool {
    c as u32 == l as u32 || c as u32 + 32 == l as u32
}

/// `s` is `word`, written in lower-case ASCII letters, in whatever case.
pub open spec fn is_word(s: Seq<char>, word: Seq<char>) -> bool {
    s.len() == word.len() && forall|i: int|
        0 <= i < s.len() ==> is_letter(#[trigger] s[i], word[i])
}

/// The position of the first character with one of two codes, or the length.
pub open spec fn first_of(s: Seq<char>, a: char, b: char) -> int
    decreases s.len(),
{
    if s.len() == 0 || s[0] == a || s[0] == b {
        0
    } else {
        1 + first_of(s.skip(1), a, b)
    }
}

/// Digits with at most one decimal point among them, and at least one digit.
pub open spec fn is_mantissa(s: Seq<char>) -> bool {
    let dot = first_of(s, '.', '.');
    if dot == s.len() {
        s.len() > 0 && all_digits(s)
    } else {
        all_digits(s.take(dot)) && all_digits(s.skip(dot + 1)) && s.len() > 1
    }
}

/// Digits behind an optional sign.
pub open spec fn is_exponent(s: Seq<char>) -> bool {
    let d = if s.len() > 0 && (s[0] == '+' || s[0] == '-') {
        s.skip(1)
    } else {
        s
    };
    d.len() > 0 && all_digits(d)
}

/// A mantissa, or a mantissa and an exponent with an `e` between them.
pub open spec fn is_unsigned_number(s: Seq<char>) -> bool {
    let e = first_of(s, 'e', 'E');
    if e == s.len() {
        is_mantissa(s)
    } else {
        is_mantissa(s.take(e)) && is_exponent(s.skip(e + 1))
    }
}

/// The texts that read as a number: a decimal number with an optional sign and
/// exponent, or an infinity or not-a-number by name.
pub open spec fn is_number_text(s: Seq<char>) -> bool {
    let b = if s.len() > 0 && (s[0] == '+' || s[0] == '-') {
        s.skip(1)
    } else {
        s
    };
    is_word(b, seq!['i', 'n', 'f']) || is_word(
        b,
        seq!['i', 'n', 'f', 'i', 'n', 'i', 't', 'y'],
    ) || is_word(b, seq!['n', 'a', 'n']) || is_unsigned_number(b)
}

proof fn lemma_first_of(s: Seq<char>, a: char, b: char, k: int)
    requires
        0 <= k <= s.len(),
        forall|i: int| 0 <= i < k ==> #[trigger] s[i] != a && s[i] != b,
        k < s.len() ==> s[k] == a || s[k] == b,
    ensures
        first_of(s, a, b) == k,
    decreases s.len(),
{
    if k > 0 {
        let t = s.skip(1);
        assert forall|i: int| 0 <= i < k - 1 implies #[trigger] t[i] != a && t[i] != b by {
            assert(t[i] == s[i + 1]);
        }
        assert(s[0] != a && s[0] != b);
        lemma_first_of(t, a, b, k - 1);
    }
}

fn position_of_first(v: &Vec<char>, from: usize, to: usize, a: char, b: char) -> (r: usize)
    requires
        from <= to <= v.len(),
    ensures
        from <= r <= to,
        r - from == first_of(v@.subrange(from as int, to as int), a, b),
{
    let mut i: usize = from;
    while i < to && v[i] != a && v[i] != b
        invariant
            from <= i <= to <= v.len(),
            forall|j: int| from <= j < i ==> #[trigger] v@[j] != a && v@[j] != b,
        decreases to - i,
    {
        i = i + 1;
    }
    proof {
        lemma_first_of(v@.subrange(from as int, to as int), a, b, i - from);
    }
    i
}

fn digits_between(v: &Vec<char>, from: usize, to: usize) -> (r: bool)
    requires
        from <= to <= v.len(),
    ensures
        r == all_digits(v@.subrange(from as int, to as int)),
{
    let mut i: usize = from;
    while i < to
        invariant
            from <= i <= to <= v.len(),
            forall|j: int| from <= j < i ==> is_digit(#[trigger] v@[j]),
        decreases to - i,
    {
        let u: u32 = v[i] as u32;
        if u < 48 || u > 57 {
            assert(!is_digit(v@.subrange(from as int, to as int)[i - from]));
            return false;
        }
        i = i + 1;
    }
    true
}

fn mantissa_between(v: &Vec<char>, from: usize, to: usize) -> (r: bool)
    requires
        from <= to <= v.len(),
    ensures
        r == is_mantissa(v@.subrange(from as int, to as int)),
{
    let ghost s = v@.subrange(from as int, to as int);
    let dot = position_of_first(v, from, to, '.', '.');
    if dot == to {
        from < to && digits_between(v, from, to)
    } else {
        assert(s.take(dot - from) =~= v@.subrange(from as int, dot as int));
        assert(s.skip(dot - from + 1) =~= v@.subrange(dot + 1, to as int));
        digits_between(v, from, dot) && digits_between(v, dot + 1, to) && to - from > 1
    }
}

fn exponent_from(v: &Vec<char>, from: usize) -> (r: bool)
    requires
        from <= v.len(),
    ensures
        r == is_exponent(v@.skip(from as int)),
{
    let ghost s = v@.skip(from as int);
    let start: usize = if from < v.len() && (v[from] == '+' || v[from] == '-') {
        from + 1
    } else {
        from
    };
    assert(v@.subrange(start as int, v@.len() as int) =~= v@.skip(start as int));
    assert(start == from + 1 ==> s.skip(1) =~= v@.skip(start as int));
    start < v.len() && digits_between(v, start, v.len())
}

fn unsigned_number_from(v: &Vec<char>, from: usize) -> (r: bool)
    requires
        from <= v.len(),
    ensures
        r == is_unsigned_number(v@.skip(from as int)),
{
    let ghost s = v@.skip(from as int);
    assert(v@.subrange(from as int, v@.len() as int) =~= s);
    let e = position_of_first(v, from, v.len(), 'e', 'E');
    if e == v.len() {
        mantissa_between(v, from, v.len())
    } else {
        assert(s.take(e - from) =~= v@.subrange(from as int, e as int));
        assert(s.skip(e - from + 1) =~= v@.skip(e + 1));
        mantissa_between(v, from, e) && exponent_from(v, e + 1)
    }
}

fn word_from(v: &Vec<char>, from: usize, word: &Vec<char>) -> (r: bool)
    requires
        from <= v.len(),
        forall|i: int| 0 <= i < word@.len() ==> 97 <= #[trigger] word@[i] as u32 <= 122,
    ensures
        r == is_word(v@.skip(from as int), word@),
{
    let ghost s = v@.skip(from as int);
    if v.len() - from != word.len() {
        return false;
    }
    let mut i: usize = 0;
    while i < word.len()
        invariant
            i <= word.len(),
            from <= v.len(),
            v.len() - from == word.len(),
            s == v@.skip(from as int),
            forall|j: int| 0 <= j < word@.len() ==> 97 <= #[trigger] word@[j] as u32 <= 122,
            forall|j: int| 0 <= j < i ==> is_letter(#[trigger] s[j], word@[j]),
        decreases word.len() - i,
    {
        let c: u32 = v[from + i] as u32;
        let l: u32 = word[i] as u32;
        assert(s[i as int] == v@[from + i]);
        assert(97 <= word@[i as int] as u32 <= 122);
        if c != l && c != l - 32 {
            assert(!is_letter(s[i as int], word@[i as int]));
            return false;
        }
        assert(is_letter(s[i as int], word@[i as int]));
        i = i + 1;
    }
    true
}

/// Whether a text reads as a number.
pub fn reads_as_number(s: &str) -> (r: bool)
    ensures
        r == is_number_text(s@),
{
    let v = chars_of(s);
    let start: usize = if v.len() > 0 && (v[0] == '+' || v[0] == '-') {
        1
    } else {
        0
    };
    assert(v@.skip(0) =~= v@);
    let inf: Vec<char> = vec!['i', 'n', 'f'];
    let infinity: Vec<char> = vec!['i', 'n', 'f', 'i', 'n', 'i', 't', 'y'];
    let nan: Vec<char> = vec!['n', 'a', 'n'];
    assert(inf@ =~= seq!['i', 'n', 'f']);
    assert(infinity@ =~= seq!['i', 'n', 'f', 'i', 'n', 'i', 't', 'y']);
    assert(nan@ =~= seq!['n', 'a', 'n']);
    word_from(&v, start, &inf) || word_from(&v, start, &infinity) || word_from(&v, start, &nan)
        || unsigned_number_from(&v, start)
}

// ---------------------------------------------------------------------------
// What the standard library decides about characters
// ---------------------------------------------------------------------------

/// A text in quotes with its special characters escaped, as the standard
/// library's debug output of a string writes it.
pub uninterp spec fn debug_quoted(s: Seq<char>) -> Seq<char>;

/// A text in lower case, by the standard library's Unicode tables.
pub uninterp spec fn lowercased(s: Seq<char>) -> Seq<char>;

/// The `Debug` output of `str`: the text in quotes, escaped.
#[verifier::external_body]
pub(crate) fn debug_quote(s: &str) -> (r: String)
    ensures
        r@ == debug_quoted(s@),
{
    format!("{:?}", s)
}

/// The lower-case form of an ASCII character.
pub open spec fn ascii_lower(c: char) -> char {
    if 65 <= c as u32 <= 90 {
        (c as u32 + 32) as char
    } else {
        c
    }
}

/// `str::to_lowercase`: the text in lower case. On a text of ASCII characters
/// alone it turns the letters A to Z into a to z.
#[verifier::external_body]
pub(crate) fn to_lowercase(s: &str) -> (r: String)
    ensures
        r@ == lowercased(s@),
        (forall|i: int| 0 <= i < s@.len() ==> (#[trigger] s@[i] as u32) < 128) ==> r@
            == s@.map_values(|c: char| ascii_lower(c)),
{
    s.to_lowercase()
}

// ---------------------------------------------------------------------------
// Lengths in bytes
// ---------------------------------------------------------------------------

/// The number of bytes that a character takes in UTF-8.
pub open spec fn utf8_width(c: char) -> nat {
    if (c as u32) < 0x80 {
        1
    } else if (c as u32) < 0x800 {
        2
    } else if (c as u32) < 0x10000 {
        3
    } else {
        4
    }
}

/// The number of bytes that a text takes in UTF-8.
pub open spec fn utf8_len(s: Seq<char>) -> nat
    decreases s.len(),
{
    if s.len() == 0 {
        0
    } else {
        utf8_len(s.drop_last()) + utf8_width(s.last())
    }
}

/// The longest beginning of a text that takes no more than `n` bytes.
pub open spec fn byte_prefix(s: Seq<char>, n: nat) -> Seq<char>
    decreases s.len(),
{
    if s.len() == 0 || utf8_len(s) <= n {
        s
    } else {
        byte_prefix(s.drop_last(), n)
    }
}

/// A character of the text ends at its `n`th byte.
pub open spec fn has_boundary(s: Seq<char>, n: nat) -> bool {
    utf8_len(byte_prefix(s, n)) == n
}

fn char_width(c: char) -> (w: u128)
    ensures
        w == utf8_width(c),
{
    let u: u32 = c as u32;
    if u < 0x80 {
        1
    } else if u < 0x800 {
        2
    } else if u < 0x10000 {
        3
    } else {
        4
    }
}

fn bytes_in(v: &Vec<char>) -> (n: u128)
    ensures
        n == utf8_len(v@),
        n <= 4 * v@.len(),
{
    let mut n: u128 = 0;
    let mut i: usize = 0;
    while i < v.len()
        invariant
            i <= v@.len(),
            n == utf8_len(v@.take(i as int)),
            n <= 4 * i,
        decreases v@.len() - i,
    {
        assert(v@.take(i + 1).drop_last() =~= v@.take(i as int));
        n = n + char_width(v[i]);
        i = i + 1;
    }
    assert(v@.take(v@.len() as int) =~= v@);
    n
}

/// Whether a text takes more than `n` bytes.
pub fn longer_than(s: &str, n: u64) -> (r: bool)
    ensures
        r == (utf8_len(s@) > n),
{
    let v = chars_of(s);
    bytes_in(&v) > n as u128
}

/// The longest beginning of a text that takes no more than `n` bytes.
pub fn cut_bytes(s: &str, n: u64) -> (r: String)
    ensures
        r@ == byte_prefix(s@, n as nat),
{
    let v = chars_of(s);
    let mut total: u128 = bytes_in(&v);
    let mut k: usize = v.len();
    assert(v@.take(v@.len() as int) =~= v@);
    while k > 0 && total > n as u128
        invariant
            k <= v@.len(),
            total == utf8_len(v@.take(k as int)),
            byte_prefix(v@.take(k as int), n as nat) == byte_prefix(v@, n as nat),
        decreases k,
    {
        assert(v@.take(k as int).drop_last() =~= v@.take(k - 1));
        assert(v@.take(k as int).last() == v@[k - 1]);
        total = total - char_width(v[k - 1]);
        k = k - 1;
    }
    slice_text(&v, 0, k)
}

/// The number of bytes that a text takes, if it is below `n`, else `n`.
pub open spec fn bytes_up_to(s: Seq<char>, n: nat) -> nat {
    if utf8_len(s) < n {
        utf8_len(s)
    } else {
        n
    }
}

/// The number of bytes that a text takes, but no more than `n`.
pub fn clamp_bytes(s: &str, n: usize) -> (r: usize)
    ensures
        r == bytes_up_to(s@, n as nat),
{
    let v = chars_of(s);
    let total: u128 = bytes_in(&v);
    if total < n as u128 {
        total as usize
    } else {
        n
    }
}

/// The number of bytes that a text takes.
pub fn byte_count(s: &str) -> (r: usize)
    requires
        utf8_len(s@) <= usize::MAX,
    ensures
        r == utf8_len(s@),
{
    let v = chars_of(s);
    bytes_in(&v) as usize
}

pub proof fn lemma_byte_prefix(s: Seq<char>, n: nat)
    ensures
        byte_prefix(s, n).len() <= s.len(),
        byte_prefix(s, n) == s.take(byte_prefix(s, n).len() as int),
    decreases s.len(),
{
    if s.len() == 0 || utf8_len(s) <= n {
        assert(s.take(s.len() as int) =~= s);
    } else {
        lemma_byte_prefix(s.drop_last(), n);
        let k = byte_prefix(s, n).len() as int;
        assert(s.drop_last().take(k) =~= s.take(k));
    }
}

/// A text with another one put in at a byte.
pub open spec fn with_insert(s: Seq<char>, at: nat, what: Seq<char>) -> Seq<char> {
    let front = byte_prefix(s, at);
    front + what + s.skip(front.len() as int)
}

/// Put a text into another one at a byte.
pub fn insert_at_byte(s: &str, at: usize, what: &str) -> (r: String)
    requires
        has_boundary(s@, at as nat),
    ensures
        r@ == with_insert(s@, at as nat, what@),
{
    let front = cut_bytes(s, at as u64);
    let k: usize = chars_of(front.as_str()).len();
    let v = chars_of(s);
    proof {
        lemma_byte_prefix(s@, at as nat);
    }
    let back = slice_text(&v, k, v.len());
    assert(back@ =~= s@.skip(k as int));
    cat3(front.as_str(), what, back.as_str())
}

/// A text has a boundary at its end.
pub proof fn lemma_end_is_boundary(s: Seq<char>)
    ensures
        has_boundary(s, utf8_len(s)),
        byte_prefix(s, utf8_len(s)) == s,
{
}

// ---------------------------------------------------------------------------
// Lists of parts
// ---------------------------------------------------------------------------

/// The lines of a text. A new line ends a line, the last one may lack it, and a
/// carriage return before it is not part of the line.
pub open spec fn lines(s: Seq<char>) -> Seq<Seq<char>> {
    let parts = split(s, '\n');
    let kept = if parts.last().len() == 0 {
        parts.drop_last()
    } else {
        parts
    };
    Seq::new(
        kept.len(),
        |i: int|
            if i < parts.len() - 1 {
                without_return(kept[i])
            } else {
                kept[i]
            },
    )
}

/// A line without the carriage return at its end.
pub open spec fn without_return(s: Seq<char>) -> Seq<char> {
    if s.len() > 0 && s.last() == '\r' {
        s.drop_last()
    } else {
        s
    }
}

/// The parts of a text between the occurrences of a character.
pub open spec fn split(s: Seq<char>, sep: char) -> Seq<Seq<char>>
    decreases s.len(),
{
    if s.len() == 0 {
        seq![Seq::empty()]
    } else {
        let front = split(s.drop_last(), sep);
        if s.last() == sep {
            front.push(Seq::empty())
        } else {
            front.update(front.len() - 1, front.last().push(s.last()))
        }
    }
}

/// A text without its last character, if it has one.
pub open spec fn shortened(s: Seq<char>) -> Seq<char> {
    if s.len() > 0 {
        s.drop_last()
    } else {
        s
    }
}

/// The texts in a list.
pub open spec fn texts(v: Seq<String>) -> Seq<Seq<char>> {
    v.map_values(|s: String| s@)
}

/// The parts of a text between the occurrences of a character.
pub fn split_at(s: &str, sep: char) -> (r: Vec<String>)
    ensures
        texts(r@) == split(s@, sep),
{
    let v = chars_of(s);
    let mut done: Vec<String> = Vec::new();
    let mut part = String::new();
    let mut i: usize = 0;
    assert(v@.take(0) =~= Seq::empty());
    assert(texts(done@).push(part@) =~= seq![Seq::<char>::empty()]);
    while i < v.len()
        invariant
            i <= v@.len(),
            texts(done@).push(part@) == split(v@.take(i as int), sep),
        decreases v@.len() - i,
    {
        assert(v@.take(i + 1).drop_last() =~= v@.take(i as int));
        assert(v@.take(i + 1).last() == v@[i as int]);
        let ghost front = split(v@.take(i as int), sep);
        let ghost before = texts(done@);
        let ghost last = part@;
        if v[i] == sep {
            done.push(part);
            part = String::new();
            assert(texts(done@) =~= before.push(last));
            assert(texts(done@).push(part@) =~= front.push(Seq::empty()));
        } else {
            part.push(v[i]);
            assert(texts(done@).push(part@) =~= front.update(
                front.len() - 1,
                front.last().push(v@[i as int]),
            ));
        }
        i = i + 1;
    }
    assert(v@.take(v@.len() as int) =~= v@);
    let ghost before = texts(done@);
    let ghost last = part@;
    done.push(part);
    assert(texts(done@) =~= before.push(last));
    done
}

proof fn lemma_split_is_not_empty(s: Seq<char>, sep: char)
    ensures
        split(s, sep).len() > 0,
    decreases s.len(),
{
    if s.len() > 0 {
        lemma_split_is_not_empty(s.drop_last(), sep);
    }
}

fn strip_return(s: &str) -> (r: String)
    ensures
        r@ == without_return(s@),
{
    let v = chars_of(s);
    let n: usize = v.len();
    if n > 0 && v[n - 1] == '\r' {
        let r = slice_text(&v, 0, n - 1);
        assert(r@ =~= s@.drop_last());
        return r;
    }
    lit(s)
}

/// The lines of a text.
pub fn lines_of(s: &str) -> (r: Vec<String>)
    ensures
        texts(r@) == lines(s@),
{
    let parts = split_at(s, '\n');
    proof {
        lemma_split_is_not_empty(s@, '\n');
        reveal_strlit("");
    }
    let n: usize = parts.len();
    let ghost all = split(s@, '\n');
    assert(all.len() == n);
    let last_empty = str_eq(parts[n - 1].as_str(), "");
    assert(last_empty == (all.last().len() == 0)) by {
        assert(texts(parts@)[n - 1] == parts@[n - 1]@);
        if all.last().len() == 0 {
            assert(all.last() =~= ""@);
        }
    }
    let count: usize = if last_empty {
        n - 1
    } else {
        n
    };
    let mut r: Vec<String> = Vec::new();
    let mut i: usize = 0;
    while i < count
        invariant
            i <= count <= n,
            n == parts@.len(),
            n == all.len(),
            texts(parts@) == all,
            count == lines(s@).len(),
            all == split(s@, '\n'),
            r@.len() == i,
            last_empty == (all.last().len() == 0),
            count == if last_empty {
                n - 1
            } else {
                n as int
            },
            forall|k: int| 0 <= k < i ==> (#[trigger] r@[k])@ == lines(s@)[k],
        decreases count - i,
    {
        assert(texts(parts@)[i as int] == parts@[i as int]@);
        if i < n - 1 {
            r.push(strip_return(parts[i].as_str()));
        } else {
            r.push(parts[i].clone());
        }
        i = i + 1;
    }
    assert(texts(r@) =~= lines(s@)) by {
        assert forall|k: int| 0 <= k < r@.len() implies texts(r@)[k] == lines(s@)[k] by {
            assert(r@[k]@ == lines(s@)[k]);
        }
    }
    r
}

/// Two texts that differ at most in the case of ASCII letters.
pub open spec fn same_but_case(a: Seq<char>, b: Seq<char>) -> bool {
    &&& a.len() == b.len()
    &&& forall|i: int|
        0 <= i < a.len() ==> ascii_lower(#[trigger] a[i]) == ascii_lower(b[i])
}

fn lower(c: char) -> (r: char)
    ensures
        r == ascii_lower(c),
{
    if 'A' <= c && c <= 'Z' {
        ((c as u8) + 32) as char
    } else {
        c
    }
}

pub fn eq_but_case(a: &str, b: &str) -> (r: bool)
    ensures
        r == same_but_case(a@, b@),
{
    let x = chars_of(a);
    let y = chars_of(b);
    if x.len() != y.len() {
        return false;
    }
    let mut i: usize = 0;
    while i < x.len()
        invariant
            i <= x@.len(),
            x@.len() == y@.len(),
            x@ == a@,
            y@ == b@,
            forall|k: int|
                0 <= k < i ==> ascii_lower(#[trigger] x@[k]) == ascii_lower(y@[k]),
        decreases x@.len() - i,
    {
        if lower(x[i]) != lower(y[i]) {
            assert(ascii_lower(a@[i as int]) != ascii_lower(b@[i as int]));
            return false;
        }
        i = i + 1;
    }
    true
}

// ---------------------------------------------------------------------------
// Laws
// ---------------------------------------------------------------------------

proof fn lemma_trim_start(s: Seq<char>) -> (i: int)
    ensures
        0 <= i <= s.len(),
        trim_start(s) == s.skip(i),
        forall|k: int| 0 <= k < i ==> is_white(#[trigger] s[k]),
        i < s.len() ==> !is_white(s[i]),
    decreases s.len(),
{
    if s.len() > 0 && is_white(s[0]) {
        let t = s.skip(1);
        let i = lemma_trim_start(t);
        assert(t.skip(i) =~= s.skip(i + 1));
        assert forall|k: int| 0 <= k < i + 1 implies is_white(#[trigger] s[k]) by {
            if k > 0 {
                assert(s[k] == t[k - 1]);
            }
        }
        i + 1
    } else {
        assert(s.skip(0) =~= s);
        0
    }
}

proof fn lemma_trim_end(s: Seq<char>) -> (j: int)
    ensures
        0 <= j <= s.len(),
        trim_end(s) == s.take(j),
        forall|k: int| j <= k < s.len() ==> is_white(#[trigger] s[k]),
        j > 0 ==> !is_white(s[j - 1]),
    decreases s.len(),
{
    if s.len() > 0 && is_white(s.last()) {
        let t = s.drop_last();
        let j = lemma_trim_end(t);
        assert(t.take(j) =~= s.take(j));
        assert forall|k: int| j <= k < s.len() implies is_white(#[trigger] s[k]) by {
            if k < t.len() {
                assert(s[k] == t[k]);
            }
        }
        j
    } else {
        assert(s.take(s.len() as int) =~= s);
        s.len() as int
    }
}

/// Of the ASCII characters the blank, the tab and the line ends are white space.
pub proof fn ascii_white_space(c: char)
    requires
        (c as u32) < 128,
    ensures
        is_white(c) <==> c == ' ' || c == '\t' || c == '\n' || c == '\r' || c as u32 == 11 || c as u32
            == 12,
{
}

/// Trimming takes the white space off both ends of a text and nothing else, and
/// there is nothing left to take off then.
pub proof fn trimming_takes_off_white_space(s: Seq<char>)
    ensures
        exists|i: int, j: int|
            #![trigger s.subrange(i, j)]
            0 <= i <= j <= s.len() && trimmed(s) == s.subrange(i, j) && (forall|k: int|
                0 <= k < i || j <= k < s.len() ==> is_white(#[trigger] s[k])),
        trimmed(s).len() > 0 ==> !is_white(trimmed(s)[0]) && !is_white(trimmed(s).last()),
        trimmed(s).len() == 0 <==> forall|k: int| 0 <= k < s.len() ==> is_white(#[trigger] s[k]),
        trimmed(trimmed(s)) == trimmed(s),
{
    let i = lemma_trim_start(s);
    let t = s.skip(i);
    let j = lemma_trim_end(t);
    let r = t.take(j);
    assert(r =~= s.subrange(i, i + j));
    assert forall|k: int| 0 <= k < i || i + j <= k < s.len() implies is_white(#[trigger] s[k]) by {
        if k >= i {
            assert(s[k] == t[k - i]);
        }
    }
    if r.len() > 0 {
        assert(r[0] == s[i]);
        assert(r.last() == t[j - 1]);
        assert(!is_white(s[i]));
        assert(trim_start(r) == r);
        assert(trim_end(r) == r);
    } else {
        assert(trim_start(r) =~= r);
        assert(trim_end(r) =~= r);
    }
}

/// A number is read back from its decimal text. Different numbers have different
/// texts, made of digits alone.
pub proof fn decimal_texts_differ(m: nat, n: nat)
    ensures
        dec(n).len() > 0 && all_digits(dec(n)),
        digits_value(dec(n)) == n,
        dec(m) == dec(n) ==> m == n,
        n > 0 ==> dec(n)[0] != '0',
    decreases n,
{
    lemma_dec_digits(m);
    lemma_dec_digits(n);
    if n >= 10 {
        decimal_texts_differ(m, n / 10);
        assert(dec(n)[0] == dec(n / 10)[0]);
    }
}

proof fn lemma_zeros(k: nat, d: Seq<char>)
    ensures
        digits_value(Seq::new(k, |i: int| '0') + d) == digits_value(d),
    decreases k + d.len(),
{
    let z = Seq::new(k, |i: int| '0');
    if d.len() > 0 {
        lemma_zeros(k, d.drop_last());
        assert((z + d).drop_last() =~= z + d.drop_last());
    } else if k > 0 {
        let y = Seq::new((k - 1) as nat, |i: int| '0');
        lemma_zeros((k - 1) as nat, d);
        assert((z + d).drop_last() =~= y + d);
        assert((z + d).last() == '0');
    } else {
        assert(z + d =~= d);
    }
}

/// A number that is filled up with zeros is as wide as was asked for, or wider
/// where it has more digits, and still the same number.
pub proof fn padding_keeps_the_number(n: nat, width: nat)
    ensures
        digits_value(dec_padded(n, width)) == n,
        all_digits(dec_padded(n, width)),
        dec_padded(n, width).len() >= width,
        dec_padded(n, width).len() == width || dec_padded(n, width) == dec(n),
{
    lemma_dec_digits(n);
    if dec(n).len() < width {
        let z = Seq::new((width - dec(n).len()) as nat, |i: int| '0');
        lemma_zeros((width - dec(n).len()) as nat, dec(n));
        assert forall|i: int| 0 <= i < width implies is_digit(#[trigger] (z + dec(n))[i]) by {
            if i >= z.len() {
                assert((z + dec(n))[i] == dec(n)[i - z.len()]);
            }
        }
    }
}

/// Parts of a text with a character between them.
pub open spec fn joined(parts: Seq<Seq<char>>, sep: char) -> Seq<char>
    decreases parts.len(),
{
    if parts.len() == 0 {
        Seq::empty()
    } else if parts.len() == 1 {
        parts[0]
    } else {
        joined(parts.drop_last(), sep).push(sep) + parts.last()
    }
}

/// The parts of a text, with the separator between them again, are the text, and
/// no part holds the separator.
pub proof fn parts_join_back(s: Seq<char>, sep: char)
    ensures
        split(s, sep).len() > 0,
        joined(split(s, sep), sep) == s,
        forall|i: int| 0 <= i < split(s, sep).len() ==> !(#[trigger] split(s, sep)[i]).contains(sep),
    decreases s.len(),
{
    let all = split(s, sep);
    if s.len() > 0 {
        let t = s.drop_last();
        let front = split(t, sep);
        parts_join_back(t, sep);
        if s.last() == sep {
            assert(all.drop_last() =~= front);
            assert(joined(all, sep) =~= t.push(sep));
            assert(t.push(sep) =~= s);
            assert forall|i: int| 0 <= i < all.len() implies !(#[trigger] all[i]).contains(sep) by {
                if i < front.len() {
                    assert(all[i] == front[i]);
                }
            }
        } else {
            let n = front.len() - 1;
            assert(all.drop_last() =~= front.drop_last());
            assert(all.last() == front.last().push(s.last()));
            if n > 0 {
                assert(joined(all, sep) =~= joined(front, sep).push(s.last()));
            } else {
                assert(joined(all, sep) =~= joined(front, sep).push(s.last()));
            }
            assert(t.push(s.last()) =~= s);
            assert forall|i: int| 0 <= i < all.len() implies !(#[trigger] all[i]).contains(sep) by {
                if i < n {
                    assert(all[i] == front[i]);
                } else {
                    let p = all[i];
                    assert(!front[n].contains(sep));
                    if p.contains(sep) {
                        let k = choose|k: int| 0 <= k < p.len() && p[k] == sep;
                        assert(front[n][k] == sep);
                    }
                }
            }
        }
    } else {
        assert(all[0] =~= Seq::<char>::empty());
    }
}

/// A new line at the end of the last line makes no further line, and no line holds
/// a new line.
pub proof fn a_last_new_line_adds_no_line(s: Seq<char>)
    ensures
        s.len() > 0 && s.last() != '\n' && s.last() != '\r' ==> lines(s.push('\n')) == lines(s),
        forall|i: int| 0 <= i < lines(s).len() ==> !(#[trigger] lines(s)[i]).contains('\n'),
        !s.contains('\n') && s.len() > 0 ==> lines(s) == seq![s],
        s.len() == 0 ==> lines(s).len() == 0,
{
    parts_join_back(s, '\n');
    let parts = split(s, '\n');
    assert forall|i: int| 0 <= i < lines(s).len() implies !(#[trigger] lines(s)[i]).contains('\n') by {
        let p = lines(s)[i];
        assert(!parts[i].contains('\n'));
        if p.contains('\n') {
            let k = choose|k: int| 0 <= k < p.len() && p[k] == '\n';
            assert(parts[i][k] == '\n');
        }
    }
    if s.len() > 0 && s.last() != '\n' && s.last() != '\r' {
        let t = s.push('\n');
        assert(t.drop_last() =~= s);
        let front = split(s.drop_last(), '\n');
        lemma_split_is_not_empty(s.drop_last(), '\n');
        assert(parts.last() == front.last().push(s.last()));
        assert(split(t, '\n') == parts.push(Seq::empty()));
        assert(split(t, '\n').drop_last() =~= parts);
        assert(lines(t) =~= lines(s));
    }
    if !s.contains('\n') && s.len() > 0 {
        lemma_one_part(s, '\n');
        assert(lines(s) =~= seq![s]);
    }
}

proof fn lemma_one_part(s: Seq<char>, sep: char)
    requires
        !s.contains(sep),
    ensures
        split(s, sep) == seq![s],
    decreases s.len(),
{
    if s.len() > 0 {
        let t = s.drop_last();
        if t.contains(sep) {
            let k = choose|k: int| 0 <= k < t.len() && t[k] == sep;
            assert(s[k] == sep);
        }
        lemma_one_part(t, sep);
        assert(s[s.len() - 1] == s.last());
        assert(t.push(s.last()) =~= s);
        assert(split(s, sep) =~= seq![s]);
    } else {
        assert(s =~= Seq::empty());
    }
}

proof fn lemma_utf8_grows(s: Seq<char>, k: int)
    requires
        0 <= k <= s.len(),
    ensures
        utf8_len(s.take(k)) <= utf8_len(s),
        k < s.len() ==> utf8_len(s.take(k)) < utf8_len(s),
    decreases s.len() - k,
{
    if k < s.len() {
        lemma_utf8_grows(s, k + 1);
        assert(s.take(k + 1).drop_last() =~= s.take(k));
    } else {
        assert(s.take(k) =~= s);
    }
}

/// The byte length of two texts behind each other is the sum of theirs. Each
/// character takes one to four bytes, and an ASCII character takes one.
pub proof fn byte_lengths_add_up(a: Seq<char>, b: Seq<char>)
    ensures
        utf8_len(a + b) == utf8_len(a) + utf8_len(b),
        b.len() <= utf8_len(b) <= 4 * b.len(),
        (forall|i: int| 0 <= i < b.len() ==> (#[trigger] b[i] as u32) < 128) <==> utf8_len(b)
            == b.len(),
    decreases b.len(),
{
    if b.len() > 0 {
        let c = b.drop_last();
        byte_lengths_add_up(a, c);
        assert((a + b).drop_last() =~= a + c);
        if forall|i: int| 0 <= i < b.len() ==> (#[trigger] b[i] as u32) < 128 {
            assert forall|i: int| 0 <= i < c.len() implies (#[trigger] c[i] as u32) < 128 by {
                assert(c[i] == b[i]);
            }
            assert(b[b.len() - 1] == b.last());
        }
        if utf8_len(b) == b.len() {
            assert(utf8_len(c) == c.len());
            assert forall|i: int| 0 <= i < b.len() implies (#[trigger] b[i] as u32) < 128 by {
                if i < c.len() {
                    assert(c[i] == b[i]);
                }
            }
        }
    } else {
        assert(a + b =~= a);
    }
}

/// What is left of a text that is cut to some bytes is the longest beginning of it
/// that takes no more than these.
pub proof fn a_cut_keeps_all_that_fits(s: Seq<char>, n: nat, k: int)
    requires
        0 <= k <= s.len(),
    ensures
        byte_prefix(s, n).len() <= s.len(),
        byte_prefix(s, n) == s.take(byte_prefix(s, n).len() as int),
        utf8_len(byte_prefix(s, n)) <= n,
        utf8_len(s.take(k)) <= n ==> k <= byte_prefix(s, n).len(),
    decreases s.len(),
{
    lemma_byte_prefix(s, n);
    if s.len() == 0 || utf8_len(s) <= n {
    } else {
        let t = s.drop_last();
        if k < s.len() {
            a_cut_keeps_all_that_fits(t, n, k);
            assert(t.take(k) =~= s.take(k));
        } else {
            a_cut_keeps_all_that_fits(t, n, k - 1);
            assert(s.take(k) =~= s);
        }
    }
}

/// What is put into a text stands behind just as many bytes as was asked for, with
/// the text unchanged on both sides.
pub proof fn an_insert_leaves_the_text_around_it(s: Seq<char>, at: nat, what: Seq<char>)
    requires
        has_boundary(s, at),
    ensures
        exists|k: int|
            0 <= k <= s.len() && utf8_len(#[trigger] s.take(k)) == at && with_insert(s, at, what)
                == s.take(k) + what + s.skip(k),
        utf8_len(with_insert(s, at, what)) == utf8_len(s) + utf8_len(what),
{
    lemma_byte_prefix(s, at);
    let k = byte_prefix(s, at).len() as int;
    assert(utf8_len(s.take(k)) == at);
    byte_lengths_add_up(s.take(k) + what, s.skip(k));
    byte_lengths_add_up(s.take(k), what);
    byte_lengths_add_up(s.take(k), s.skip(k));
    assert(s.take(k) + s.skip(k) =~= s);
}

/// Digits read as a number, with a point among them or with an exponent behind them
/// too, and so does a number with a sign.
pub proof fn what_reads_as_a_number(a: Seq<char>, b: Seq<char>)
    requires
        all_digits(a),
        all_digits(b),
    ensures
        a.len() > 0 ==> is_number_text(a),
        a.len() + b.len() > 0 ==> is_number_text(a.push('.') + b),
        a.len() > 0 && b.len() > 0 ==> is_number_text(a.push('e') + b) && is_number_text(
            a.push('E') + b,
        ),
        a.len() > 0 ==> is_number_text(seq!['-'] + a) && is_number_text(seq!['+'] + a),
        !is_number_text(Seq::empty()),
{
    if a.len() > 0 {
        assert(is_digit(a[0]));
        lemma_first_of(a, 'e', 'E', a.len() as int);
        lemma_first_of(a, '.', '.', a.len() as int);
        assert((seq!['-'] + a).skip(1) =~= a);
        assert((seq!['+'] + a).skip(1) =~= a);
    }
    let p = a.push('.') + b;
    if a.len() + b.len() > 0 {
        assert forall|i: int| 0 <= i < p.len() implies #[trigger] p[i] != 'e' && p[i] != 'E' by {
            if i < a.len() {
                assert(p[i] == a[i]);
            } else if i > a.len() {
                assert(p[i] == b[i - a.len() - 1]);
            }
        }
        lemma_first_of(p, 'e', 'E', p.len() as int);
        assert forall|i: int| 0 <= i < a.len() implies #[trigger] p[i] != '.' by {
            assert(p[i] == a[i]);
        }
        lemma_first_of(p, '.', '.', a.len() as int);
        assert(p.take(a.len() as int) =~= a);
        assert(p.skip((a.len() + 1) as int) =~= b);
        if a.len() > 0 {
            assert(p[0] == a[0]);
        }
    }
    if a.len() > 0 && b.len() > 0 {
        assert(is_digit(b[0]));
        lemma_exponent(a, b, 'e');
        lemma_exponent(a, b, 'E');
    }
    let none = Seq::<char>::empty();
    assert(first_of(none, 'e', 'E') == 0);
    assert(first_of(none, '.', '.') == 0);
}

proof fn lemma_exponent(a: Seq<char>, b: Seq<char>, e: char)
    requires
        all_digits(a),
        all_digits(b),
        a.len() > 0,
        b.len() > 0,
        e == 'e' || e == 'E',
    ensures
        is_number_text(a.push(e) + b),
{
    let p = a.push(e) + b;
    assert(is_digit(a[0]));
    assert(is_digit(b[0]));
    assert(p[0] == a[0]);
    assert forall|i: int| 0 <= i < a.len() implies #[trigger] p[i] != 'e' && p[i] != 'E' by {
        assert(p[i] == a[i]);
    }
    assert(p[a.len() as int] == e);
    lemma_first_of(p, 'e', 'E', a.len() as int);
    assert(p.take(a.len() as int) =~= a);
    assert(p.skip((a.len() + 1) as int) =~= b);
    lemma_first_of(a, '.', '.', a.len() as int);
}

proof fn lemma_first_bounds(s: Seq<char>, a: char, b: char)
    ensures
        0 <= first_of(s, a, b) <= s.len(),
        first_of(s, a, b) < s.len() ==> s[first_of(s, a, b)] == a || s[first_of(s, a, b)] == b,
    decreases s.len(),
{
    if s.len() > 0 && s[0] != a && s[0] != b {
        lemma_first_bounds(s.skip(1), a, b);
    }
}

/// The characters that a number may be written with.
pub open spec fn is_number_char(c: char) -> bool {
    ||| is_digit(c)
    ||| c == '+' || c == '-' || c == '.' || c == 'e' || c == 'E'
    ||| is_letter(c, 'i') || is_letter(c, 'n') || is_letter(c, 'f')
    ||| is_letter(c, 't') || is_letter(c, 'y') || is_letter(c, 'a')
}

proof fn lemma_mantissa_chars(s: Seq<char>, i: int)
    requires
        is_mantissa(s),
        0 <= i < s.len(),
    ensures
        is_digit(s[i]) || s[i] == '.',
{
    lemma_first_bounds(s, '.', '.');
    let d = first_of(s, '.', '.');
    if d == s.len() {
        assert(is_digit(s[i]));
    } else if i < d {
        assert(is_digit(s.take(d)[i]));
    } else if i > d {
        assert(is_digit(s.skip(d + 1)[i - d - 1]));
    }
}

/// Nothing that holds another character than those of numbers reads as one: no
/// blank, no comma and no equals sign among others.
pub proof fn what_a_number_holds(s: Seq<char>, i: int)
    requires
        is_number_text(s),
        0 <= i < s.len(),
    ensures
        is_number_char(s[i]),
{
    let signed = s[0] == '+' || s[0] == '-';
    let b = if signed {
        s.skip(1)
    } else {
        s
    };
    if !(signed && i == 0) {
        let k = if signed {
            i - 1
        } else {
            i
        };
        assert(b[k] == s[i]);
        if is_unsigned_number(b) {
            lemma_first_bounds(b, 'e', 'E');
            let e = first_of(b, 'e', 'E');
            if e == b.len() {
                lemma_mantissa_chars(b, k);
            } else if k < e {
                lemma_mantissa_chars(b.take(e), k);
            } else if k > e {
                let x = b.skip(e + 1);
                assert(x[k - e - 1] == b[k]);
                if x[0] == '+' || x[0] == '-' {
                    if k - e - 1 > 0 {
                        assert(is_digit(x.skip(1)[k - e - 2]));
                    }
                } else {
                    assert(is_digit(x[k - e - 1]));
                }
            }
        } else if is_word(b, seq!['i', 'n', 'f']) {
            assert(is_letter(b[k], seq!['i', 'n', 'f'][k]));
        } else if is_word(b, seq!['n', 'a', 'n']) {
            assert(is_letter(b[k], seq!['n', 'a', 'n'][k]));
        } else {
            let w = seq!['i', 'n', 'f', 'i', 'n', 'i', 't', 'y'];
            assert(is_letter(b[k], w[k]));
        }
    }
}

/// A text that was typed and then shortened by one character is as it was.
pub proof fn a_typed_character_can_be_taken_back(s: Seq<char>, c: char)
    ensures
        shortened(s.push(c)) == s,
        shortened(Seq::<char>::empty()).len() == 0,
        s.len() > 0 ==> shortened(s).len() == s.len() - 1 && shortened(s) == s.take(s.len() - 1),
{
    assert(s.push(c).drop_last() =~= s);
}

proof fn lemma_same_letter(a: char, b: char)
    ensures
        ascii_lower(a) == ascii_lower(b) <==> (a == b || ('A' <= a <= 'Z' && b as u32 == a as u32
            + 32) || ('A' <= b <= 'Z' && a as u32 == b as u32 + 32)),
{
}

/// Texts that are the same but for the case of ASCII letters have the same length,
/// and each pair of characters is equal or a letter in both cases.
pub proof fn case_is_all_that_differs(a: Seq<char>, b: Seq<char>)
    ensures
        same_but_case(a, b) <==> a.len() == b.len() && forall|i: int|
            0 <= i < a.len() ==> (#[trigger] a[i] == b[i] || ('A' <= a[i] <= 'Z' && b[i] as u32
                == a[i] as u32 + 32) || ('A' <= b[i] <= 'Z' && a[i] as u32 == b[i] as u32 + 32)),
{
    if a.len() == b.len() {
        assert forall|i: int| 0 <= i < a.len() implies (ascii_lower(#[trigger] a[i]) == ascii_lower(
            b[i],
        ) <==> (a[i] == b[i] || ('A' <= a[i] <= 'Z' && b[i] as u32 == a[i] as u32 + 32) || ('A'
            <= b[i] <= 'Z' && a[i] as u32 == b[i] as u32 + 32))) by {
            lemma_same_letter(a[i], b[i]);
        }
    }
}

/// A text holds another that stands in it with something before it and something
/// behind it.
pub proof fn what_it_means_to_hold_a_text(a: Seq<char>, p: Seq<char>, b: Seq<char>)
    ensures
        contains_text(a + p + b, p),
        has_prefix(p + b, p),
        has_suffix(a + p, p),
{
    let s = a + p + b;
    assert(s.subrange(a.len() as int, (a.len() + p.len()) as int) =~= p);
    assert(occurs_at(s, p, a.len() as int));
    assert((p + b).take(p.len() as int) =~= p);
    assert((a + p).skip(a.len() as int) =~= p);
}

/// A text that holds another is that one with something before it and something behind it.
pub proof fn what_a_held_text_stands_between(s: Seq<char>, p: Seq<char>)
    requires
        contains_text(s, p),
    ensures
        exists|i: int| 0 <= i && s == s.take(i) + p + #[trigger] s.skip(i + p.len()),
{
    let i = choose|i: int| occurs_at(s, p, i);
    assert(s =~= s.take(i) + p + s.skip(i + p.len()));
}

/// A text of several parts begins with the first ones, ends with the last ones, and holds those in between.
pub proof fn a_text_holds_its_parts(a: Seq<char>, b: Seq<char>, c: Seq<char>, d: Seq<char>)
    ensures
        has_suffix(a + b + c, b + c),
        has_suffix(a + b + c + d, b + c + d),
        has_suffix(a + b + c + d, c + d),
        has_prefix(a + b + c + d, a + b + c),
        has_prefix(a + b + c + d, a + b),
        contains_text(a + b + c + d, b),
        contains_text(a + b + c + d, c),
        contains_text(a + b + c + d, b + c + d),
{
    let s = a + b + c + d;
    let n = a.len() as int;
    assert((a + b + c).skip(n) =~= b + c);
    assert(s.skip(n) =~= b + c + d);
    assert(s.skip(n + b.len()) =~= c + d);
    assert(s.take(n + b.len() + c.len()) =~= a + b + c);
    assert(s.take(n + b.len()) =~= a + b);
    assert(s.subrange(n, n + b.len()) =~= b);
    assert(occurs_at(s, b, n));
    assert(s.subrange(n + b.len(), n + b.len() + c.len()) =~= c);
    assert(occurs_at(s, c, n + b.len()));
    assert(s.subrange(n, n + (b + c + d).len()) =~= b + c + d);
    assert(occurs_at(s, b + c + d, n));
}

/// A text that begins with a letter and holds a digit, such as the name of a cell,
/// does not read as a number.
pub proof fn a_cell_name_is_no_number(s: Seq<char>, i: int)
    requires
        0 < i < s.len(),
        'a' <= s[0] <= 'z' || 'A' <= s[0] <= 'Z',
        is_digit(s[i]),
    ensures
        !is_number_text(s),
{
    if is_unsigned_number(s) {
        lemma_first_bounds(s, 'e', 'E');
        let e = first_of(s, 'e', 'E');
        if e == s.len() {
            lemma_mantissa_chars(s, 0);
        } else if e > 0 {
            lemma_mantissa_chars(s.take(e), 0);
        } else {
            let none = s.take(0);
            assert(first_of(none, '.', '.') == 0);
        }
    } else if is_word(s, seq!['i', 'n', 'f']) {
        assert(is_letter(s[i], seq!['i', 'n', 'f'][i]));
    } else if is_word(s, seq!['n', 'a', 'n']) {
        assert(is_letter(s[i], seq!['n', 'a', 'n'][i]));
    } else if is_word(s, seq!['i', 'n', 'f', 'i', 'n', 'i', 't', 'y']) {
        assert(is_letter(s[i], seq!['i', 'n', 'f', 'i', 'n', 'i', 't', 'y'][i]));
    }
}

/// What a text holds, a longer text around it holds too.
pub proof fn what_is_held_stays_held(a: Seq<char>, s: Seq<char>, b: Seq<char>, p: Seq<char>)
    requires
        contains_text(s, p),
    ensures
        contains_text(a + s + b, p),
        contains_text(a + s, p),
        contains_text(s + b, p),
{
    let i = choose|i: int| occurs_at(s, p, i);
    let n = a.len() as int;
    assert((a + s + b).subrange(n + i, n + i + p.len()) =~= p);
    assert(occurs_at(a + s + b, p, n + i));
    assert((a + s).subrange(n + i, n + i + p.len()) =~= p);
    assert(occurs_at(a + s, p, n + i));
    assert((s + b).subrange(i, i + p.len()) =~= p);
    assert(occurs_at(s + b, p, i));
}

} // verus!
