//! File URLs as the system hands them over.

use vstd::prelude::*;
use vstd::string::*;
use vstd::utf8::*;

use crate::state::DocPath;
use crate::text;

verus! {

/// The value of an ASCII hexadecimal digit.
pub open spec fn hex_of(b: u8) -> Option<u8> {
    if 0x30 <= b <= 0x39 {
        Some((b - 0x30) as u8)
    } else if 0x61 <= b <= 0x66 {
        Some((b - 0x57) as u8)
    } else if 0x41 <= b <= 0x46 {
        Some((b - 0x37) as u8)
    } else {
        None
    }
}

pub fn hex_val(b: u8) -> (r: Option<u8>)
    ensures
        r == hex_of(b),
        r matches Some(d) ==> d < 16,
{
    if 0x30 <= b && b <= 0x39 {
        Some(b - 0x30)
    } else if 0x61 <= b && b <= 0x66 {
        Some(b - 0x57)
    } else if 0x41 <= b && b <= 0x46 {
        Some(b - 0x37)
    } else {
        None
    }
}

/// A percent sign and two hexadecimal digits stand at the front.
pub open spec fn escape_in_front(b: Seq<u8>) -> bool {
    b.len() > 2 && b[0] == 0x25 && hex_of(b[1]) is Some && hex_of(b[2]) is Some
}

/// The bytes with each percent escape replaced by the byte it stands for; a
/// percent sign that opens no escape stands for itself.
pub open spec fn decoded(b: Seq<u8>) -> Seq<u8>
    decreases b.len(),
{
    if b.len() == 0 {
        Seq::empty()
    } else if escape_in_front(b) {
        seq![(hex_of(b[1])->0 * 16 + hex_of(b[2])->0) as u8] + decoded(b.skip(3))
    } else {
        seq![b[0]] + decoded(b.skip(1))
    }
}

/// `String::from_utf8`: the text with these UTF-8 bytes, where they are valid
/// UTF-8.
#[verifier::external_body]
fn text_from_utf8(v: Vec<u8>) -> (r: Option<String>)
    ensures
        match r {
            Some(s) => valid_utf8(v@) && encode_utf8(s@) == v@,
            None => !valid_utf8(v@),
        },
{
    String::from_utf8(v).ok()
}

/// Decode percent escapes. Where the decoded bytes are no text, the input
/// stays as it is.
pub fn percent_decode(input: &str) -> (r: String)
    ensures
        valid_utf8(decoded(input.spec_bytes())) ==> encode_utf8(r@) == decoded(input.spec_bytes()),
        !valid_utf8(decoded(input.spec_bytes())) ==> r@ == input@,
{
    let b = input.as_bytes();
    let mut out: Vec<u8> = Vec::new();
    let mut i: usize = 0;
    assert(b@.skip(0) =~= b@);
    assert(out@ + decoded(b@.skip(0)) =~= decoded(b@));
    while i < b.len()
        invariant
            i <= b.len(),
            out@ + decoded(b@.skip(i as int)) == decoded(b@),
        decreases b.len() - i,
    {
        let ghost before = out@;
        let ghost rest = b@.skip(i as int);
        if b[i] == 0x25 && b.len() - i > 2 {
            match (hex_val(b[i + 1]), hex_val(b[i + 2])) {
                (Some(hi), Some(lo)) => {
                    out.push(hi * 16 + lo);
                    proof {
                        assert(rest.skip(3) =~= b@.skip(i + 3));
                        assert(out@ + decoded(b@.skip(i + 3)) =~= before + decoded(rest));
                    }
                    i = i + 3;
                    continue;
                },
                _ => {},
            }
        }
        out.push(b[i]);
        proof {
            assert(!escape_in_front(rest));
            assert(rest.skip(1) =~= b@.skip(i + 1));
            assert(out@ + decoded(b@.skip(i + 1)) =~= before + decoded(rest));
        }
        i = i + 1;
    }
    assert(b@.skip(i as int) =~= Seq::empty());
    assert(out@ =~= decoded(b@));
    match text_from_utf8(out) {
        Some(s) => s,
        None => text::lit(input),
    }
}

/// `s` without the prefix `p`.
pub open spec fn without_prefix(s: Seq<char>, p: Seq<char>) -> Seq<char> {
    if text::has_prefix(s, p) {
        s.skip(p.len() as int)
    } else {
        s
    }
}

fn strip_prefix(s: &str, p: &str) -> (r: Option<String>)
    ensures
        match r {
            Some(t) => text::has_prefix(s@, p@) && t@ == without_prefix(s@, p@),
            None => !text::has_prefix(s@, p@),
        },
{
    if text::starts_with(s, p) {
        let v = text::chars_of(s);
        let n: usize = p.unicode_len();
        let t = text::slice_text(&v, n, v.len());
        assert(t@ =~= s@.skip(p@.len() as int));
        Some(t)
    } else {
        None
    }
}

/// The text that a file URL's path is decoded from: what stands behind the
/// scheme and an optional `localhost`.
pub open spec fn url_path_text(url: Seq<char>) -> Seq<char> {
    without_prefix(without_prefix(url, "file://"@), "localhost"@)
}

/// `r` is the path that a URL names: a file URL's decoded path, a text without
/// a scheme itself, no path for any other URL.
pub open spec fn path_of_url(url: Seq<char>, r: Option<Seq<char>>) -> bool {
    if text::has_prefix(url, "file://"@) {
        let bytes = decoded(encode_utf8(url_path_text(url)));
        &&& r is Some
        &&& valid_utf8(bytes) ==> encode_utf8(r->0) == bytes
        &&& !valid_utf8(bytes) ==> r->0 == url_path_text(url)
    } else if text::contains_text(url, "://"@) {
        r is None
    } else {
        r == Some(url)
    }
}

/// The path that a URL names; `None` for a URL that is no file.
pub fn url_to_path(url: &str) -> (r: Option<String>)
    ensures
        path_of_url(url@, text::opt_text(r)),
{
    match strip_prefix(url, "file://") {
        Some(rest) => {
            let path = match strip_prefix(rest.as_str(), "localhost") {
                Some(p) => p,
                None => rest,
            };
            Some(percent_decode(path.as_str()))
        },
        None => {
            if text::contains(url, "://") {
                None
            } else {
                Some(text::lit(url))
            }
        },
    }
}

/// One of the paths has this key.
pub open spec fn has_key(s: Seq<DocPath>, key: Seq<char>) -> bool {
    exists|i: int| 0 <= i < s.len() && (#[trigger] s[i]).key@ == key
}

/// The paths of a list, each where it comes first. Paths with one key are one
/// path, however they are written.
pub open spec fn firsts(s: Seq<DocPath>) -> Seq<DocPath>
    decreases s.len(),
{
    if s.len() == 0 {
        Seq::empty()
    } else {
        let rest = firsts(s.drop_last());
        if has_key(rest, s.last().key@) {
            rest
        } else {
            rest.push(s.last())
        }
    }
}

fn holds(v: &Vec<DocPath>, key: &String) -> (r: bool)
    ensures
        r == has_key(v@, key@),
{
    let mut i: usize = 0;
    while i < v.len()
        invariant
            i <= v.len(),
            forall|j: int| 0 <= j < i ==> (#[trigger] v@[j]).key@ != key@,
        decreases v.len() - i,
    {
        if v[i].key == *key {
            return true;
        }
        i = i + 1;
    }
    false
}

/// Each path once, in the order in which they come first. `canonical` holds the
/// paths of the URLs that name one, resolved where they can be; by their keys
/// `/x//y` and `/x/y` are one path even where they cannot.
pub fn normalize_and_dedup_urls(canonical: &Vec<DocPath>) -> (r: Vec<DocPath>)
    ensures
        r@ == firsts(canonical@),
{
    let mut r: Vec<DocPath> = Vec::new();
    let mut i: usize = 0;
    assert(canonical@.take(0) =~= Seq::empty());
    while i < canonical.len()
        invariant
            i <= canonical.len(),
            r@ == firsts(canonical@.take(i as int)),
        decreases canonical.len() - i,
    {
        assert(canonical@.take(i + 1).drop_last() =~= canonical@.take(i as int));
        assert(canonical@.take(i + 1).last() == canonical@[i as int]);
        if !holds(&r, &canonical[i].key) {
            r.push(canonical[i].clone());
        }
        i = i + 1;
    }
    assert(canonical@.take(canonical@.len() as int) =~= canonical@);
    r
}

// ---------------------------------------------------------------------------
// Laws
// ---------------------------------------------------------------------------

/// Bytes without a percent sign decode to themselves.
pub proof fn plain_bytes_decode_to_themselves(b: Seq<u8>)
    requires
        forall|i: int| 0 <= i < b.len() ==> #[trigger] b[i] != 0x25,
    ensures
        decoded(b) == b,
    decreases b.len(),
{
    if b.len() > 0 {
        let t = b.skip(1);
        assert forall|i: int| 0 <= i < t.len() implies #[trigger] t[i] != 0x25 by {
            assert(t[i] == b[i + 1]);
        }
        plain_bytes_decode_to_themselves(t);
        assert(seq![b[0]] + t =~= b);
    } else {
        assert(decoded(b) =~= b);
    }
}

/// No path is opened twice, none is lost, and none is made up.
pub proof fn firsts_are_distinct_and_complete(s: Seq<DocPath>)
    ensures
        forall|i: int, j: int|
            0 <= i < j < firsts(s).len() ==> (#[trigger] firsts(s)[i]).key@ != (
            #[trigger] firsts(s)[j]).key@,
        forall|key: Seq<char>| #[trigger] has_key(s, key) <==> has_key(firsts(s), key),
        forall|i: int| 0 <= i < firsts(s).len() ==> s.contains(#[trigger] firsts(s)[i]),
    decreases s.len(),
{
    if s.len() > 0 {
        let front = s.drop_last();
        let last = s.last();
        let n = s.len() - 1;
        let rest = firsts(front);
        let all = firsts(s);
        firsts_are_distinct_and_complete(front);
        assert forall|key: Seq<char>| #[trigger] has_key(s, key) <==> has_key(all, key) by {
            assert(has_key(front, key) <==> has_key(rest, key));
            if has_key(s, key) {
                let i = choose|i: int| 0 <= i < s.len() && (#[trigger] s[i]).key@ == key;
                if i < n {
                    assert(front[i].key@ == key);
                    assert(has_key(rest, key));
                    let j = choose|j: int| 0 <= j < rest.len() && (#[trigger] rest[j]).key@ == key;
                    assert(all[j].key@ == key);
                } else if has_key(rest, key) {
                    assert(all == rest);
                } else {
                    assert(all[rest.len() as int].key@ == key);
                }
            }
            if has_key(all, key) {
                let j = choose|j: int| 0 <= j < all.len() && (#[trigger] all[j]).key@ == key;
                if j < rest.len() {
                    assert(rest[j].key@ == key);
                    let i = choose|i: int| 0 <= i < front.len() && (#[trigger] front[i]).key@ == key;
                    assert(s[i].key@ == key);
                } else {
                    assert(s[n].key@ == key);
                }
            }
        }
        assert forall|i: int| 0 <= i < all.len() implies s.contains(#[trigger] all[i]) by {
            if i < rest.len() {
                assert(all[i] == rest[i]);
                let k = choose|k: int| 0 <= k < front.len() && front[k] == rest[i];
                assert(s[k] == rest[i]);
            } else {
                assert(s[n] == all[i]);
            }
        }
        assert forall|i: int, j: int| 0 <= i < j < all.len() implies (#[trigger] all[i]).key@ != (
        #[trigger] all[j]).key@ by {
            assert(all[i] == rest[i]);
            if j < rest.len() {
                assert(all[j] == rest[j]);
            }
        }
    }
}

/// How a hexadecimal digit is written, in lower case or in upper case.
pub open spec fn hex_byte(d: int, upper: bool) -> u8 {
    if d < 10 {
        (0x30 + d) as u8
    } else if upper {
        (0x37 + d) as u8
    } else {
        (0x57 + d) as u8
    }
}

/// A byte that is written as an escape, in either case, is decoded to that byte, and what
/// follows is decoded by itself.
pub proof fn an_escape_decodes_to_its_byte(b: u8, up1: bool, up2: bool, rest: Seq<u8>)
    ensures
        decoded(
            seq![0x25u8, hex_byte(b as int / 16, up1), hex_byte(b as int % 16, up2)] + rest,
        ) == seq![b] + decoded(rest),
        hex_of(hex_byte(b as int % 16, up1)) == Some((b % 16) as u8),
{
    let e = seq![0x25u8, hex_byte(b as int / 16, up1), hex_byte(b as int % 16, up2)];
    let s = e + rest;
    assert(s[0] == 0x25 && s[1] == e[1] && s[2] == e[2]);
    assert(s.skip(3) =~= rest);
    assert(escape_in_front(s));
    assert((b as int / 16) * 16 + b as int % 16 == b);
}

/// A percent sign that no two hexadecimal digits follow stands for itself, and so does
/// every other byte.
pub proof fn what_is_no_escape_stands_for_itself(b: u8, rest: Seq<u8>)
    ensures
        b != 0x25 ==> decoded(seq![b] + rest) == seq![b] + decoded(rest),
        rest.len() < 2 || hex_of(rest[0]) is None || hex_of(rest[1]) is None ==> decoded(
            seq![b] + rest,
        ) == seq![b] + decoded(rest),
        hex_of(b) is Some <==> 0x30 <= b <= 0x39 || 0x41 <= b <= 0x46 || 0x61 <= b <= 0x66,
{
    let s = seq![b] + rest;
    assert(s.skip(1) =~= rest);
    assert(s[0] == b);
    if rest.len() >= 2 {
        assert(s[1] == rest[0] && s[2] == rest[1]);
    }
}

/// A file URL with the local host in it names the same file as one without. A URL of
/// another kind names no file, and a text that is no URL names the file of that name.
pub proof fn which_file_a_url_names(
    path: Seq<char>,
    url: Seq<char>,
    a: Option<Seq<char>>,
    b: Option<Seq<char>>,
)
    ensures
        path.len() > 0 && path[0] == '/' ==> url_path_text("file://"@ + path) == path,
        url_path_text("file://"@ + "localhost"@ + path) == path,
        path_of_url("file://"@ + path, a) ==> a is Some,
        path_of_url(url, b) && !text::has_prefix(url, "file://"@) ==> (b is None
            <==> text::contains_text(url, "://"@)) && (b matches Some(p) ==> p == url),
{
    reveal_strlit("file://");
    reveal_strlit("localhost");
    let x = "file://"@ + path;
    assert(x.take(7) =~= "file://"@);
    assert(x.skip(7) =~= path);
    let y = "file://"@ + "localhost"@ + path;
    assert(y.take(7) =~= "file://"@);
    let z = "localhost"@ + path;
    assert(y.skip(7) =~= z);
    assert(z.take(9) =~= "localhost"@);
    assert(z.skip(9) =~= path);
    if path.len() > 0 && path[0] == '/' {
        if path.len() >= 9 {
            assert(path.take(9)[0] == '/');
            assert("localhost"@[0] == 'l');
        }
    }
}

} // verus!
