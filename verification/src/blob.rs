//! What a stored blob is, told by its first bytes alone.

use vstd::prelude::*;
use vstd::slice::slice_subrange;

verus! {

/// What a cloud blob actually is, whatever its key's extension says.
///
/// A save from another client reuses the key of the earlier save, so a
/// `.json` key may hold a native file and a `.sheet` key may hold JSON.
#[derive(Debug, Clone, Copy, PartialEq, Eq, Structural)]
pub enum CloudBlobKind {
    VisigridJson,
    NativeSqlite,
    Unknown,
}

/// The sixteen bytes that open a SQLite file: `SQLite format 3` and a NUL.
pub open spec fn sqlite_header() -> Seq<u8> {
    seq![
        0x53u8, 0x51, 0x4C, 0x69, 0x74, 0x65, 0x20, 0x66, 0x6F, 0x72, 0x6D, 0x61, 0x74, 0x20, 0x33,
        0x00,
    ]
}

pub open spec fn has_bytes_prefix(s: Seq<u8>, p: Seq<u8>) -> bool {
    p.len() <= s.len() && s.take(p.len() as int) == p
}

/// Space, tab, line feed, form feed and carriage return.
pub open spec fn is_ascii_ws(b: u8) -> bool {
    b == 0x20 || b == 0x09 || b == 0x0A || b == 0x0C || b == 0x0D
}

/// `s` without a leading UTF-8 byte order mark.
pub open spec fn without_bom(s: Seq<u8>) -> Seq<u8> {
    if has_bytes_prefix(s, seq![0xEFu8, 0xBB, 0xBF]) {
        s.skip(3)
    } else {
        s
    }
}

/// `s` without its leading ASCII white space.
pub open spec fn without_ws(s: Seq<u8>) -> Seq<u8>
    decreases s.len(),
{
    if s.len() > 0 && is_ascii_ws(s[0]) {
        without_ws(s.skip(1))
    } else {
        s
    }
}

pub open spec fn blob_kind(s: Seq<u8>) -> CloudBlobKind {
    let rest = without_ws(without_bom(s));
    if has_bytes_prefix(s, sqlite_header()) {
        CloudBlobKind::NativeSqlite
    } else if rest.len() > 0 && rest[0] == 0x7B {
        CloudBlobKind::VisigridJson
    } else {
        CloudBlobKind::Unknown
    }
}

fn starts_with_bytes(s: &[u8], p: &[u8]) -> (r: bool)
    ensures
        r == has_bytes_prefix(s@, p@),
{
    if p.len() > s.len() {
        return false;
    }
    let mut i: usize = 0;
    while i < p.len()
        invariant
            i <= p.len() <= s.len(),
            forall|k: int| 0 <= k < i ==> s@[k] == p@[k],
        decreases p.len() - i,
    {
        if s[i] != p[i] {
            assert(s@.take(p@.len() as int)[i as int] != p@[i as int]);
            return false;
        }
        i = i + 1;
    }
    assert(s@.take(p@.len() as int) =~= p@);
    true
}

/// The bytes behind an optional byte order mark and any ASCII white space.
pub fn skip_bom_and_ws(bytes: &[u8]) -> (r: &[u8])
    ensures
        r@ == without_ws(without_bom(bytes@)),
{
    let bom: [u8; 3] = [0xEF, 0xBB, 0xBF];
    assert(bom@ =~= seq![0xEFu8, 0xBB, 0xBF]);
    let mut i: usize = if starts_with_bytes(bytes, &bom) {
        3
    } else {
        0
    };
    let ghost start = without_bom(bytes@);
    assert(bytes@.skip(i as int) =~= start);
    while i < bytes.len() && ascii_ws(bytes[i])
        invariant
            i <= bytes.len(),
            without_ws(bytes@.skip(i as int)) == without_ws(start),
        decreases bytes.len() - i,
    {
        assert(bytes@.skip(i as int).skip(1) =~= bytes@.skip(i + 1));
        i = i + 1;
    }
    let r = slice_subrange(bytes, i, bytes.len());
    assert(r@ =~= bytes@.skip(i as int));
    r
}

fn ascii_ws(b: u8) -> (r: bool)
    ensures
        r == is_ascii_ws(b),
{
    b == 0x20 || b == 0x09 || b == 0x0A || b == 0x0C || b == 0x0D
}

/// The kind of a blob, from its bytes.
pub fn sniff_cloud_blob(bytes: &[u8]) -> (kind: CloudBlobKind)
    ensures
        kind == blob_kind(bytes@),
{
    let header: [u8; 16] = [
        0x53, 0x51, 0x4C, 0x69, 0x74, 0x65, 0x20, 0x66, 0x6F, 0x72, 0x6D, 0x61, 0x74, 0x20, 0x33,
        0x00,
    ];
    assert(header@ =~= sqlite_header());
    if starts_with_bytes(bytes, &header) {
        return CloudBlobKind::NativeSqlite;
    }
    let rest = skip_bom_and_ws(bytes);
    if rest.len() > 0 && rest[0] == 0x7B {
        CloudBlobKind::VisigridJson
    } else {
        CloudBlobKind::Unknown
    }
}

/// The first byte that is no white space is a brace.
pub open spec fn opens_with_brace(s: Seq<u8>) -> bool {
    without_ws(s).len() > 0 && without_ws(s)[0] == 0x7B
}

/// White space and a byte order mark in front of a blob are passed over: it is
/// JSON where a brace follows them, and nothing known where anything else does.
pub proof fn padding_is_passed_over(ws: Seq<u8>, s: Seq<u8>)
    requires
        forall|i: int| 0 <= i < ws.len() ==> is_ascii_ws(#[trigger] ws[i]),
    ensures
        opens_with_brace(s) ==> blob_kind(ws + s) == CloudBlobKind::VisigridJson,
        !opens_with_brace(s) && ws.len() > 0 ==> blob_kind(ws + s) == CloudBlobKind::Unknown,
        blob_kind(seq![0xEFu8, 0xBB, 0xBF] + (ws + s)) == if opens_with_brace(s) {
            CloudBlobKind::VisigridJson
        } else {
            CloudBlobKind::Unknown
        },
{
    let bom = seq![0xEFu8, 0xBB, 0xBF];
    let all = ws + s;
    lemma_ws_prefix(ws, s);
    if opens_with_brace(s) || ws.len() > 0 {
        assert(all.len() > 0 && all[0] != 0xEF && all[0] != 0x53) by {
            if ws.len() > 0 {
                assert(all[0] == ws[0]);
                assert(is_ascii_ws(ws[0]));
            } else {
                assert(all =~= s);
                assert(is_ascii_ws(s[0]) || without_ws(s) == s);
            }
        }
        lemma_first_byte(all, bom);
        lemma_first_byte(all, sqlite_header());
    }
    let marked = bom + all;
    assert(marked.take(3) =~= bom);
    assert(marked.skip(3) =~= all);
    assert(marked[0] == 0xEF);
    lemma_first_byte(marked, sqlite_header());
}

proof fn lemma_first_byte(s: Seq<u8>, p: Seq<u8>)
    requires
        s.len() > 0,
        p.len() > 0,
        s[0] != p[0],
    ensures
        !has_bytes_prefix(s, p),
{
    if has_bytes_prefix(s, p) {
        assert(s.take(p.len() as int)[0] == s[0]);
    }
}

proof fn lemma_ws_prefix(ws: Seq<u8>, s: Seq<u8>)
    requires
        forall|i: int| 0 <= i < ws.len() ==> is_ascii_ws(#[trigger] ws[i]),
    ensures
        without_ws(ws + s) == without_ws(s),
    decreases ws.len(),
{
    if ws.len() == 0 {
        assert(ws + s =~= s);
    } else {
        assert((ws + s).skip(1) =~= ws.skip(1) + s);
        assert(is_ascii_ws(ws[0]));
        assert forall|i: int| 0 <= i < ws.skip(1).len() implies is_ascii_ws(
            #[trigger] ws.skip(1)[i],
        ) by {
            assert(is_ascii_ws(ws[i + 1]));
        }
        lemma_ws_prefix(ws.skip(1), s);
    }
}

} // verus!
