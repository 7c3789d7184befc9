//! Where rows and columns go when lines are inserted or deleted.

use vstd::prelude::*;

verus! {

/// Where line `k` stands after the edit; `None` when the edit deletes it.
///
/// An insert puts `count` lines in front of line `at`; a delete takes the
/// `count` lines from `at` on away.
pub open spec fn line_after(k: int, at: int, count: int, delete: bool) -> Option<int> {
    if delete {
        if k < at {
            Some(k)
        } else if k < at + count {
            None
        } else {
            Some(k - count)
        }
    } else if k < at {
        Some(k)
    } else {
        Some(k + count)
    }
}

/// Which line stands at `n` after the edit; `None` for a line that the edit
/// inserted.
pub open spec fn line_before(n: int, at: int, count: int, delete: bool) -> Option<int> {
    if delete {
        if n < at {
            Some(n)
        } else {
            Some(n + count)
        }
    } else if n < at {
        Some(n)
    } else if n < at + count {
        None
    } else {
        Some(n - count)
    }
}

/// The span that lines `s` to `e` take up after the edit, with what an insert
/// put between them; `None` when none of them is left.
pub open spec fn span_after(s: int, e: int, at: int, count: int, delete: bool) -> Option<(int, int)> {
    if delete && count > 0 && at <= s && e < at + count {
        None
    } else if delete {
        Some(
            (
                if s < at {
                    s
                } else if s < at + count {
                    at
                } else {
                    s - count
                },
                if e < at {
                    e
                } else if e < at + count {
                    if at > 0 {
                        at - 1
                    } else {
                        0
                    }
                } else {
                    e - count
                },
            ),
        )
    } else {
        Some((line_after(s, at, count, delete)->0, line_after(e, at, count, delete)->0))
    }
}

/// Where a span of lines stands after an insert or a delete.
pub fn shift_span(s: usize, e: usize, at: usize, count: usize, delete: bool) -> (r: Option<
    (usize, usize),
>)
    requires
        !delete && at <= s ==> s + count <= usize::MAX,
        !delete && at <= e ==> e + count <= usize::MAX,
    ensures
        match span_after(s as int, e as int, at as int, count as int, delete) {
            Some(p) => r == Some((p.0 as usize, p.1 as usize)) && 0 <= p.0 <= usize::MAX && 0 <= p.1
                <= usize::MAX,
            None => r is None,
        },
{
    if delete {
        if count == 0 {
            return Some((s, e));
        }
        if at <= s && (e < at || e - at < count) {
            return None;
        }
        let ns: usize = if s < at {
            s
        } else if s - at < count {
            at
        } else {
            s - count
        };
        let ne: usize = if e < at {
            e
        } else if e - at < count {
            if at > 0 {
                at - 1
            } else {
                0
            }
        } else {
            e - count
        };
        Some((ns, ne))
    } else {
        let ns: usize = if at <= s {
            s + count
        } else {
            s
        };
        let ne: usize = if at <= e {
            e + count
        } else {
            e
        };
        Some((ns, ne))
    }
}

/// Where a single line stands after an insert or a delete.
pub fn shift_line(k: usize, at: usize, count: usize, delete: bool) -> (r: Option<usize>)
    requires
        !delete && at <= k ==> k + count <= usize::MAX,
    ensures
        match line_after(k as int, at as int, count as int, delete) {
            Some(n) => r is Some && r->0 == n,
            None => r is None,
        },
{
    match shift_span(k, k, at, count, delete) {
        Some((n, _)) => Some(n),
        None => None,
    }
}

/// `line_before` undoes `line_after`, so no two lines end up in one place.
pub proof fn lines_do_not_collide(k: int, at: int, count: int, delete: bool)
    requires
        0 <= at,
        0 <= count,
    ensures
        line_after(k, at, count, delete) matches Some(n) ==> line_before(n, at, count, delete)
            == Some(k),
        line_before(k, at, count, delete) matches Some(b) ==> line_after(b, at, count, delete)
            == Some(k),
{
}

/// Deleting the lines that were just inserted puts every line back.
pub proof fn delete_undoes_insert(k: int, at: int, count: int)
    requires
        0 <= at,
        0 <= count,
    ensures
        line_after(line_after(k, at, count, false)->0, at, count, true) == Some(k),
{
}

/// A span after an edit reaches from its first to its last line that is left:
/// every such line lies in it, its ends are such lines, and it is gone when no
/// line is left.
pub proof fn span_holds_the_lines_left(s: int, e: int, at: int, count: int, delete: bool)
    requires
        0 <= s <= e,
        0 <= at,
        0 <= count,
    ensures
        match span_after(s, e, at, count, delete) {
            None => forall|k: int|
                s <= k <= e ==> #[trigger] line_after(k, at, count, delete) is None,
            Some(p) => {
                &&& p.0 <= p.1
                &&& forall|k: int|
                    s <= k <= e ==> ((#[trigger] line_after(k, at, count, delete)) matches Some(n)
                        ==> p.0 <= n <= p.1)
                &&& exists|k: int|
                    s <= k <= e && #[trigger] line_after(k, at, count, delete) == Some(p.0)
                &&& exists|k: int|
                    s <= k <= e && #[trigger] line_after(k, at, count, delete) == Some(p.1)
            },
        },
{
    if let Some(p) = span_after(s, e, at, count, delete) {
        let first = if delete && at <= s < at + count {
            at + count
        } else {
            s
        };
        let last = if delete && at <= e < at + count {
            at - 1
        } else {
            e
        };
        assert(line_after(first, at, count, delete) == Some(p.0));
        assert(line_after(last, at, count, delete) == Some(p.1));
    }
}

/// A delete takes out just the lines that it names, and an insert takes out none and
/// puts none of the old lines where its own are. Lines before the edit stay, the others
/// move by as many lines as were put in or taken out, and they stay in order.
pub proof fn an_edit_keeps_the_lines_in_order(k: int, l: int, at: int, count: int)
    requires
        0 <= k < l,
        0 <= at,
        0 <= count,
    ensures
        line_after(k, at, count, true) is None <==> at <= k < at + count,
        line_after(k, at, count, false) matches Some(n) && !(at <= n < at + count),
        k < at ==> line_after(k, at, count, true) == Some(k) && line_after(k, at, count, false)
            == Some(k),
        k >= at ==> line_after(k, at, count, false) == Some(k + count),
        k >= at + count ==> line_after(k, at, count, true) == Some(k - count),
        line_after(k, at, count, false)->0 < line_after(l, at, count, false)->0,
        (line_after(k, at, count, true) matches Some(m) && line_after(l, at, count, true) matches
            Some(n)) ==> line_after(k, at, count, true)->0 < line_after(l, at, count, true)->0,
{
}

} // verus!
