//! Search over the visible rows: whether a row matches a query, and cyclic
//! next/previous navigation through the ordered match positions.
use vstd::prelude::*;

use crate::path::spec_dot_path;
use crate::strutil::chars_contains;
use crate::strutil::contains_seq;
use crate::strutil::lower_chars;
use crate::strutil::spec_lower;
use crate::strutil::str_chars;
use crate::visible::RowV;
use crate::visible::VisibleRow;

verus! {

/// A row matches a query when its dot path or its display key contains it,
/// case-insensitively (ASCII case folding).
pub open spec fn spec_matches_row(row: RowV, q: Seq<char>) -> bool {
    contains_seq(spec_lower(spec_dot_path(row.path)), spec_lower(q)) || contains_seq(
        spec_lower(row.key),
        spec_lower(q),
    )
}

/// The match list is exactly the ordered positions of the matching rows:
/// every listed position matches, every matching position is listed, and the
/// positions are strictly increasing.
pub open spec fn matches_ok(ms: Seq<usize>, rows: Seq<RowV>, q: Seq<char>) -> bool {
    &&& forall|k: int|
        0 <= k < ms.len() ==> (ms[k] as int) < rows.len() && spec_matches_row(
            rows[ms[k] as int],
            q,
        )
    &&& forall|i: int|
        0 <= i < rows.len() && spec_matches_row(rows[i], q) ==> exists|k: int|
            0 <= k < ms.len() && ms[k] as int == i
    &&& forall|k1: int, k2: int| 0 <= k1 < k2 < ms.len() ==> ms[k1] < ms[k2]
}

pub fn matches_row(row: &VisibleRow, query: &str) -> (r: bool)
    ensures
        r == spec_matches_row(row.model(), query@),
{
    let qc = str_chars(query);
    let ql = lower_chars(&qc);
    let dot = row.path.dot_path();
    let dc = str_chars(dot.as_str());
    let dl = lower_chars(&dc);
    if chars_contains(&dl, &ql) {
        return true;
    }
    let kc = str_chars(row.display_key.as_str());
    let kl = lower_chars(&kc);
    chars_contains(&kl, &ql)
}

/// The first position of a value in the match list, or `-1`.
pub open spec fn spec_position(ms: Seq<usize>, cur: usize) -> int
    decreases ms.len(),
{
    if ms.len() == 0 {
        -1
    } else if ms[0] == cur {
        0
    } else {
        let r = spec_position(ms.drop_first(), cur);
        if r < 0 {
            -1
        } else {
            r + 1
        }
    }
}

proof fn lemma_position_at(ms: Seq<usize>, cur: usize, j: int)
    requires
        0 <= j <= ms.len(),
        forall|l: int| 0 <= l < j ==> ms[l] != cur,
        j < ms.len() ==> ms[j] == cur,
    ensures
        spec_position(ms, cur) == if j < ms.len() {
            j
        } else {
            -1int
        },
    decreases j,
{
    if j == 0 {
    } else {
        assert(forall|l: int| 0 <= l < ms.len() - 1 ==> ms.drop_first()[l] == ms[l + 1]);
        lemma_position_at(ms.drop_first(), cur, j - 1);
    }
}

/// The next match after the current row, cycling to the first match when the
/// current row is at or past the last match, or not a match at all.
pub open spec fn spec_next_match(ms: Seq<usize>, cur: usize) -> Option<usize> {
    if ms.len() == 0 {
        None
    } else {
        let p = spec_position(ms, cur);
        if 0 <= p && p + 1 < ms.len() {
            Some(ms[p + 1])
        } else {
            Some(ms[0])
        }
    }
}

/// The previous match before the current row, cycling to the last match when
/// the current row is at or before the first match, or not a match at all.
pub open spec fn spec_prev_match(ms: Seq<usize>, cur: usize) -> Option<usize> {
    if ms.len() == 0 {
        None
    } else {
        let p = spec_position(ms, cur);
        if p >= 1 {
            Some(ms[p - 1])
        } else {
            Some(ms.last())
        }
    }
}

fn position_of(ms: &Vec<usize>, cur: usize) -> (r: Option<usize>)
    ensures
        match r {
            Some(j) => j < ms@.len() && spec_position(ms@, cur) == j as int,
            None => spec_position(ms@, cur) == -1,
        },
{
    let mut i: usize = 0;
    while i < ms.len()
        invariant
            i <= ms@.len(),
            forall|l: int| 0 <= l < i ==> ms@[l] != cur,
        decreases ms@.len() - i,
    {
        if ms[i] == cur {
            proof {
                lemma_position_at(ms@, cur, i as int);
            }
            return Some(i);
        }
        i = i + 1;
    }
    proof {
        lemma_position_at(ms@, cur, ms@.len() as int);
    }
    None
}

pub fn next_match(matches: &Vec<usize>, current: usize) -> (r: Option<usize>)
    ensures
        r == spec_next_match(matches@, current),
{
    if matches.len() == 0 {
        return None;
    }
    match position_of(matches, current) {
        Some(i) => {
            if i + 1 < matches.len() {
                Some(matches[i + 1])
            } else {
                Some(matches[0])
            }
        },
        None => Some(matches[0]),
    }
}

pub fn prev_match(matches: &Vec<usize>, current: usize) -> (r: Option<usize>)
    ensures
        r == spec_prev_match(matches@, current),
{
    if matches.len() == 0 {
        return None;
    }
    match position_of(matches, current) {
        Some(i) => {
            if i >= 1 {
                Some(matches[i - 1])
            } else {
                Some(matches[matches.len() - 1])
            }
        },
        None => Some(matches[matches.len() - 1]),
    }
}

} // verus!
