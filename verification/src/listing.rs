//! Pages of ids in the order of their decimal texts.
//!
//! Rooms and rounds are listed by their ids written in decimal digits and
//! compared byte-wise, so that 10 comes before 2. A page starts after a
//! cursor and holds at most a given number of ids.

use vstd::prelude::*;
use crate::text::{
    decimal, lemma_bytes_lt_irreflexive, lemma_bytes_lt_transitive, text_lt, text_side,
    u64_to_string, Side,
};
use vstd::utf8::encode_utf8;

verus! {

/// How many items a page holds if the caller names no limit.
pub const DEFAULT_QUERY_LIMIT: u32 = 10;

/// The most items that a page holds.
pub const MAX_QUERY_LIMIT: u32 = 30;

/// The number of items of a page for a limit that the caller may have named.
pub open spec fn page_limit(limit: Option<u32>) -> nat {
    let asked = match limit {
        Some(n) => n,
        None => DEFAULT_QUERY_LIMIT,
    };
    if asked < MAX_QUERY_LIMIT {
        asked as nat
    } else {
        MAX_QUERY_LIMIT as nat
    }
}

/// The number of items of a page for a limit that the caller may have named:
/// the default if none was named, and never more than the maximum.
pub fn effective_limit(limit: Option<u32>) -> (n: usize)
    ensures
        n == page_limit(limit),
        n <= MAX_QUERY_LIMIT,
{
    let asked: u32 = match limit {
        Some(n) => n,
        None => DEFAULT_QUERY_LIMIT,
    };
    if asked < MAX_QUERY_LIMIT {
        asked as usize
    } else {
        MAX_QUERY_LIMIT as usize
    }
}

/// Whether the decimal text of `a` comes byte-wise before that of `b`.
pub open spec fn decimal_lt(a: u64, b: u64) -> bool {
    text_lt(decimal(a as nat), decimal(b as nat))
}

/// Whether the decimal text of `a` comes byte-wise before that of `b`.
pub fn decimal_before(a: u64, b: u64) -> (r: bool)
    ensures
        r == decimal_lt(a, b),
{
    let x = u64_to_string(a);
    let y = u64_to_string(b);
    text_side(x.as_str(), y.as_str()) == Side::Before
}

/// Whether `id` lies after `lo` and before `hi`, where each is given.
pub open spec fn within(id: u64, lo: Option<u64>, hi: Option<u64>) -> bool {
    &&& lo matches Some(l) ==> decimal_lt(l, id)
    &&& hi matches Some(h) ==> decimal_lt(id, h)
}

/// Whether `id` lies after `lo` and before `hi`, where each is given.
pub fn is_within(id: u64, lo: Option<u64>, hi: Option<u64>) -> (r: bool)
    ensures
        r == within(id, lo, hi),
{
    let above = match lo {
        Some(l) => decimal_before(l, id),
        None => true,
    };
    let below = match hi {
        Some(h) => decimal_before(id, h),
        None => true,
    };
    above && below
}

/// Among the `n` ids from `base` on, the one within `lo` and `hi` whose
/// decimal text comes first.
pub open spec fn least_within(base: u64, n: nat, lo: Option<u64>, hi: Option<u64>) -> Option<u64>
    decreases n,
{
    if n == 0 {
        None
    } else {
        let rest = least_within(base, (n - 1) as nat, lo, hi);
        let id = (base + n - 1) as u64;
        if within(id, lo, hi) && (rest is None || decimal_lt(id, rest->0)) {
            Some(id)
        } else {
            rest
        }
    }
}

/// Among the `n` ids from `base` on, the one within `lo` and `hi` whose
/// decimal text comes last.
pub open spec fn greatest_within(base: u64, n: nat, lo: Option<u64>, hi: Option<u64>) -> Option<
    u64,
>
    decreases n,
{
    if n == 0 {
        None
    } else {
        let rest = greatest_within(base, (n - 1) as nat, lo, hi);
        let id = (base + n - 1) as u64;
        if within(id, lo, hi) && (rest is None || decimal_lt(rest->0, id)) {
            Some(id)
        } else {
            rest
        }
    }
}

/// The first `limit` of the `n` ids from `base` on that lie after `after`,
/// each followed by the next in the order of the decimal texts.
pub open spec fn ascending_ids(base: u64, n: nat, after: Option<u64>, limit: nat) -> Seq<u64>
    decreases limit,
{
    if limit == 0 {
        Seq::empty()
    } else {
        match least_within(base, n, after, None) {
            None => Seq::empty(),
            Some(id) => seq![id] + ascending_ids(base, n, Some(id), (limit - 1) as nat),
        }
    }
}

/// The last `limit` of the `n` ids from `base` on that lie after `lo` and
/// before `below`, the last first, each followed by the one before it in the
/// order of the decimal texts.
pub open spec fn descending_ids(
    base: u64,
    n: nat,
    lo: Option<u64>,
    below: Option<u64>,
    limit: nat,
) -> Seq<u64>
    decreases limit,
{
    if limit == 0 {
        Seq::empty()
    } else {
        match greatest_within(base, n, lo, below) {
            None => Seq::empty(),
            Some(id) => seq![id] + descending_ids(base, n, lo, Some(id), (limit - 1) as nat),
        }
    }
}

/// What `least_within` or `greatest_within` finds is one of the ids and lies
/// within the bounds.
pub proof fn lemma_found_within(base: u64, n: nat, lo: Option<u64>, hi: Option<u64>)
    requires
        base + n <= u64::MAX + 1,
    ensures
        least_within(base, n, lo, hi) matches Some(id) ==> base <= id < base + n && within(
            id,
            lo,
            hi,
        ),
        greatest_within(base, n, lo, hi) matches Some(id) ==> base <= id < base + n && within(
            id,
            lo,
            hi,
        ),
    decreases n,
{
    if n > 0 {
        lemma_found_within(base, (n - 1) as nat, lo, hi);
    }
}

/// No id within the bounds comes before the one that `least_within` finds,
/// and none comes after the one that `greatest_within` finds.
pub proof fn lemma_found_is_outermost(base: u64, n: nat, lo: Option<u64>, hi: Option<u64>, k: u64)
    requires
        base + n <= u64::MAX + 1,
        base <= k < base + n,
        within(k, lo, hi),
    ensures
        least_within(base, n, lo, hi) is Some,
        !decimal_lt(k, least_within(base, n, lo, hi)->0),
        greatest_within(base, n, lo, hi) is Some,
        !decimal_lt(greatest_within(base, n, lo, hi)->0, k),
    decreases n,
{
    let id = (base + n - 1) as u64;
    let m = (n - 1) as nat;
    let least = least_within(base, m, lo, hi);
    let greatest = greatest_within(base, m, lo, hi);
    lemma_bytes_lt_irreflexive(encode_utf8(decimal(k as nat)));
    if k < id {
        lemma_found_is_outermost(base, m, lo, hi, k);
        if within(id, lo, hi) && decimal_lt(id, least->0) {
            if decimal_lt(k, id) {
                lemma_bytes_lt_transitive(
                    encode_utf8(decimal(k as nat)),
                    encode_utf8(decimal(id as nat)),
                    encode_utf8(decimal(least->0 as nat)),
                );
            }
        }
        if within(id, lo, hi) && decimal_lt(greatest->0, id) {
            if decimal_lt(id, k) {
                lemma_bytes_lt_transitive(
                    encode_utf8(decimal(greatest->0 as nat)),
                    encode_utf8(decimal(id as nat)),
                    encode_utf8(decimal(k as nat)),
                );
            }
        }
    }
}

/// A page in ascending order is in order and leaves nothing out: each of
/// its ids lies after the cursor, each comes before the next, and no id
/// that lies after one of them comes before the next.
pub proof fn lemma_ascending_ids_in_order(
    base: u64,
    n: nat,
    after: Option<u64>,
    limit: nat,
    i: int,
    k: u64,
)
    requires
        base + n <= u64::MAX + 1,
        0 <= i < ascending_ids(base, n, after, limit).len(),
    ensures
        base <= ascending_ids(base, n, after, limit)[i] < base + n,
        within(ascending_ids(base, n, after, limit)[i], after, None),
        i > 0 ==> decimal_lt(
            ascending_ids(base, n, after, limit)[i - 1],
            ascending_ids(base, n, after, limit)[i],
        ),
        base <= k < base + n && within(
            k,
            if i == 0 {
                after
            } else {
                Some(ascending_ids(base, n, after, limit)[i - 1])
            },
            None,
        ) ==> !decimal_lt(k, ascending_ids(base, n, after, limit)[i]),
    decreases limit,
{
    lemma_found_within(base, n, after, None);
    let first = least_within(base, n, after, None)->0;
    let rest = ascending_ids(base, n, Some(first), (limit - 1) as nat);
    if i == 0 {
        if base <= k < base + n && within(k, after, None) {
            lemma_found_is_outermost(base, n, after, None, k);
        }
    } else {
        lemma_ascending_ids_in_order(base, n, Some(first), (limit - 1) as nat, i - 1, k);
        assert(ascending_ids(base, n, after, limit)[i] == rest[i - 1]);
        if i > 1 {
            assert(ascending_ids(base, n, after, limit)[i - 1] == rest[i - 2]);
        }
        // what lies after the first lies after the cursor too
        if after is Some {
            lemma_bytes_lt_transitive(
                encode_utf8(decimal(after->0 as nat)),
                encode_utf8(decimal(first as nat)),
                encode_utf8(decimal(rest[i - 1] as nat)),
            );
        }
    }
}

/// A page in descending order is in order and leaves nothing out: each of
/// its ids lies after the lower bound, each comes after the next, and no id
/// that lies before one of them comes after the next.
pub proof fn lemma_descending_ids_in_order(
    base: u64,
    n: nat,
    lo: Option<u64>,
    below: Option<u64>,
    limit: nat,
    i: int,
    k: u64,
)
    requires
        base + n <= u64::MAX + 1,
        0 <= i < descending_ids(base, n, lo, below, limit).len(),
    ensures
        base <= descending_ids(base, n, lo, below, limit)[i] < base + n,
        within(descending_ids(base, n, lo, below, limit)[i], lo, below),
        i > 0 ==> decimal_lt(
            descending_ids(base, n, lo, below, limit)[i],
            descending_ids(base, n, lo, below, limit)[i - 1],
        ),
        base <= k < base + n && within(
            k,
            lo,
            if i == 0 {
                below
            } else {
                Some(descending_ids(base, n, lo, below, limit)[i - 1])
            },
        ) ==> !decimal_lt(descending_ids(base, n, lo, below, limit)[i], k),
    decreases limit,
{
    lemma_found_within(base, n, lo, below);
    let first = greatest_within(base, n, lo, below)->0;
    let rest = descending_ids(base, n, lo, Some(first), (limit - 1) as nat);
    if i == 0 {
        if base <= k < base + n && within(k, lo, below) {
            lemma_found_is_outermost(base, n, lo, below, k);
        }
    } else {
        lemma_descending_ids_in_order(base, n, lo, Some(first), (limit - 1) as nat, i - 1, k);
        assert(descending_ids(base, n, lo, below, limit)[i] == rest[i - 1]);
        if i > 1 {
            assert(descending_ids(base, n, lo, below, limit)[i - 1] == rest[i - 2]);
        }
        if below is Some {
            lemma_bytes_lt_transitive(
                encode_utf8(decimal(rest[i - 1] as nat)),
                encode_utf8(decimal(first as nat)),
                encode_utf8(decimal(below->0 as nat)),
            );
        }
    }
}

/// Finds the id that `least_within` names, or with `last` the one that
/// `greatest_within` names.
fn find_within(base: u64, n: u64, lo: Option<u64>, hi: Option<u64>, last: bool) -> (r: Option<u64>)
    requires
        base + n <= u64::MAX + 1,
    ensures
        r == (if last {
            greatest_within(base, n as nat, lo, hi)
        } else {
            least_within(base, n as nat, lo, hi)
        }),
{
    let mut best: Option<u64> = None;
    let mut k: u64 = 0;
    while k < n
        invariant
            k <= n,
            base + n <= u64::MAX + 1,
            best == (if last {
                greatest_within(base, k as nat, lo, hi)
            } else {
                least_within(base, k as nat, lo, hi)
            }),
        decreases n - k,
    {
        let id: u64 = base + k;
        if is_within(id, lo, hi) {
            let better = match best {
                None => true,
                Some(b) => if last {
                    decimal_before(b, id)
                } else {
                    decimal_before(id, b)
                },
            };
            if better {
                best = Some(id);
            }
        }
        k = k + 1;
    }
    best
}

/// The page of ids that `ascending_ids` names.
pub fn ascending_page(base: u64, n: u64, after: Option<u64>, limit: usize) -> (out: Vec<u64>)
    requires
        base + n <= u64::MAX + 1,
    ensures
        out@ == ascending_ids(base, n as nat, after, limit as nat),
        forall|i: int| 0 <= i < out@.len() ==> base <= #[trigger] out@[i] < base + n,
{
    let mut out: Vec<u64> = Vec::new();
    let mut cursor: Option<u64> = after;
    let ghost whole = ascending_ids(base, n as nat, after, limit as nat);
    assert(out@ + whole =~= whole);
    while out.len() < limit
        invariant
            out.len() <= limit,
            base + n <= u64::MAX + 1,
            whole == out@ + ascending_ids(base, n as nat, cursor, (limit - out.len()) as nat),
            forall|i: int| 0 <= i < out@.len() ==> base <= #[trigger] out@[i] < base + n,
        ensures
            whole == out@,
            forall|i: int| 0 <= i < out@.len() ==> base <= #[trigger] out@[i] < base + n,
        decreases limit - out.len(),
    {
        proof {
            lemma_found_within(base, n as nat, cursor, None);
        }
        match find_within(base, n, cursor, None, false) {
            None => {
                assert(out@ + Seq::<u64>::empty() =~= out@);
                break ;
            },
            Some(id) => {
                let ghost rest = ascending_ids(
                    base,
                    n as nat,
                    Some(id),
                    (limit - out.len() - 1) as nat,
                );
                assert(out@ + (seq![id] + rest) =~= out@.push(id) + rest);
                out.push(id);
                cursor = Some(id);
            },
        }
    }
    proof {
        if out.len() == limit {
            assert(out@ + Seq::<u64>::empty() =~= out@);
        }
    }
    out
}

/// The page of ids that `descending_ids` names.
pub fn descending_page(base: u64, n: u64, lo: Option<u64>, limit: usize) -> (out: Vec<u64>)
    requires
        base + n <= u64::MAX + 1,
    ensures
        out@ == descending_ids(base, n as nat, lo, None, limit as nat),
        forall|i: int| 0 <= i < out@.len() ==> base <= #[trigger] out@[i] < base + n,
{
    let mut out: Vec<u64> = Vec::new();
    let mut cursor: Option<u64> = None;
    let ghost whole = descending_ids(base, n as nat, lo, None, limit as nat);
    assert(out@ + whole =~= whole);
    while out.len() < limit
        invariant
            out.len() <= limit,
            base + n <= u64::MAX + 1,
            whole == out@ + descending_ids(
                base,
                n as nat,
                lo,
                cursor,
                (limit - out.len()) as nat,
            ),
            forall|i: int| 0 <= i < out@.len() ==> base <= #[trigger] out@[i] < base + n,
        ensures
            whole == out@,
            forall|i: int| 0 <= i < out@.len() ==> base <= #[trigger] out@[i] < base + n,
        decreases limit - out.len(),
    {
        proof {
            lemma_found_within(base, n as nat, lo, cursor);
        }
        match find_within(base, n, lo, cursor, true) {
            None => {
                assert(out@ + Seq::<u64>::empty() =~= out@);
                break ;
            },
            Some(id) => {
                let ghost rest = descending_ids(
                    base,
                    n as nat,
                    lo,
                    Some(id),
                    (limit - out.len() - 1) as nat,
                );
                assert(out@ + (seq![id] + rest) =~= out@.push(id) + rest);
                out.push(id);
                cursor = Some(id);
            },
        }
    }
    proof {
        if out.len() == limit {
            assert(out@ + Seq::<u64>::empty() =~= out@);
        }
    }
    out
}

} // verus!
