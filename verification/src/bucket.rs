//! Cutting a time range into buckets.
//!
//! A query with many matches is split by time: the span between its oldest
//! and its newest match is cut into consecutive closed ranges of whole
//! seconds, each of which can be walked on its own. The cut assumes that the
//! matches are spread evenly over the span, which is a guess and no promise:
//! the ranges always cover the span exactly, the number of matches in each
//! is only roughly the desired one.

use vstd::prelude::*;

verus! {

/// The number of matches that one bucket should hold.
pub const DESIRED_BUCKET_VOLUME: i64 = 25;

/// The largest bucket count that is ever chosen.
pub const MAX_BUCKETS: i64 = 200;

/// The earliest second that bucket arithmetic accepts.
pub const MIN_TIMESTAMP: i64 = -0x2000_0000_0000_0000;

/// The latest second that bucket arithmetic accepts.
pub const MAX_TIMESTAMP: i64 = 0x2000_0000_0000_0000;

/// Whether `t` lies in the range of seconds that bucket arithmetic accepts:
/// a quarter of what an `i64` holds, on either side of the epoch, so that
/// the distance between two timestamps is again an `i64`.
pub open spec fn is_timestamp(t: int) -> bool {
    MIN_TIMESTAMP <= t <= MAX_TIMESTAMP
}

/// The bucket count for `total` matches: one per `DESIRED_BUCKET_VOLUME`
/// matches, rounded down, and at most `MAX_BUCKETS`.
pub open spec fn bucket_count(total: int) -> int {
    if total / (DESIRED_BUCKET_VOLUME as int) < MAX_BUCKETS {
        total / (DESIRED_BUCKET_VOLUME as int)
    } else {
        MAX_BUCKETS as int
    }
}

/// The number of ranges that are generated: one more than the bucket count,
/// and none for a negative total.
pub open spec fn range_count(total: int) -> nat {
    if bucket_count(total) >= 0 {
        (bucket_count(total) + 1) as nat
    } else {
        0
    }
}

/// The width of a bucket in seconds: the span divided by one more than the
/// bucket count, rounded down.
pub open spec fn bucket_width(total: int, oldest: int, newest: int) -> int {
    (newest - oldest) / (bucket_count(total) + 1)
}

/// The first second of range `i`.
pub open spec fn range_start(total: int, oldest: int, newest: int, i: int) -> int {
    if i == 0 {
        oldest
    } else {
        oldest + i * bucket_width(total, oldest, newest) + 1
    }
}

/// The last second of range `i`.
pub open spec fn range_end(total: int, oldest: int, newest: int, i: int) -> int {
    if i == bucket_count(total) {
        newest
    } else {
        oldest + (i + 1) * bucket_width(total, oldest, newest)
    }
}

/// The ranges that `total` matches between `oldest` and `newest` are cut
/// into, oldest first, each as its first and its last second.
pub open spec fn ranges(total: int, oldest: int, newest: int) -> Seq<(int, int)> {
    Seq::new(
        range_count(total),
        |i: int| (range_start(total, oldest, newest, i), range_end(total, oldest, newest, i)),
    )
}

/// A range of the library as a pair of mathematical integers.
pub open spec fn range_view(range: (i64, i64)) -> (int, int) {
    (range.0 as int, range.1 as int)
}

/// Rounding down agrees with rounding towards zero on the negated
/// numerator, as the executable code computes it.
proof fn lemma_floor_of_negative(m: int, d: int)
    requires
        m > 0,
        d > 0,
    ensures
        (-m) / d == -((m + d - 1) / d),
{
    let q = (m + d - 1) / d;
    let r = (m + d - 1) % d;
    assert(m + d - 1 == d * q + r && 0 <= r < d) by {
        vstd::arithmetic::div_mod::lemma_fundamental_div_mod(m + d - 1, d);
        vstd::arithmetic::div_mod::lemma_mod_bound(m + d - 1, d);
    }
    // -m == d * (-q) + (d - 1 - r), with 0 <= d - 1 - r < d
    assert(-m == (-q) * d + (d - 1 - r)) by (nonlinear_arith)
        requires
            m + d - 1 == d * q + r,
    ;
    vstd::arithmetic::div_mod::lemma_fundamental_div_mod_converse(-m, d, -q, d - 1 - r);
}

/// The width lies between the span divided exactly, and one less.
pub proof fn lemma_width_bounds(total: int, oldest: int, newest: int)
    requires
        bucket_count(total) >= 0,
    ensures
        (bucket_count(total) + 1) * bucket_width(total, oldest, newest) <= newest - oldest,
        newest - oldest < (bucket_count(total) + 1) * bucket_width(total, oldest, newest)
            + bucket_count(total) + 1,
        oldest <= newest ==> bucket_width(total, oldest, newest) >= 0,
{
    let d = bucket_count(total) + 1;
    let s = newest - oldest;
    vstd::arithmetic::div_mod::lemma_fundamental_div_mod(s, d);
    vstd::arithmetic::div_mod::lemma_mod_bound(s, d);
    if oldest <= newest {
        vstd::arithmetic::div_mod::lemma_div_pos_is_pos(s, d);
    }
}

/// Coverage: for a total that is not negative and a span that does not run
/// backwards, the ranges tile the span. There is at least one range and at
/// most one more than `MAX_BUCKETS`. The first starts at `oldest`, the
/// last ends at `newest`, each of the others starts one second after the one
/// before it ends, no two of them share a second, none reaches outside the
/// span, and every second of the span lies in one of them.
pub proof fn lemma_ranges_cover(total: int, oldest: int, newest: int)
    requires
        total >= 0,
        oldest <= newest,
    ensures
        ranges(total, oldest, newest).len() == bucket_count(total) + 1,
        1 <= ranges(total, oldest, newest).len() <= MAX_BUCKETS + 1,
        ranges(total, oldest, newest).first().0 == oldest,
        ranges(total, oldest, newest).last().1 == newest,
        forall|i: int|
            0 <= i < ranges(total, oldest, newest).len() - 1 ==> (#[trigger] ranges(
                total,
                oldest,
                newest,
            )[i + 1]).0 == ranges(total, oldest, newest)[i].1 + 1,
        forall|i: int, j: int|
            0 <= i < j < ranges(total, oldest, newest).len() ==> (#[trigger] ranges(
                total,
                oldest,
                newest,
            )[i]).1 < (#[trigger] ranges(total, oldest, newest)[j]).0,
        forall|i: int|
            0 <= i < ranges(total, oldest, newest).len() ==> oldest <= (#[trigger] ranges(
                total,
                oldest,
                newest,
            )[i]).0 && ranges(total, oldest, newest)[i].1 <= newest,
        forall|t: int|
            oldest <= t <= newest ==> #[trigger] covers(ranges(total, oldest, newest), t),
{
    let n = bucket_count(total);
    let w = bucket_width(total, oldest, newest);
    let s = newest - oldest;
    let b = ranges(total, oldest, newest);
    assert(n >= 0) by {
        vstd::arithmetic::div_mod::lemma_div_pos_is_pos(total, DESIRED_BUCKET_VOLUME as int);
    }
    lemma_width_bounds(total, oldest, newest);
    assert forall|i: int, j: int| 0 <= i < j < b.len() implies (#[trigger] b[i]).1 < (
    #[trigger] b[j]).0 by {
        lemma_edge_bounds(n, w, s, i);
        lemma_edge_bounds(n, w, s, j);
        assert((i + 1) * w <= j * w) by (nonlinear_arith)
            requires
                w >= 0,
                i + 1 <= j,
        ;
    }
    assert forall|i: int| 0 <= i < b.len() implies oldest <= (#[trigger] b[i]).0 && b[i].1
        <= newest by {
        lemma_edge_bounds(n, w, s, i);
    }
    assert forall|t: int| oldest <= t <= newest implies #[trigger] covers(b, t) by {
        lemma_range_of(total, oldest, newest, t);
        assert(in_range(b[range_of(total, oldest, newest, t)], t));
    }
}

/// Whether second `t` lies in `range`.
pub open spec fn in_range(range: (int, int), t: int) -> bool {
    range.0 <= t <= range.1
}

/// Whether second `t` lies in one of `ranges`.
pub open spec fn covers(ranges: Seq<(int, int)>, t: int) -> bool {
    exists|i: int| 0 <= i < ranges.len() && in_range(#[trigger] ranges[i], t)
}

/// The index of the range that holds second `t` of the span.
pub open spec fn range_of(total: int, oldest: int, newest: int, t: int) -> int {
    let n = bucket_count(total);
    let w = bucket_width(total, oldest, newest);
    if t <= oldest + w {
        0
    } else if w == 0 || (t - oldest - 1) / w >= n {
        n
    } else {
        (t - oldest - 1) / w
    }
}

/// `range_of` names a range that holds `t`.
pub proof fn lemma_range_of(total: int, oldest: int, newest: int, t: int)
    requires
        total >= 0,
        oldest <= t <= newest,
    ensures
        0 <= range_of(total, oldest, newest, t) < ranges(total, oldest, newest).len(),
        in_range(ranges(total, oldest, newest)[range_of(total, oldest, newest, t)], t),
{
    let n = bucket_count(total);
    let w = bucket_width(total, oldest, newest);
    let i = range_of(total, oldest, newest, t);
    assert(n >= 0) by {
        vstd::arithmetic::div_mod::lemma_div_pos_is_pos(total, DESIRED_BUCKET_VOLUME as int);
    }
    lemma_width_bounds(total, oldest, newest);
    if t <= oldest + w {
        assert((0 + 1) * w == w) by (nonlinear_arith);
    } else if w == 0 {
        assert(n * w == 0) by (nonlinear_arith)
            requires
                w == 0,
        ;
    } else {
        let k = (t - oldest - 1) / w;
        vstd::arithmetic::div_mod::lemma_fundamental_div_mod(t - oldest - 1, w);
        vstd::arithmetic::div_mod::lemma_mod_bound(t - oldest - 1, w);
        assert(k >= 1) by (nonlinear_arith)
            requires
                t - oldest - 1 == w * k + (t - oldest - 1) % w,
                (t - oldest - 1) % w < w,
                t - oldest - 1 >= w,
                w > 0,
        ;
        assert(w * k <= t - oldest - 1 < w * k + w);
        if k >= n {
            assert(n * w <= w * k) by (nonlinear_arith)
                requires
                    n <= k,
                    w > 0,
            ;
            assert(i == n);
        } else {
            assert((k + 1) * w == w * k + w && k * w == w * k) by (nonlinear_arith);
            assert(i == k);
        }
    }
}

/// Computes the bucket count of `total`, which is not negative.
fn count_buckets(total: i64) -> (n: i64)
    requires
        total >= 0,
    ensures
        n == bucket_count(total as int),
        0 <= n <= MAX_BUCKETS,
{
    let q: i64 = total / DESIRED_BUCKET_VOLUME;
    if q < MAX_BUCKETS {
        q
    } else {
        MAX_BUCKETS
    }
}

/// Computes the width of a bucket.
fn width_of(total: i64, oldest: i64, newest: i64) -> (w: i64)
    requires
        total >= 0,
        is_timestamp(oldest as int),
        is_timestamp(newest as int),
    ensures
        w == bucket_width(total as int, oldest as int, newest as int),
{
    let d: i64 = count_buckets(total) + 1;
    let span: i64 = newest - oldest;
    if span >= 0 {
        span / d
    } else {
        proof {
            lemma_floor_of_negative(-(span as int), d as int);
        }
        let m: i64 = -span;
        -((m + d - 1) / d)
    }
}

/// Cuts the span from `oldest` to `newest`, which holds `total` matches,
/// into ranges: the first starts at `oldest`, the last ends at `newest`, and
/// each of the others starts one second after the one before it ends.
///
/// A negative `total` yields no range. Both timestamps must be ones that
/// bucket arithmetic accepts.
pub fn chunked(total: i64, oldest: i64, newest: i64) -> (buckets: Vec<(i64, i64)>)
    requires
        is_timestamp(oldest as int),
        is_timestamp(newest as int),
    ensures
        buckets@.map_values(|b: (i64, i64)| range_view(b)) == ranges(
            total as int,
            oldest as int,
            newest as int,
        ),
        buckets@.len() <= MAX_BUCKETS + 1,
{
    let mut buckets: Vec<(i64, i64)> = Vec::new();
    if total < 0 {
        assert(bucket_count(total as int) < 0);
        assert(buckets@.map_values(|b: (i64, i64)| range_view(b)) =~= ranges(
            total as int,
            oldest as int,
            newest as int,
        ));
        return buckets;
    }
    let n: i64 = count_buckets(total);
    let w: i64 = width_of(total, oldest, newest);
    let mut c: i64 = 0;
    while c <= n
        invariant
            0 <= c <= n + 1,
            0 <= n <= MAX_BUCKETS,
            total >= 0,
            n == bucket_count(total as int),
            w == bucket_width(total as int, oldest as int, newest as int),
            is_timestamp(oldest as int),
            is_timestamp(newest as int),
            buckets@.len() == c,
            forall|i: int|
                0 <= i < c ==> range_view(#[trigger] buckets@[i]) == ranges(
                    total as int,
                    oldest as int,
                    newest as int,
                )[i],
        decreases n + 1 - c,
    {
        buckets.push(range_at(total, oldest, newest, n, w, c));
        c = c + 1;
    }
    assert(buckets@.map_values(|b: (i64, i64)| range_view(b)) =~= ranges(
        total as int,
        oldest as int,
        newest as int,
    ));
    buckets
}

/// Computes range `i` alone, for a caller that wants the ranges one at a
/// time: `None` if there is no such range.
pub fn bucket_at(total: i64, oldest: i64, newest: i64, i: usize) -> (bucket: Option<(i64, i64)>)
    requires
        is_timestamp(oldest as int),
        is_timestamp(newest as int),
    ensures
        bucket is Some <==> i < ranges(total as int, oldest as int, newest as int).len(),
        bucket is Some ==> range_view(bucket->0) == ranges(
            total as int,
            oldest as int,
            newest as int,
        )[i as int],
{
    if total < 0 {
        assert(bucket_count(total as int) < 0);
        return None;
    }
    let n: i64 = count_buckets(total);
    if i > n as usize {
        return None;
    }
    let w: i64 = width_of(total, oldest, newest);
    Some(range_at(total, oldest, newest, n, w, i as i64))
}

/// Computes range `c` from the bucket count `n` and the width `w`.
fn range_at(total: i64, oldest: i64, newest: i64, n: i64, w: i64, c: i64) -> (range: (i64, i64))
    requires
        total >= 0,
        is_timestamp(oldest as int),
        is_timestamp(newest as int),
        n == bucket_count(total as int),
        w == bucket_width(total as int, oldest as int, newest as int),
        0 <= c <= n,
    ensures
        range_view(range) == ranges(total as int, oldest as int, newest as int)[c as int],
{
    proof {
        lemma_width_bounds(total as int, oldest as int, newest as int);
        lemma_edge_bounds(n as int, w as int, newest - oldest, c as int);
    }
    let l: i64 = if c == 0 {
        oldest
    } else {
        oldest + (c * w + 1)
    };
    let r: i64 = if c == n {
        newest
    } else {
        oldest + (c + 1) * w
    };
    (l, r)
}

/// With `n + 1` ranges of width `w` in a span of `s` seconds, the offsets of
/// the edges of range `c` stay within the span, give or take the ranges'
/// number.
proof fn lemma_edge_bounds(n: int, w: int, s: int, c: int)
    requires
        0 <= c <= n,
        (n + 1) * w <= s < (n + 1) * w + n + 1,
    ensures
        s >= 0 ==> 0 <= c * w <= s && 0 <= (c + 1) * w <= s,
        s < 0 ==> s - n - 1 < c * w <= 0 && s - n - 1 < (c + 1) * w <= 0,
{
    if s >= 0 {
        assert(w >= 0) by (nonlinear_arith)
            requires
                s < (n + 1) * w + n + 1,
                s >= 0,
                n >= 0,
        ;
        assert(0 <= c * w && c * w <= (c + 1) * w && (c + 1) * w <= (n + 1) * w)
            by (nonlinear_arith)
            requires
                w >= 0,
                0 <= c <= n,
        ;
    } else {
        assert(w < 0) by (nonlinear_arith)
            requires
                (n + 1) * w <= s,
                s < 0,
                n >= 0,
        ;
        assert(c * w <= 0 && (c + 1) * w <= c * w && (n + 1) * w <= (c + 1) * w)
            by (nonlinear_arith)
            requires
                w < 0,
                0 <= c <= n,
        ;
    }
}

} // verus!
