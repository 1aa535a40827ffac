//! History compression: fitting a bounded history into a fixed number of
//! display cells without stretching or inventing data.
use std::collections::VecDeque;
use vstd::math::{max, min};
use vstd::prelude::*;

use crate::text::push_char;

verus! {

/// Number of newest samples that form tier 0.
pub const TIER0_END: usize = 120;

/// Samples up to this age (exclusive) belong to tier 1; older ones to tier 2.
pub const TIER1_END: usize = 300;

/// Preferred compression ratio of tier 1 (samples per bar).
pub const TIER1_RATIO: usize = 4;

/// Preferred compression ratio of tier 2 (samples per bar).
pub const TIER2_RATIO: usize = 15;

/// How a history was split into tiers, and how many bars each tier got.
#[derive(Debug, Clone, Copy, PartialEq, Eq, Structural)]
pub struct CompressionScheme {
    pub tier0_bars: usize,
    pub tier1_bars: usize,
    pub tier2_bars: usize,
    pub tier0_samples: usize,
    pub tier1_samples: usize,
    pub tier2_samples: usize,
}

/// Mathematical counterpart of [`CompressionScheme`].
pub struct Plan {
    pub tier0_bars: int,
    pub tier1_bars: int,
    pub tier2_bars: int,
    pub tier0_samples: int,
    pub tier1_samples: int,
    pub tier2_samples: int,
}

impl View for CompressionScheme {
    type V = Plan;

    open spec fn view(&self) -> Plan {
        Plan {
            tier0_bars: self.tier0_bars as int,
            tier1_bars: self.tier1_bars as int,
            tier2_bars: self.tier2_bars as int,
            tier0_samples: self.tier0_samples as int,
            tier1_samples: self.tier1_samples as int,
            tier2_samples: self.tier2_samples as int,
        }
    }
}

pub open spec fn plan_of(b0: int, b1: int, b2: int, s0: int, s1: int, s2: int) -> Plan {
    Plan {
        tier0_bars: b0,
        tier1_bars: b1,
        tier2_bars: b2,
        tier0_samples: s0,
        tier1_samples: s1,
        tier2_samples: s2,
    }
}

impl Plan {
    pub open spec fn total_bars(self) -> int {
        self.tier0_bars + self.tier1_bars + self.tier2_bars
    }

    pub open spec fn total_samples(self) -> int {
        self.tier0_samples + self.tier1_samples + self.tier2_samples
    }

    /// No tier has more bars than samples.
    pub open spec fn never_stretches(self) -> bool {
        &&& 0 <= self.tier0_bars <= self.tier0_samples
        &&& 0 <= self.tier1_bars <= self.tier1_samples
        &&& 0 <= self.tier2_bars <= self.tier2_samples
    }
}

pub open spec fn two_thirds(x: int) -> int {
    2 * x / 3
}

/// Sample counts of tiers 0, 1 and 2 for a history of `len` samples.
pub open spec fn tier_sizes(len: int) -> (int, int, int) {
    (
        min(len, TIER0_END as int),
        if len > TIER0_END { min(len - TIER0_END, TIER1_END - TIER0_END) } else { 0 },
        if len > TIER1_END { len - TIER1_END } else { 0 },
    )
}

/// Bars a tier of `n` samples would get at its preferred ratio (at least one).
pub open spec fn ideal_bars(n: int, ratio: int) -> int {
    if n > 0 { max(n / ratio, 1) } else { 0 }
}

/// Bars of tiers 1 and 2 when tier 0 is shown in full and `rem` cells are left.
/// Tier 2 gets its preferred share (capped by its samples) and tier 1 takes
/// the rest, so the cells are filled whenever the two tiers have the samples.
pub open spec fn older_tier_bars(n1: int, n2: int, rem: int) -> (int, int) {
    if rem >= n1 + n2 {
        (n1, n2)
    } else {
        let i1 = ideal_bars(n1, TIER1_RATIO as int);
        let i2 = ideal_bars(n2, TIER2_RATIO as int);
        let b2 = if rem >= i1 + i2 {
            let extra = rem - i1 - i2;
            i2 + min(extra - min(two_thirds(extra), n1 - i1), n2 - i2)
        } else if rem > 0 && n2 > 0 {
            let first = if n1 > 0 { min(max(two_thirds(rem), 1), n1) } else { 0 };
            min(rem - first, n2)
        } else {
            0
        };
        (rem - b2, b2)
    }
}

/// The plan when tier 0 does not fit at one bar per sample (`0 < w < n0`).
pub open spec fn constrained_plan(n0: int, n1: int, n2: int, w: int) -> Plan {
    if n1 == 0 && n2 == 0 {
        // only tier 0 has data: keep its newest third sharper than the rest
        let recent = max(n0 / 3, 1);
        let recent_bars = min(max(two_thirds(w), 1), recent);
        plan_of(recent_bars, w - recent_bars, 0, recent, n0 - recent, 0)
    } else {
        let tiers = 1 + (if n1 > 0 { 1int } else { 0 }) + (if n2 > 0 { 1int } else { 0 });
        if w < tiers {
            let b1 = if n1 > 0 && w > 1 { 1int } else { 0 };
            let b2 = if n2 > 0 { max(w - 1 - b1, 0) } else { 0 };
            plan_of(1, b1, b2, n0, n1, n2)
        } else if w == tiers {
            plan_of(
                1,
                if n1 > 0 { 1 } else { 0 },
                if n2 > 0 { 1 } else { 0 },
                n0,
                n1,
                n2,
            )
        } else {
            let rem = w - max(two_thirds(w), 1);
            let b2 = if n2 > 0 && rem > 0 {
                let first = if n1 > 0 {
                    max(two_thirds(rem), if rem > 1 { 1int } else { 0 })
                } else {
                    0
                };
                min(rem - first, n2)
            } else {
                0
            };
            // what the older tiers cannot hold stays with tier 0
            let b1 = min(rem - b2, n1);
            plan_of(w - b1 - b2, b1, b2, n0, n1, n2)
        }
    }
}

/// The compression plan for a history of `len` samples shown in `width` cells.
pub open spec fn plan(len: int, width: int) -> Plan {
    if len <= 0 || width <= 0 {
        plan_of(0, 0, 0, 0, 0, 0)
    } else {
        let (n0, n1, n2) = tier_sizes(len);
        if width >= n0 {
            let (b1, b2) = older_tier_bars(n1, n2, width - n0);
            plan_of(n0, b1, b2, n0, n1, n2)
        } else {
            constrained_plan(n0, n1, n2, width)
        }
    }
}

proof fn lemma_two_thirds(x: int)
    requires
        x >= 0,
    ensures
        0 <= two_thirds(x) <= x,
        x - two_thirds(x) <= x / 3 + 1,
        x >= 2 ==> two_thirds(x) >= 1,
{
}

/// The plan fills `min(width, len)` cells, never stretches a tier, and splits
/// the whole history among the tiers.
pub proof fn lemma_plan_invariants(len: int, width: int)
    requires
        len >= 0,
        width >= 0,
    ensures
        plan(len, width).total_bars() == min(width, len),
        plan(len, width).never_stretches(),
        len > 0 && width > 0 ==> plan(len, width).total_samples() == len,
        len == 0 || width == 0 ==> plan(len, width) == plan_of(0, 0, 0, 0, 0, 0),
        width >= tier_sizes(len).0 ==> plan(len, width).tier0_bars == plan(len, width).tier0_samples,
{
    if len > 0 && width > 0 {
        let (n0, n1, n2) = tier_sizes(len);
        if width >= n0 {
            let rem = width - n0;
            lemma_two_thirds(rem);
            let extra = rem - ideal_bars(n1, TIER1_RATIO as int) - ideal_bars(n2, TIER2_RATIO as int);
            if extra >= 0 {
                lemma_two_thirds(extra);
            }
        } else {
            lemma_two_thirds(width);
            let rem = width - max(two_thirds(width), 1);
            if rem >= 0 {
                lemma_two_thirds(rem);
            }
        }
    }
}

fn two_thirds_of(x: usize) -> (r: usize)
    ensures
        r == two_thirds(x as int),
{
    x / 3 * 2 + x % 3 * 2 / 3
}

fn ideal_bars_of(n: usize, ratio: usize) -> (r: usize)
    requires
        ratio > 0,
    ensures
        r == ideal_bars(n as int, ratio as int),
{
    if n == 0 {
        0
    } else if n / ratio > 1 {
        n / ratio
    } else {
        1
    }
}

fn older_tier_bars_of(n1: usize, n2: usize, rem: usize) -> (r: (usize, usize))
    requires
        n1 + n2 <= usize::MAX,
    ensures
        r.0 == older_tier_bars(n1 as int, n2 as int, rem as int).0,
        r.1 == older_tier_bars(n1 as int, n2 as int, rem as int).1,
{
    if rem >= n1 + n2 {
        return (n1, n2);
    }
    let i1 = ideal_bars_of(n1, TIER1_RATIO);
    let i2 = ideal_bars_of(n2, TIER2_RATIO);
    let b2 = if rem >= i1 + i2 {
        let extra = rem - i1 - i2;
        let e1 = two_thirds_of(extra);
        let e1 = if e1 < n1 - i1 { e1 } else { n1 - i1 };
        let e2 = extra - e1;
        i2 + if e2 < n2 - i2 { e2 } else { n2 - i2 }
    } else if rem > 0 && n2 > 0 {
        let first = if n1 > 0 {
            let f = two_thirds_of(rem);
            let f = if f > 1 { f } else { 1 };
            if f < n1 { f } else { n1 }
        } else {
            0
        };
        proof { lemma_two_thirds(rem as int); }
        let d = rem - first;
        if d < n2 { d } else { n2 }
    } else {
        0
    };
    (rem - b2, b2)
}

fn constrained_plan_of(n0: usize, n1: usize, n2: usize, w: usize) -> (s: CompressionScheme)
    requires
        0 < w < n0,
    ensures
        s@ == constrained_plan(n0 as int, n1 as int, n2 as int, w as int),
{
    proof { lemma_two_thirds(w as int); }
    if n1 == 0 && n2 == 0 {
        let recent = if n0 / 3 > 1 { n0 / 3 } else { 1 };
        let rb = two_thirds_of(w);
        let rb = if rb > 1 { rb } else { 1 };
        let rb = if rb < recent { rb } else { recent };
        return CompressionScheme {
            tier0_bars: rb,
            tier1_bars: w - rb,
            tier2_bars: 0,
            tier0_samples: recent,
            tier1_samples: n0 - recent,
            tier2_samples: 0,
        };
    }
    let tiers: usize = 1 + (if n1 > 0 { 1usize } else { 0 }) + (if n2 > 0 { 1usize } else { 0 });
    let (b0, b1, b2) = if w < tiers {
        let b1: usize = if n1 > 0 && w > 1 { 1 } else { 0 };
        let b2: usize = if n2 > 0 && w > 1 + b1 { w - 1 - b1 } else { 0 };
        (1usize, b1, b2)
    } else if w == tiers {
        (1usize, if n1 > 0 { 1usize } else { 0 }, if n2 > 0 { 1usize } else { 0 })
    } else {
        let first = two_thirds_of(w);
        let first = if first > 1 { first } else { 1 };
        let rem = w - first;
        proof { lemma_two_thirds(rem as int); }
        let b2 = if n2 > 0 && rem > 0 {
            let f = if n1 > 0 {
                let f = two_thirds_of(rem);
                if f > 1 || rem <= 1 { f } else { 1 }
            } else {
                0
            };
            if rem - f < n2 { rem - f } else { n2 }
        } else {
            0
        };
        let b1 = if rem - b2 < n1 { rem - b2 } else { n1 };
        (w - b1 - b2, b1, b2)
    };
    CompressionScheme {
        tier0_bars: b0,
        tier1_bars: b1,
        tier2_bars: b2,
        tier0_samples: n0,
        tier1_samples: n1,
        tier2_samples: n2,
    }
}

/// The tier split and bar counts for `hist_len` samples in `width` cells.
pub fn allocate(hist_len: usize, width: usize) -> (s: CompressionScheme)
    ensures
        s@ == plan(hist_len as int, width as int),
{
    if hist_len == 0 || width == 0 {
        return CompressionScheme {
            tier0_bars: 0,
            tier1_bars: 0,
            tier2_bars: 0,
            tier0_samples: 0,
            tier1_samples: 0,
            tier2_samples: 0,
        };
    }
    let n0 = if hist_len < TIER0_END { hist_len } else { TIER0_END };
    let n1 = if hist_len > TIER0_END {
        let d = hist_len - TIER0_END;
        if d < TIER1_END - TIER0_END { d } else { TIER1_END - TIER0_END }
    } else {
        0
    };
    let n2 = if hist_len > TIER1_END { hist_len - TIER1_END } else { 0 };
    if width >= n0 {
        let (b1, b2) = older_tier_bars_of(n1, n2, width - n0);
        CompressionScheme {
            tier0_bars: n0,
            tier1_bars: b1,
            tier2_bars: b2,
            tier0_samples: n0,
            tier1_samples: n1,
            tier2_samples: n2,
        }
    } else {
        constrained_plan_of(n0, n1, n2, width)
    }
}

/// One display cell: the samples it summarizes, as their sum and count, so
/// that its value, the mean `sum / count`, is exact.
#[derive(Debug, Clone, Copy, PartialEq, Eq, Structural)]
pub struct Bar {
    pub sum: u128,
    pub count: usize,
}

/// Sum of `h[lo..hi]`.
pub open spec fn range_sum(h: Seq<u64>, lo: int, hi: int) -> int
    decreases hi - lo,
{
    if hi <= lo {
        0
    } else {
        range_sum(h, lo, hi - 1) + h[hi - 1]
    }
}

/// Sample range `[lo, hi)` of bar `i` among `k` bars over `n` samples from `start`.
pub open spec fn tier_bar_range(start: int, n: int, k: int, i: int) -> (int, int) {
    (start + i * n / k, start + (i + 1) * n / k)
}

/// Sample range of bar `j` of the whole compressed sequence under plan `p`:
/// tier 0's bars first, then tier 1's, then tier 2's.
pub open spec fn bar_range(p: Plan, j: int) -> (int, int) {
    if j < p.tier0_bars {
        tier_bar_range(0, p.tier0_samples, p.tier0_bars, j)
    } else if j < p.tier0_bars + p.tier1_bars {
        tier_bar_range(p.tier0_samples, p.tier1_samples, p.tier1_bars, j - p.tier0_bars)
    } else {
        tier_bar_range(
            p.tier0_samples + p.tier1_samples,
            p.tier2_samples,
            p.tier2_bars,
            j - p.tier0_bars - p.tier1_bars,
        )
    }
}

/// `b` summarizes exactly the samples `h[lo..hi]`.
pub open spec fn summarizes(b: Bar, h: Seq<u64>, lo: int, hi: int) -> bool {
    b.count == hi - lo && b.sum == range_sum(h, lo, hi)
}

proof fn lemma_range_sum_bound(h: Seq<u64>, lo: int, hi: int)
    requires
        lo <= hi,
    ensures
        0 <= range_sum(h, lo, hi) <= (hi - lo) * (u64::MAX as int),
    decreases hi - lo,
{
    if lo < hi {
        lemma_range_sum_bound(h, lo, hi - 1);
    }
}

proof fn lemma_tier_bar_range(n: int, k: int, i: int)
    requires
        0 <= i < k <= n,
    ensures
        0 <= i * n / k < (i + 1) * n / k <= n,
{
    assert(i * n >= 0) by (nonlinear_arith)
        requires
            0 <= i,
            0 <= n,
    ;
    vstd::arithmetic::div_mod::lemma_div_pos_is_pos(i * n, k);
    assert((i + 1) * n == i * n + n) by (nonlinear_arith);
    vstd::arithmetic::div_mod::lemma_div_plus_one(i * n, k);
    assert(k + i * n == i * n + k);
    vstd::arithmetic::div_mod::lemma_div_is_ordered(i * n + k, (i + 1) * n, k);
    assert((i + 1) * n <= k * n) by (nonlinear_arith)
        requires
            i + 1 <= k,
            0 <= n,
    ;
    vstd::arithmetic::div_mod::lemma_div_is_ordered((i + 1) * n, k * n, k);
    vstd::arithmetic::div_mod::lemma_div_multiples_vanish(n, k);
}

proof fn lemma_full_resolution_range(start: int, n: int, i: int)
    requires
        0 <= i < n,
    ensures
        tier_bar_range(start, n, n, i) == (start + i, start + i + 1),
{
    vstd::arithmetic::div_mod::lemma_div_by_multiple(i, n);
    vstd::arithmetic::div_mod::lemma_div_by_multiple(i + 1, n);
}

proof fn lemma_single_sample(h: Seq<u64>, j: int)
    ensures
        range_sum(h, j, j + 1) == h[j],
{
    assert(range_sum(h, j, j) == 0);
}

/// A history shown in at least as many cells as it has samples gets one bar
/// per sample in every tier.
pub proof fn lemma_plan_full_resolution(len: int, width: int)
    requires
        0 < len <= width,
    ensures
        plan(len, width).tier0_bars == plan(len, width).tier0_samples,
        plan(len, width).tier1_bars == plan(len, width).tier1_samples,
        plan(len, width).tier2_bars == plan(len, width).tier2_samples,
        plan(len, width).total_samples() == len,
{
}

/// With 600 samples of history, every width from 1 to 600 is filled exactly.
pub proof fn lemma_full_history_fills_width(width: int)
    requires
        1 <= width <= 600,
    ensures
        plan(600, width).total_bars() == width,
        plan(600, width).tier0_bars + plan(600, width).tier1_bars + plan(600, width).tier2_bars
            == width,
{
    lemma_plan_invariants(600, width);
}

/// Appends the `bars` bars that summarize `count` samples of `hist` from `start`.
fn compress_tier(hist: &VecDeque<u64>, start: usize, count: usize, bars: usize, out: &mut Vec<Bar>)
    requires
        bars <= count,
        start + count <= hist@.len(),
    ensures
        final(out)@.len() == old(out)@.len() + bars,
        final(out)@.subrange(0, old(out)@.len() as int) == old(out)@,
        forall|i: int|
            0 <= i < bars ==> {
                let (lo, hi) = tier_bar_range(start as int, count as int, bars as int, i);
                &&& summarizes(#[trigger] final(out)@[old(out)@.len() + i], hist@, lo, hi)
                &&& lo < hi
            },
{
    let ghost base = old(out)@.len();
    let hist_len = hist.len();
    let mut i: usize = 0;
    while i < bars
        invariant
            i <= bars <= count,
            start + count <= hist_len == hist@.len(),
            out@.len() == base + i,
            out@.subrange(0, base as int) == old(out)@,
            forall|b: int|
                0 <= b < i ==> {
                    let (lo, hi) = tier_bar_range(start as int, count as int, bars as int, b);
                    &&& summarizes(#[trigger] out@[base + b], hist@, lo, hi)
                    &&& lo < hi
                },
        decreases bars - i,
    {
        proof {
            lemma_tier_bar_range(count as int, bars as int, i as int);
            assert(i * count <= (i + 1) * count <= u128::MAX) by (nonlinear_arith)
                requires
                    i + 1 <= usize::MAX,
                    count <= usize::MAX,
            ;
        }
        let lo_off = (i as u128 * count as u128 / bars as u128) as usize;
        let hi_off = ((i as u128 + 1) * count as u128 / bars as u128) as usize;
        assert(lo_off as int == i as int * count as int / bars as int);
        assert(hi_off as int == (i as int + 1) * count as int / bars as int);
        let lo = start + lo_off;
        let hi = start + hi_off;
        let mut sum: u128 = 0;
        let mut j: usize = lo;
        while j < hi
            invariant
                lo <= j <= hi <= hist@.len(),
                sum == range_sum(hist@, lo as int, j as int),
            decreases hi - j,
        {
            proof {
                lemma_range_sum_bound(hist@, lo as int, j as int + 1);
                assert((j + 1 - lo) * (u64::MAX as int) <= u128::MAX) by (nonlinear_arith)
                    requires
                        j + 1 - lo <= usize::MAX,
                ;
            }
            sum = sum + hist[j] as u128;
            j = j + 1;
        }
        out.push(Bar { sum, count: hi - lo });
        proof {
            assert(out@.subrange(0, base as int) =~= old(out)@);
        }
        i = i + 1;
    }
}

/// Compresses `hist` (most recent sample first) into `min(width, hist.len())`
/// bars, returned newest first together with the plan that produced them.
pub fn compress_history(hist: &VecDeque<u64>, width: usize) -> (r: (Vec<Bar>, CompressionScheme))
    ensures
        r.1@ == plan(hist@.len() as int, width as int),
        r.0@.len() == min(width as int, hist@.len() as int),
        r.1@.never_stretches(),
        width as int >= tier_sizes(hist@.len() as int).0 ==> {
            &&& r.1.tier0_bars == r.1.tier0_samples
            &&& forall|i: int|
                0 <= i < r.1.tier0_samples ==> #[trigger] r.0@[i] == (Bar { sum: hist@[i] as u128, count: 1 })
        },
        width as int == hist@.len() ==> forall|j: int|
            0 <= j < width ==> #[trigger] r.0@[j] == (Bar { sum: hist@[j] as u128, count: 1 }),
        forall|j: int|
            0 <= j < r.0@.len() ==> {
                let (lo, hi) = bar_range(r.1@, j);
                summarizes(#[trigger] r.0@[j], hist@, lo, hi)
            },
        forall|j: int| 0 <= j < r.0@.len() ==> #[trigger] r.0@[j].count >= 1,
{
    let scheme = allocate(hist.len(), width);
    proof { lemma_plan_invariants(hist@.len() as int, width as int); }
    let mut compressed: Vec<Bar> = Vec::new();
    compress_tier(hist, 0, scheme.tier0_samples, scheme.tier0_bars, &mut compressed);
    let ghost after0 = compressed@;
    compress_tier(hist, scheme.tier0_samples, scheme.tier1_samples, scheme.tier1_bars, &mut compressed);
    let ghost after1 = compressed@;
    compress_tier(
        hist,
        scheme.tier0_samples + scheme.tier1_samples,
        scheme.tier2_samples,
        scheme.tier2_bars,
        &mut compressed,
    );
    proof {
        let b0 = scheme.tier0_bars as int;
        let b1 = scheme.tier1_bars as int;
        assert forall|j: int| 0 <= j < compressed@.len() implies {
            let (lo, hi) = bar_range(scheme@, j);
            summarizes(#[trigger] compressed@[j], hist@, lo, hi) && compressed@[j].count >= 1
        } by {
            if j < b0 {
                assert(compressed@[j] == compressed@.subrange(0, after1.len() as int)[j]);
                assert(after1[j] == after1.subrange(0, after0.len() as int)[j]);
                assert(after0[0 + j] == after0[j]);
            } else if j < b0 + b1 {
                assert(compressed@[j] == compressed@.subrange(0, after1.len() as int)[j]);
                assert(after1[after0.len() + (j - b0)] == after1[j]);
            } else {
                assert(compressed@[after1.len() + (j - b0 - b1)] == compressed@[j]);
            }
        }
        let len = hist@.len() as int;
        if width as int >= tier_sizes(len).0 {
            assert forall|i: int| 0 <= i < scheme.tier0_samples implies #[trigger] compressed@[i]
                == (Bar { sum: hist@[i] as u128, count: 1 }) by {
                lemma_full_resolution_range(0, scheme.tier0_samples as int, i);
                lemma_single_sample(hist@, i);
            }
        }
        if width as int == len && len > 0 {
            lemma_plan_full_resolution(len, width as int);
            assert forall|j: int| 0 <= j < width implies #[trigger] compressed@[j] == (Bar {
                sum: hist@[j] as u128,
                count: 1,
            }) by {
                let p = scheme@;
                if j < p.tier0_bars {
                    lemma_full_resolution_range(0, p.tier0_samples, j);
                } else if j < p.tier0_bars + p.tier1_bars {
                    lemma_full_resolution_range(p.tier0_samples, p.tier1_samples, j - p.tier0_bars);
                } else {
                    lemma_full_resolution_range(
                        p.tier0_samples + p.tier1_samples,
                        p.tier2_samples,
                        j - p.tier0_bars - p.tier1_bars,
                    );
                }
                lemma_single_sample(hist@, j);
            }
        }
    }
    (compressed, scheme)
}

/// Header marker shown above one bar: how compressed its tier is.
#[derive(Debug, Clone, Copy, PartialEq, Eq, Structural)]
pub enum Marker {
    /// The tier is shown one bar per sample.
    Blank,
    /// The tier (0, 1 or 2) is compressed.
    Compressed(usize),
    /// The tier has more bars than samples, which the planner never produces.
    Stretched,
}

pub open spec fn tier_marker(bars: int, samples: int, tier: usize) -> Marker {
    if bars > samples {
        Marker::Stretched
    } else if bars == samples {
        Marker::Blank
    } else {
        Marker::Compressed(tier)
    }
}

/// One marker per bar of a tier.
pub open spec fn tier_markers(bars: int, samples: int, tier: usize) -> Seq<Marker> {
    Seq::new(bars as nat, |i: int| tier_marker(bars, samples, tier))
}

fn push_tier_markers(out: &mut Vec<Marker>, bars: usize, samples: usize, tier: usize)
    ensures
        final(out)@ == old(out)@ + tier_markers(bars as int, samples as int, tier),
{
    let marker = if bars > samples {
        Marker::Stretched
    } else if bars == samples {
        Marker::Blank
    } else {
        Marker::Compressed(tier)
    };
    let ghost start = old(out)@;
    let mut i: usize = 0;
    while i < bars
        invariant
            i <= bars,
            marker == tier_marker(bars as int, samples as int, tier),
            out@ =~= start + tier_markers(i as int, samples as int, tier).map_values(
                |m: Marker| marker,
            ),
        decreases bars - i,
    {
        out.push(marker);
        i = i + 1;
    }
    assert(out@ =~= start + tier_markers(bars as int, samples as int, tier));
}

impl Marker {
    /// The character drawn for this marker.
    pub fn glyph(&self) -> (c: char)
        ensures
            c == match *self {
                Marker::Blank => ' ',
                Marker::Compressed(0) => '.',
                Marker::Compressed(1) => 'o',
                Marker::Compressed(_) => 'O',
                Marker::Stretched => '!',
            },
    {
        match *self {
            Marker::Blank => ' ',
            Marker::Compressed(0) => '.',
            Marker::Compressed(1) => 'o',
            Marker::Compressed(_) => 'O',
            Marker::Stretched => '!',
        }
    }
}

impl CompressionScheme {
    /// One marker per bar, tier 0's first: blank where a tier is shown one
    /// bar per sample, the tier's own marker where it is compressed, and an
    /// error marker where a tier would be stretched.
    pub fn visual_markers(&self) -> (r: Vec<Marker>)
        ensures
            r@ == tier_markers(self.tier0_bars as int, self.tier0_samples as int, 0)
                + tier_markers(self.tier1_bars as int, self.tier1_samples as int, 1)
                + tier_markers(self.tier2_bars as int, self.tier2_samples as int, 2),
    {
        let mut result: Vec<Marker> = Vec::new();
        push_tier_markers(&mut result, self.tier0_bars, self.tier0_samples, 0);
        push_tier_markers(&mut result, self.tier1_bars, self.tier1_samples, 1);
        push_tier_markers(&mut result, self.tier2_bars, self.tier2_samples, 2);
        assert(result@ =~= Seq::<Marker>::empty() + tier_markers(
            self.tier0_bars as int,
            self.tier0_samples as int,
            0,
        ) + tier_markers(self.tier1_bars as int, self.tier1_samples as int, 1) + tier_markers(
            self.tier2_bars as int,
            self.tier2_samples as int,
            2,
        ));
        result
    }
}

/// Glyphs of increasing fill, one per eighth of the normalization maximum.
pub open spec fn level_glyph(level: int) -> char {
    if level <= 0 {
        '\u{2581}'
    } else if level == 1 {
        '\u{2582}'
    } else if level == 2 {
        '\u{2583}'
    } else if level == 3 {
        '\u{2584}'
    } else if level == 4 {
        '\u{2585}'
    } else if level == 5 {
        '\u{2586}'
    } else if level == 6 {
        '\u{2587}'
    } else {
        '\u{2588}'
    }
}

/// The glyph of a value `sum / count` normalized by `max`: the ratio is
/// clamped to 1; below 3% it is blank; otherwise a ratio in `(k/8, (k+1)/8]`
/// takes the `k`-th glyph.
pub open spec fn bar_glyph_of(sum: int, count: int, max: int) -> char {
    let scale = count * max;
    if sum >= scale {
        level_glyph(7)
    } else if 100 * sum < 3 * scale {
        ' '
    } else {
        level_glyph((8 * sum - 1) / scale)
    }
}

fn glyph_for_level(level: u128) -> (c: char)
    ensures
        c == level_glyph(level as int),
{
    if level == 0 {
        '\u{2581}'
    } else if level == 1 {
        '\u{2582}'
    } else if level == 2 {
        '\u{2583}'
    } else if level == 3 {
        '\u{2584}'
    } else if level == 4 {
        '\u{2585}'
    } else if level == 5 {
        '\u{2586}'
    } else if level == 6 {
        '\u{2587}'
    } else {
        '\u{2588}'
    }
}

/// The sparkline glyph of one bar, normalized by `max`.
pub fn bar_glyph(bar: &Bar, max: u32) -> (c: char)
    requires
        bar.count > 0,
        max > 0,
    ensures
        c == bar_glyph_of(bar.sum as int, bar.count as int, max as int),
{
    proof {
        assert(bar.count * max <= 0x1_0000_0000_0000_0000_0000_0000) by (nonlinear_arith)
            requires
                bar.count <= usize::MAX,
                max <= u32::MAX,
        ;
    }
    let scale = bar.count as u128 * max as u128;
    if bar.sum >= scale {
        glyph_for_level(7)
    } else if 100 * bar.sum < 3 * scale {
        ' '
    } else {
        glyph_for_level((8 * bar.sum - 1) / scale)
    }
}

/// Sparkline of `bars`, one glyph per bar.
pub fn render_vec(bars: &Vec<Bar>, max: u32) -> (r: String)
    requires
        max > 0,
        forall|i: int| 0 <= i < bars@.len() ==> #[trigger] bars@[i].count > 0,
    ensures
        r@ == Seq::new(
            bars@.len(),
            |i: int| bar_glyph_of(bars@[i].sum as int, bars@[i].count as int, max as int),
        ),
{
    let mut r = String::new();
    let mut i: usize = 0;
    while i < bars.len()
        invariant
            i <= bars@.len(),
            max > 0,
            forall|k: int| 0 <= k < bars@.len() ==> #[trigger] bars@[k].count > 0,
            r@ =~= Seq::new(
                i as nat,
                |k: int| bar_glyph_of(bars@[k].sum as int, bars@[k].count as int, max as int),
            ),
        decreases bars@.len() - i,
    {
        let c = bar_glyph(&bars[i], max);
        push_char(&mut r, c);
        i = i + 1;
    }
    r
}

/// Hundredths of a percent per percent of cpu.
pub const CPU_SCALE: u64 = 100;

/// Highlight of a cpu value above one core's worth.
#[derive(Debug, Clone, Copy, PartialEq, Eq, Structural)]
pub enum CpuColor {
    /// at least 100%
    Red,
    /// at least 200%
    LightMagenta,
    /// at least 400%
    Magenta,
}

/// Highlight of the mean cpu value `sum / count` (hundredths of a percent).
pub open spec fn cpu_color_of(sum: int, count: int) -> Option<CpuColor> {
    let percent = CPU_SCALE * count;
    if sum >= 400 * percent {
        Some(CpuColor::Magenta)
    } else if sum >= 200 * percent {
        Some(CpuColor::LightMagenta)
    } else if sum >= 100 * percent {
        Some(CpuColor::Red)
    } else {
        None
    }
}

fn bar_color(sum: u128, count: usize) -> (r: Option<CpuColor>)
    ensures
        r == cpu_color_of(sum as int, count as int),
{
    // one percent of cpu, summed over `count` samples
    let unit: u128 = count as u128 * 100;
    assert(unit == CPU_SCALE * count);
    if sum >= 400 * unit {
        Some(CpuColor::Magenta)
    } else if sum >= 200 * unit {
        Some(CpuColor::LightMagenta)
    } else if sum >= 100 * unit {
        Some(CpuColor::Red)
    } else {
        None
    }
}

/// Highlight of a cpu value in hundredths of a percent.
pub fn cpu_color(cpu: u64) -> (r: Option<CpuColor>)
    ensures
        r == cpu_color_of(cpu as int, 1),
{
    bar_color(cpu as u128, 1)
}

/// One cell of a colored sparkline.
#[derive(Debug, Clone, Copy, PartialEq, Eq, Structural)]
pub struct Cell {
    pub glyph: char,
    pub color: Option<CpuColor>,
}

/// Sparkline of cpu `bars`, each glyph highlighted by the bar's mean cpu.
pub fn render_vec_colored(bars: &Vec<Bar>, max: u32) -> (r: Vec<Cell>)
    requires
        max > 0,
        forall|i: int| 0 <= i < bars@.len() ==> #[trigger] bars@[i].count > 0,
    ensures
        r@.len() == bars@.len(),
        forall|i: int|
            0 <= i < bars@.len() ==> #[trigger] r@[i] == (Cell {
                glyph: bar_glyph_of(bars@[i].sum as int, bars@[i].count as int, max as int),
                color: cpu_color_of(bars@[i].sum as int, bars@[i].count as int),
            }),
{
    let mut result: Vec<Cell> = Vec::new();
    let mut i: usize = 0;
    while i < bars.len()
        invariant
            i <= bars@.len(),
            max > 0,
            forall|k: int| 0 <= k < bars@.len() ==> #[trigger] bars@[k].count > 0,
            result@.len() == i,
            forall|k: int|
                0 <= k < i ==> #[trigger] result@[k] == (Cell {
                    glyph: bar_glyph_of(bars@[k].sum as int, bars@[k].count as int, max as int),
                    color: cpu_color_of(bars@[k].sum as int, bars@[k].count as int),
                }),
        decreases bars@.len() - i,
    {
        let glyph = bar_glyph(&bars[i], max);
        let color = bar_color(bars[i].sum, bars[i].count);
        result.push(Cell { glyph, color });
        i = i + 1;
    }
    result
}

} // verus!
