//! The waveform summarizer: downsamples raw audio samples into a
//! fixed-length sequence of non-negative display magnitudes. Each value is
//! the integer root of the mean square of one chunk of samples, normalized
//! to the 0..=100 display range.

use vstd::prelude::*;

verus! {

/// Sum of the squares of the samples.
pub open spec fn sum_squares(s: Seq<i16>) -> int
    decreases s.len(),
{
    if s.len() == 0 {
        0
    } else {
        sum_squares(s.drop_last()) + (s.last() as int) * (s.last() as int)
    }
}

proof fn lemma_sum_squares_bounds(s: Seq<i16>)
    ensures
        0 <= sum_squares(s) <= s.len() * 0x4000_0000,
    decreases s.len(),
{
    if s.len() == 0 {
    } else {
        lemma_sum_squares_bounds(s.drop_last());
        let v = s.last() as int;
        assert(0 <= v * v <= 0x4000_0000) by (nonlinear_arith)
            requires
                -0x8000 <= v <= 0x7fff,
        ;
        assert((s.len() - 1) * 0x4000_0000 + 0x4000_0000 == s.len() * 0x4000_0000) by (nonlinear_arith);
    }
}

/// Integer square root: the largest `r` with `r * r <= n`.
pub open spec fn spec_isqrt(n: nat) -> nat
    decreases n,
{
    if n == 0 {
        0
    } else {
        let p = spec_isqrt((n - 1) as nat);
        if (p + 1) * (p + 1) <= n {
            p + 1
        } else {
            p
        }
    }
}

proof fn lemma_isqrt_props(n: nat)
    ensures
        (spec_isqrt(n) as int) * (spec_isqrt(n) as int) <= n as int,
        (n as int) < ((spec_isqrt(n) as int) + 1) * ((spec_isqrt(n) as int) + 1),
    decreases n,
{
    if n == 0 {
        assert(spec_isqrt(n) == 0);
    } else {
        lemma_isqrt_props((n - 1) as nat);
        let p = spec_isqrt((n - 1) as nat) as int;
        if (p + 1) * (p + 1) <= n {
            assert(spec_isqrt(n) as int == p + 1);
            assert((spec_isqrt(n) as int) * (spec_isqrt(n) as int) == (p + 1) * (p + 1));
            assert((spec_isqrt(n) as int) * (spec_isqrt(n) as int) <= n as int);
            assert((p + 1) * (p + 1) < (p + 2) * (p + 2)) by (nonlinear_arith)
                requires
                    p >= 0,
            ;
        } else {
            assert(spec_isqrt(n) as int == p);
            assert((spec_isqrt(n) as int) * (spec_isqrt(n) as int) <= n as int);
        }
    }
}

proof fn lemma_isqrt_unique(n: nat, r: nat)
    requires
        r * r <= n,
        n < (r + 1) * (r + 1),
    ensures
        r == spec_isqrt(n),
{
    lemma_isqrt_props(n);
    let q = spec_isqrt(n);
    if r < q {
        assert((r + 1) * (r + 1) <= q * q) by (nonlinear_arith)
            requires
                r + 1 <= q,
        ;
    } else if q < r {
        assert((q + 1) * (q + 1) <= r * r) by (nonlinear_arith)
            requires
                q + 1 <= r,
        ;
    }
}

proof fn lemma_isqrt_bound(n: nat, b: nat)
    requires
        n <= b * b,
    ensures
        spec_isqrt(n) <= b,
{
    lemma_isqrt_props(n);
    let q = spec_isqrt(n);
    if q > b {
        assert(b * b < q * q) by (nonlinear_arith)
            requires
                b < q,
        ;
    }
}

/// Integer square root.
pub fn isqrt(n: u64) -> (r: u64)
    ensures
        r == spec_isqrt(n as nat),
{
    let mut r: u64 = 0;
    loop
        invariant
            (r as int) * (r as int) <= n as int,
            r <= n,
            r <= 0xFFFF_FFFF,
        ensures
            (r as int) * (r as int) <= n as int,
            (n as int) < ((r as int) + 1) * ((r as int) + 1),
        decreases n - r,
    {
        proof {
            assert(((r as int) + 1) * ((r as int) + 1) <= 0x1_0000_0000_0000_0000)
                by (nonlinear_arith)
                requires
                    0 <= r <= 0xFFFF_FFFF,
            ;
        }
        let next = ((r as u128) + 1) * ((r as u128) + 1);
        if next > n as u128 {
            break;
        }
        proof {
            assert(r + 1 <= (r + 1) * (r + 1)) by (nonlinear_arith);
            assert(((r as int) + 1) * ((r as int) + 1) <= n as int ==> r + 1 <= 0xFFFF_FFFF)
                by (nonlinear_arith)
                requires
                    n <= 0xFFFF_FFFF_FFFF_FFFFu64,
            ;
        }
        r = r + 1;
    }
    proof {
        lemma_isqrt_unique(n as nat, r as nat);
    }
    r
}

/// Start of chunk `i` when `len` samples are cut into `n` chunks.
pub open spec fn chunk_start(len: int, n: int, i: int) -> int {
    i * (len / n)
}

/// End of chunk `i`: the last chunk absorbs the remainder.
pub open spec fn chunk_end(len: int, n: int, i: int) -> int {
    if i == n - 1 {
        len
    } else {
        (i + 1) * (len / n)
    }
}

/// The value displayed for one chunk: the integer root of the mean square
/// of the chunk, normalized to the 0..=100 display range. An empty chunk
/// yields zero rather than a division by zero.
pub open spec fn point_spec(s: Seq<i16>, start: int, end: int) -> u64 {
    if !(0 <= start && start < end && end <= s.len()) {
        0u64
    } else {
        let mean = sum_squares(s.subrange(start, end)) / (end - start);
        ((spec_isqrt(mean as nat) * 100) / 0x7fff) as u64
    }
}

/// The whole waveform: `n` chunk values.
pub open spec fn waveform_spec(s: Seq<i16>, n: int) -> Seq<u64> {
    Seq::new(
        if n >= 0 {
            n as nat
        } else {
            0
        },
        |i: int| point_spec(s, chunk_start(s.len() as int, n, i), chunk_end(s.len() as int, n, i)),
    )
}

proof fn lemma_point_bounded(s: Seq<i16>, start: int, end: int)
    ensures
        point_spec(s, start, end) <= 100,
{
    if 0 <= start && start < end && end <= s.len() {
        let chunk = s.subrange(start, end);
        lemma_sum_squares_bounds(chunk);
        let cnt = end - start;
        let mean = sum_squares(chunk) / cnt;
        assert(mean <= 0x4000_0000) by (nonlinear_arith)
            requires
                cnt >= 1,
                0 <= sum_squares(chunk) <= cnt * 0x4000_0000,
                mean == sum_squares(chunk) / cnt,
        ;
        lemma_isqrt_bound(mean as nat, 0x8000);
        let root = spec_isqrt(mean as nat);
        assert(root * 100 / 0x7fff <= 100) by (nonlinear_arith)
            requires
                0 <= root <= 0x8000,
        ;
    }
}

/// Law: the summarizer is a pure function of the sample sequence and the
/// point count; two results for the same inputs are always the same values.
pub proof fn lemma_waveform_deterministic(s: Seq<i16>, n: int, w1: Seq<u64>, w2: Seq<u64>)
    requires
        w1 == waveform_spec(s, n),
        w2 == waveform_spec(s, n),
    ensures
        w1 == w2,
{
}

/// Law: the waveform has exactly `n` values, each non-negative and bounded
/// by the normalization ceiling of 100.
pub proof fn lemma_waveform_bounded(s: Seq<i16>, n: int)
    requires
        n >= 0,
    ensures
        waveform_spec(s, n).len() == n,
        forall|i: int| 0 <= i < n ==> waveform_spec(s, n)[i] <= 100,
{
    assert forall|i: int| 0 <= i < n implies waveform_spec(s, n)[i] <= 100 by {
        lemma_point_bounded(s, chunk_start(s.len() as int, n, i), chunk_end(s.len() as int, n, i));
    }
}

/// Law: an empty sample sequence yields exactly `n` zero values.
pub proof fn lemma_waveform_empty(n: int)
    requires
        n >= 0,
    ensures
        waveform_spec(Seq::empty(), n) =~= Seq::new(n as nat, |i: int| 0u64),
{
}

fn chunk_value(samples: &Vec<i16>, start: usize, end: usize) -> (v: u64)
    requires
        start < end <= samples@.len(),
    ensures
        v == point_spec(samples@, start as int, end as int),
{
    let mut sum: u128 = 0;
    let mut k: usize = start;
    while k < end
        invariant
            start <= k <= end <= samples@.len(),
            sum == sum_squares(samples@.subrange(start as int, k as int)),
            sum <= (k - start) * 0x4000_0000,
        decreases end - k,
    {
        let ghost pre = samples@.subrange(start as int, k as int);
        let s = samples[k];
        let v = s as i64;
        proof {
            assert(0 <= v * v <= 0x4000_0000) by (nonlinear_arith)
                requires
                    -0x8000 <= v <= 0x7fff,
            ;
            assert(samples@.subrange(start as int, k + 1).drop_last() =~= pre);
            assert(samples@.subrange(start as int, k + 1).last() == samples@[k as int]);
            assert((k - start) * 0x4000_0000 + 0x4000_0000 == (k + 1 - start) * 0x4000_0000)
                by (nonlinear_arith);
            assert((k + 1 - start) * 0x4000_0000 <= (end - start) * 0x4000_0000)
                by (nonlinear_arith)
                requires
                    k + 1 <= end,
            ;
        }
        let sq = (v * v) as u128;
        sum = sum + sq;
        k = k + 1;
    }
    let cnt = (end - start) as u128;
    let mean = sum / cnt;
    proof {
        assert(mean <= 0x4000_0000) by (nonlinear_arith)
            requires
                cnt >= 1,
                0 <= sum <= cnt * 0x4000_0000,
                mean == sum / cnt,
        ;
    }
    let root = isqrt(mean as u64);
    proof {
        lemma_isqrt_bound(mean as nat, 0x8000);
    }
    root * 100 / 0x7fff
}

/// Downsample the samples of one file into `num_points` display values.
/// The result is a pure function of the inputs: `num_points` values, each
/// at most 100, and all zero when there are no samples.
pub fn extract_waveform(samples: &Vec<i16>, num_points: usize) -> (r: Vec<u64>)
    ensures
        r@ == waveform_spec(samples@, num_points as int),
        r@.len() == num_points,
        forall|i: int| 0 <= i < num_points ==> r@[i] <= 100,
        samples@.len() == 0 ==> r@ =~= Seq::new(num_points as nat, |i: int| 0u64),
{
    proof {
        lemma_waveform_bounded(samples@, num_points as int);
        if samples@.len() == 0 {
            assert(Seq::<i16>::empty() =~= samples@);
            lemma_waveform_empty(num_points as int);
        }
    }
    let len = samples.len();
    let mut out: Vec<u64> = Vec::new();
    if num_points == 0 {
        proof {
            assert(out@ =~= waveform_spec(samples@, 0));
        }
        return out;
    }
    let spp = len / num_points;
    proof {
        vstd::arithmetic::div_mod::lemma_fundamental_div_mod(len as int, num_points as int);
        assert((num_points as int) * (spp as int) <= len as int);
    }
    let mut i: usize = 0;
    while i < num_points
        invariant
            i <= num_points,
            num_points >= 1,
            len == samples@.len(),
            spp == len as int / num_points as int,
            (num_points as int) * (spp as int) <= len as int,
            out@.len() == i,
            forall|k: int| 0 <= k < i ==> out@[k] == waveform_spec(samples@, num_points as int)[k],
        decreases num_points - i,
    {
        proof {
            assert((i as int) * (spp as int) <= (i + 1) * (spp as int) <= (num_points as int) * (
            spp as int)) by (nonlinear_arith)
                requires
                    0 <= i,
                    i + 1 <= num_points as int,
                    spp >= 0,
            ;
        }
        let start = i * spp;
        let end = if i == num_points - 1 {
            len
        } else {
            (i + 1) * spp
        };
        let value = if start < end {
            chunk_value(samples, start, end)
        } else {
            0u64
        };
        proof {
            assert(start as int == chunk_start(len as int, num_points as int, i as int));
            assert(end as int == chunk_end(len as int, num_points as int, i as int));
            if start >= end {
                assert(value == point_spec(samples@, start as int, end as int));
            }
        }
        out.push(value);
        i = i + 1;
    }
    proof {
        assert(out@ =~= waveform_spec(samples@, num_points as int));
    }
    out
}

} // verus!
