//! Sharpness and colour scores of a captured frame, in fixed point.
//!
//! Frequency magnitudes are in thousandths (`MAGNITUDE_UNIT`), blurriness in
//! billionths (`BLUR_UNIT`), and the average colour in thousandths of an
//! intensity level.
use vstd::prelude::*;
use vstd::seq_lib::{to_multiset_contains};
use crate::models::MediaCapture;

verus! {

broadcast use vstd::multiset::group_multiset_axioms;

/// Blurriness 1.0: the score of a frame with no measurable high-frequency energy.
pub const BLUR_UNIT: u64 = 1_000_000_000;

/// One unit of frequency magnitude.
pub const MAGNITUDE_UNIT: u64 = 1000;

/// The share of the strongest magnitudes that `avg9x` looks at, in percent.
pub const DEFAULT_TOP_PERCENT: u64 = 5;

/// The number of leading values that `avg9x` looks at.
pub open spec fn top_len(len: nat, percent: nat) -> nat {
    percent * len / 100
}

/// The middle of the first `top_len` values: the mean of the two central
/// values when that count is even, half the central value when it is odd.
pub open spec fn avg9x_spec(m: Seq<u64>, percent: nat) -> nat
    recommends
        1 <= top_len(m.len(), percent) <= m.len(),
{
    let l = top_len(m.len(), percent);
    if l % 2 == 0 {
        ((m[l / 2 - 1] + m[(l / 2) as int]) / 2) as nat
    } else {
        (m[(l / 2) as int] / 2) as nat
    }
}

/// The blurriness for a high-frequency energy: its reciprocal, or 1.0 when
/// there is none.
pub open spec fn blurriness_of(energy: nat) -> nat {
    if energy > 0 {
        (BLUR_UNIT * MAGNITUDE_UNIT) as nat / energy
    } else {
        BLUR_UNIT as nat
    }
}

pub open spec fn strictly_decreasing(d: Seq<u64>) -> bool {
    forall|i: int, j: int| 0 <= i < j < d.len() ==> d[i] > d[j]
}

/// `d` lists each distinct value of `s` once, largest first.
pub open spec fn distinct_descending(d: Seq<u64>, s: Seq<u64>) -> bool {
    strictly_decreasing(d) && forall|x: u64| d.contains(x) <==> s.contains(x)
}

/// The blurriness of a frame whose distinct magnitudes, largest first, are `d`.
pub open spec fn blurriness_spec(d: Seq<u64>) -> nat {
    if top_len(d.len(), DEFAULT_TOP_PERCENT as nat) == 0 {
        BLUR_UNIT as nat
    } else {
        blurriness_of(avg9x_spec(d, DEFAULT_TOP_PERCENT as nat))
    }
}

/// The red, green and blue intensities summed over every pixel of RGBA data.
pub open spec fn rgb_sum(p: Seq<u8>) -> nat
    decreases p.len(),
{
    if p.len() < 4 {
        0
    } else {
        let n = p.len() as int;
        (rgb_sum(p.subrange(0, n - 4)) + p[n - 4] + p[n - 3] + p[n - 2]) as nat
    }
}

/// The mean of the average red, green and blue intensities, in thousandths.
pub open spec fn avg_colour_spec(p: Seq<u8>) -> nat {
    if p.len() / 4 == 0 {
        0
    } else {
        1000 * rgb_sum(p) / (3 * (p.len() / 4))
    }
}

/// Relies on `slice::sort_unstable`: the same values, in ascending order.
#[verifier::external_body]
fn sort_ascending(v: &mut Vec<u64>)
    ensures
        final(v)@.len() == old(v)@.len(),
        final(v)@.to_multiset() == old(v)@.to_multiset(),
        forall|i: int, j: int| 0 <= i < j < final(v)@.len() ==> final(v)@[i] <= final(v)@[j],
{
    v.sort_unstable();
}

proof fn lemma_rgb_sum_bound(p: Seq<u8>)
    ensures
        rgb_sum(p) <= 765 * (p.len() / 4),
    decreases p.len(),
{
    if p.len() >= 4 {
        lemma_rgb_sum_bound(p.subrange(0, p.len() - 4));
    }
}

impl MediaCapture {
    /// The middle of the first `percentage` percent (5 by default) of
    /// `matrix`: see `avg9x_spec`.
    pub fn avg9x(matrix: Vec<u64>, percentage: Option<u64>) -> (r: u64)
        requires
            1 <= top_len(matrix@.len(), percentage.unwrap_or(DEFAULT_TOP_PERCENT) as nat) <= matrix@.len(),
        ensures
            r == avg9x_spec(matrix@, percentage.unwrap_or(DEFAULT_TOP_PERCENT) as nat),
    {
        let percentage = match percentage {
            Some(p) => p,
            None => DEFAULT_TOP_PERCENT,
        };
        let len = matrix.len();
        proof {
            assert(percentage as int * len <= 0xffff_ffff_ffff_ffff * 0xffff_ffff_ffff_ffff) by (nonlinear_arith)
                requires percentage <= 0xffff_ffff_ffff_ffff, len <= 0xffff_ffff_ffff_ffff;
        }
        let length = ((percentage as u128 * len as u128) / 100) as usize;
        if length % 2 == 0 {
            let a = matrix[length / 2 - 1];
            let b = matrix[length / 2];
            ((a as u128 + b as u128) / 2) as u64
        } else {
            matrix[length / 2] / 2
        }
    }

    /// The blurriness of a frame from the magnitudes of its frequency
    /// coefficients: the magnitudes are sorted from largest to smallest with
    /// duplicates removed, `avg9x` of those is the high-frequency energy, and
    /// the blurriness is its reciprocal (1.0 when it is zero, or when there
    /// are too few distinct magnitudes to take 5% of).
    pub fn compute_blurrines(magnitudes: Vec<u64>) -> (r: u64)
        ensures
            exists|d: Seq<u64>| distinct_descending(d, magnitudes@) && r == blurriness_spec(d),
    {
        let mut sorted = magnitudes;
        let ghost orig = sorted@;
        sort_ascending(&mut sorted);
        let mut d: Vec<u64> = Vec::new();
        let mut j: usize = sorted.len();
        while j > 0
            invariant
                j <= sorted@.len(),
                strictly_decreasing(d@),
                forall|x: u64| d@.contains(x) <==> sorted@.skip(j as int).contains(x),
                d@.len() > 0 ==> j < sorted@.len() && d@.last() == sorted@[j as int],
                forall|i: int, k: int| 0 <= i < k < sorted@.len() ==> sorted@[i] <= sorted@[k],
            decreases j,
        {
            let v = sorted[j - 1];
            let ghost before = d@;
            if d.len() == 0 || d[d.len() - 1] != v {
                d.push(v);
            }
            proof {
                let s1 = sorted@.skip(j - 1);
                let s0 = sorted@.skip(j as int);
                assert(s1 =~= seq![v] + s0);
                assert(s1[0] == v);
                assert forall|x: u64| #[trigger] s1.contains(x) <==> (x == v || s0.contains(x)) by {
                    if s1.contains(x) && x != v {
                        let k = choose|k: int| 0 <= k < s1.len() && #[trigger] s1[k] == x;
                        assert(s0[k - 1] == x);
                    }
                    if s0.contains(x) {
                        let k = choose|k: int| 0 <= k < s0.len() && #[trigger] s0[k] == x;
                        assert(s1[k + 1] == x);
                    }
                }
                if d@.len() > before.len() {
                    assert(d@ == before.push(v));
                    assert forall|x: u64| #[trigger] d@.contains(x) <==> (x == v || before.contains(x)) by {
                        if d@.contains(x) && x != v {
                            let k = choose|k: int| 0 <= k < d@.len() && #[trigger] d@[k] == x;
                            assert(before[k] == x);
                        }
                        if before.contains(x) {
                            let k = choose|k: int| 0 <= k < before.len() && #[trigger] before[k] == x;
                            assert(d@[k] == x);
                        }
                        if x == v {
                            assert(d@[before.len() as int] == v);
                        }
                    }
                } else {
                    assert(d@ == before);
                    assert(s0[0] == v);
                    assert(s0.contains(v));
                }
            }
            j = j - 1;
        }
        proof {
            assert(sorted@.skip(0) == sorted@);
            assert forall|x: u64| d@.contains(x) <==> orig.contains(x) by {
                to_multiset_contains(orig, x);
                to_multiset_contains(sorted@, x);
            }
        }
        let ghost dd = d@;
        assert(distinct_descending(dd, magnitudes@));
        let count = d.len();
        let top = ((DEFAULT_TOP_PERCENT as u128 * count as u128) / 100) as usize;
        if top == 0 {
            assert(blurriness_spec(dd) == BLUR_UNIT);
            return BLUR_UNIT;
        }
        let max_freq = MediaCapture::avg9x(d, None);
        let r = if max_freq > 0 {
            BLUR_UNIT * MAGNITUDE_UNIT / max_freq
        } else {
            BLUR_UNIT
        };
        assert(r == blurriness_spec(dd));
        r
    }

    /// The average colour of RGBA pixel data: the mean of the average red,
    /// green and blue intensities, in thousandths (0 for no pixels).
    pub fn compute_avg_colour(pixels: &Vec<u8>) -> (r: u64)
        requires
            pixels@.len() % 4 == 0,
        ensures
            r == avg_colour_spec(pixels@),
    {
        let n = pixels.len();
        let mut sum: u128 = 0;
        let mut b: usize = 0;
        while b < n
            invariant
                n == pixels@.len(),
                n % 4 == 0,
                b % 4 == 0,
                b <= n,
                sum == rgb_sum(pixels@.take(b as int)),
                sum <= 765 * (b as int / 4),
            decreases n - b,
        {
            proof {
                assert(pixels@.take(b + 4).subrange(0, b as int) == pixels@.take(b as int));
            }
            sum = sum + pixels[b] as u128 + pixels[b + 1] as u128 + pixels[b + 2] as u128;
            b = b + 4;
        }
        assert(pixels@.take(b as int) == pixels@);
        let count = (n / 4) as u128;
        if count == 0 {
            return 0;
        }
        proof {
            assert(1000 * sum / (3 * count) <= 255000) by (nonlinear_arith)
                requires sum <= 765 * count, count > 0;
        }
        (1000 * sum / (3 * count)) as u64
    }
}

} // verus!
