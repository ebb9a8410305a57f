use vstd::prelude::*;

verus! {

/// Number of `true` flags.
pub open spec fn count_true(flags: Seq<bool>) -> nat
    decreases flags.len(),
{
    if flags.len() == 0 {
        0
    } else {
        count_true(flags.drop_last()) + if flags.last() {
            1nat
        } else {
            0nat
        }
    }
}

proof fn lemma_count_true_bounded(flags: Seq<bool>)
    ensures
        count_true(flags) <= flags.len(),
    decreases flags.len(),
{
    if flags.len() > 0 {
        lemma_count_true_bounded(flags.drop_last());
    }
}

/// Counts the valid pulses among per-pulse validity flags.
pub fn count_valid(flags: &Vec<bool>) -> (r: usize)
    ensures
        r == count_true(flags@),
        r <= flags@.len(),
{
    let mut n: usize = 0;
    let mut i: usize = 0;
    while i < flags.len()
        invariant
            i <= flags@.len(),
            n == count_true(flags@.subrange(0, i as int)),
            n <= i,
        decreases flags@.len() - i,
    {
        assert(flags@.subrange(0, i + 1).drop_last() =~= flags@.subrange(0, i as int));
        if flags[i] {
            n += 1;
        }
        i += 1;
    }
    assert(flags@.subrange(0, i as int) =~= flags@);
    proof {
        lemma_count_true_bounded(flags@);
    }
    n
}

/// The larger of the expected pulse count (in thousandths) and the pulse count
/// (scaled to thousandths): the denominator of the quality.
pub open spec fn quality_span(total: nat, min_expected_milli: nat) -> nat {
    if min_expected_milli >= total * 1000 {
        min_expected_milli
    } else {
        total * 1000
    }
}

/// Signal quality in parts per million: valid pulses over the larger of the
/// expected and the found pulse count, rounded down; 0 where both counts are 0.
pub open spec fn quality_ppm(valid: nat, total: nat, min_expected_milli: nat) -> nat {
    let span = quality_span(total, min_expected_milli);
    if span == 0 {
        0
    } else {
        valid * 1_000_000_000 / span
    }
}

/// The signal quality of an analysis window, in parts per million.
///
/// `valid` of `total` pulses passed the checks; `min_expected_milli` is the number
/// of pulses the window's duration calls for at least, in thousandths.
pub fn signal_quality_ppm(valid: u64, total: u64, min_expected_milli: u64) -> (r: u32)
    requires
        valid <= total,
        total <= 1_000_000_000,
    ensures
        r == quality_ppm(valid as nat, total as nat, min_expected_milli as nat),
        r <= 1_000_000,
{
    let scaled: u64 = total * 1000;
    let span: u64 = if min_expected_milli >= scaled {
        min_expected_milli
    } else {
        scaled
    };
    if span == 0 {
        return 0;
    }
    let q: u64 = (valid as u128 * 1_000_000_000 / span as u128) as u64;
    proof {
        let x = valid as int * 1_000_000_000;
        assert(x <= total as int * 1_000_000_000) by (nonlinear_arith)
            requires
                valid <= total,
                x == valid as int * 1_000_000_000,
        ;
        if total > 0 {
            vstd::arithmetic::div_mod::lemma_div_is_ordered_by_denominator(
                x,
                total as int * 1000,
                span as int,
            );
            assert(x / (total as int * 1000) <= 1_000_000) by (nonlinear_arith)
                requires
                    x <= total as int * 1_000_000_000,
                    total > 0,
            ;
        } else {
            assert(x == 0);
            assert(x / span as int == 0);
        }
    }
    q as u32
}

proof fn lemma_floor_div_ordered(a: int, b: int, c: int, d: int)
    requires
        0 <= a,
        0 <= c,
        0 < b,
        0 < d,
        a * d <= c * b,
    ensures
        a / b <= c / d,
{
    let q = a / b;
    assert(q * b <= a) by (nonlinear_arith)
        requires
            q == a / b,
            0 < b,
            0 <= a,
    ;
    assert(q * b * d <= c * b) by (nonlinear_arith)
        requires
            q * b <= a,
            a * d <= c * b,
            0 < d,
    ;
    assert(q * d <= c) by (nonlinear_arith)
        requires
            q * b * d <= c * b,
            0 < b,
    ;
    assert(q <= c / d) by (nonlinear_arith)
        requires
            q * d <= c,
            0 < d,
    ;
}

/// One more pulse that passes every check never lowers the quality of a window.
pub proof fn lemma_valid_pulse_never_lowers_quality(valid: nat, total: nat, min_expected_milli: nat)
    requires
        valid <= total,
    ensures
        quality_ppm(valid, total, min_expected_milli) <= quality_ppm(
            valid + 1,
            total + 1,
            min_expected_milli,
        ),
{
    let s0 = quality_span(total, min_expected_milli);
    let s1 = quality_span(total + 1, min_expected_milli);
    let m = min_expected_milli as int;
    let t = total as int;
    let v = valid as int;
    if s0 == 0 {
        assert(quality_ppm(valid, total, min_expected_milli) == 0);
    } else {
        assert(s1 > 0);
        let a = v * 1_000_000_000;
        let c = (v + 1) * 1_000_000_000;
        assert(a * s1 <= c * s0) by (nonlinear_arith)
            requires
                a == v * 1_000_000_000,
                c == (v + 1) * 1_000_000_000,
                0 <= v <= t,
                s0 == if m >= t * 1000 { m } else { t * 1000 },
                s1 == if m >= (t + 1) * 1000 { m } else { (t + 1) * 1000 },
                m >= 0,
        ;
        lemma_floor_div_ordered(a, s0 as int, c, s1 as int);
    }
}

/// A pulse that stops passing a check never raises the quality of a window.
pub proof fn lemma_failed_pulse_never_raises_quality(valid: nat, total: nat, min_expected_milli: nat)
    requires
        0 < valid <= total,
    ensures
        quality_ppm((valid - 1) as nat, total, min_expected_milli) <= quality_ppm(
            valid,
            total,
            min_expected_milli,
        ),
{
    let s = quality_span(total, min_expected_milli);
    if s > 0 {
        let a: int = (valid - 1) * 1_000_000_000;
        let c: int = valid as int * 1_000_000_000;
        assert(a * s <= c * s) by (nonlinear_arith)
            requires
                a <= c,
                s > 0,
        ;
        lemma_floor_div_ordered(a, s as int, c, s as int);
    }
}

/// Ascending positions: no position is smaller than the one before it.
pub open spec fn ascending(s: Seq<usize>) -> bool {
    forall|i: int, j: int| 0 <= i <= j < s.len() ==> s[i] <= s[j]
}

/// The distances between successive R peaks, in samples.
pub fn peak_intervals(peaks: &Vec<usize>) -> (r: Vec<usize>)
    requires
        ascending(peaks@),
    ensures
        r@.len() == if peaks@.len() == 0 {
            0
        } else {
            peaks@.len() - 1
        },
        forall|k: int| 0 <= k < r@.len() ==> #[trigger] r@[k] == peaks@[k + 1] - peaks@[k],
{
    let mut r: Vec<usize> = Vec::new();
    let mut k: usize = 1;
    while k < peaks.len()
        invariant
            1 <= k,
            ascending(peaks@),
            peaks@.len() == 0 ==> r@.len() == 0,
            peaks@.len() > 0 ==> k <= peaks@.len() && r@.len() == k - 1,
            forall|j: int| 0 <= j < r@.len() ==> #[trigger] r@[j] == peaks@[j + 1] - peaks@[j],
        decreases peaks@.len() - k,
    {
        r.push(peaks[k] - peaks[k - 1]);
        k += 1;
    }
    r
}

/// Successive pairs of trough positions: the start and end of each pulse.
pub fn trough_pairs(troughs: &Vec<usize>) -> (r: Vec<(usize, usize)>)
    ensures
        r@.len() == if troughs@.len() == 0 {
            0
        } else {
            troughs@.len() - 1
        },
        forall|k: int| 0 <= k < r@.len() ==> #[trigger] r@[k] == (troughs@[k], troughs@[k + 1]),
{
    let mut r: Vec<(usize, usize)> = Vec::new();
    let mut k: usize = 1;
    while k < troughs.len()
        invariant
            1 <= k,
            troughs@.len() == 0 ==> r@.len() == 0,
            troughs@.len() > 0 ==> k <= troughs@.len() && r@.len() == k - 1,
            forall|j: int| 0 <= j < r@.len() ==> #[trigger] r@[j] == (troughs@[j], troughs@[j + 1]),
        decreases troughs@.len() - k,
    {
        r.push((troughs[k - 1], troughs[k]));
        k += 1;
    }
    r
}

/// The window `w`, rounded up to an odd length, centred on `i` and clipped to
/// `0..n`: its first and last position.
pub open spec fn envelope_window(i: int, n: int, w: int) -> (int, int) {
    let odd = if w % 2 == 0 {
        w + 1
    } else {
        w
    };
    let half = odd / 2;
    (if i >= half {
        i - half
    } else {
        0
    }, if i + half < n {
        i + half
    } else {
        n - 1
    })
}

/// The first and last position of the lower-envelope window around sample `i` of
/// `n`.
pub fn envelope_bounds(i: usize, n: usize, window_size: usize) -> (r: (usize, usize))
    requires
        i < n,
    ensures
        r.0 as int == envelope_window(i as int, n as int, window_size as int).0,
        r.1 as int == envelope_window(i as int, n as int, window_size as int).1,
        r.0 <= i <= r.1 < n,
{
    // rounding an even length up to the next odd one keeps its half
    let half: usize = window_size / 2;
    let start = if i >= half {
        i - half
    } else {
        0
    };
    let end = if half < n - i {
        i + half
    } else {
        n - 1
    };
    (start, end)
}

} // verus!
