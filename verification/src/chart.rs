//! Chart preparer: from the counters of each bucket to two smoothed series
//! with the bounds and labels of their axes.
//!
//! Smoothing puts a fixed number of points on the straight line between each
//! two neighbouring buckets. All values are kept exact: a series that was
//! smoothed with `k` points between neighbours holds its values in units of
//! `1 / (k + 1)`, as integers.

use vstd::prelude::*;
use vstd::arithmetic::div_mod::{lemma_fundamental_div_mod, lemma_fundamental_div_mod_converse};
use crate::model::{StatsResponse, ValidationError};
use crate::text::{decimal_string, decimal_text};

verus! {

/// The number of points that the dashboard puts between two buckets.
pub const POINTS_BETWEEN: usize = 3;

/// The number of labels on each axis.
pub const AXIS_LABELS: usize = 5;

/// The length of a series of `n >= 1` values after `k` points were put
/// between each two neighbours.
pub open spec fn interpolated_len(n: int, k: int) -> int {
    (n - 1) * (k + 1) + 1
}

/// The value at position `idx` of the interpolation of `raw` with `k` points
/// between neighbours, in units of `1 / (k + 1)`: position `j * (k + 1) + r`
/// lies `r` steps from `raw[j]` towards `raw[j + 1]`.
pub open spec fn interpolated_value(raw: Seq<u64>, k: int, idx: int) -> int {
    let scale = k + 1;
    let j = idx / scale;
    let r = idx % scale;
    if r == 0 {
        raw[j] * scale
    } else {
        raw[j] * (scale - r) + raw[j + 1] * r
    }
}

/// Whether `out` is the interpolation of `raw` with `k` points between
/// neighbours.
pub open spec fn is_interpolation(out: Seq<u128>, raw: Seq<u64>, k: int) -> bool {
    &&& out.len() == interpolated_len(raw.len() as int, k)
    &&& forall|idx: int|
        0 <= idx < out.len() ==> #[trigger] out[idx] == interpolated_value(raw, k, idx)
}

proof fn lemma_position(idx: int, scale: int, n: int)
    requires
        scale > 0,
        n >= 1,
        0 <= idx <= (n - 1) * scale,
    ensures
        0 <= idx / scale <= n - 1,
        0 <= idx % scale < scale,
        idx == (idx / scale) * scale + idx % scale,
        idx % scale != 0 ==> idx / scale < n - 1,
{
    lemma_fundamental_div_mod(idx, scale);
    let q = idx / scale;
    let r = idx % scale;
    assert(idx == scale * q + r);
    assert(q >= 0 && q <= n - 1 && (r != 0 ==> q < n - 1) && idx == q * scale + r) by (nonlinear_arith)
        requires
            idx == scale * q + r,
            0 <= r < scale,
            0 <= idx <= (n - 1) * scale,
            n >= 1,
    ;
}

proof fn lemma_weighted_bound(a: int, b: int, m: int, scale: int, r: int)
    requires
        0 <= a <= m,
        0 <= b <= m,
        0 <= r <= scale,
    ensures
        0 <= a * (scale - r) + b * r <= m * scale,
        a * scale <= m * scale,
{
    assert(0 <= a * (scale - r) + b * r <= m * scale && a * scale <= m * scale)
        by (nonlinear_arith)
        requires
            0 <= a <= m,
            0 <= b <= m,
            0 <= r <= scale,
    ;
}

/// No interpolated value lies above a bound of the values it was made from,
/// in their units, nor below zero.
pub proof fn lemma_interpolation_within(raw: Seq<u64>, k: int, idx: int, top: int)
    requires
        raw.len() >= 1,
        k >= 0,
        0 <= idx < interpolated_len(raw.len() as int, k),
        forall|j: int| 0 <= j < raw.len() ==> raw[j] <= top,
    ensures
        0 <= interpolated_value(raw, k, idx) <= top * (k + 1),
{
    let scale = k + 1;
    lemma_position(idx, scale, raw.len() as int);
    let j = idx / scale;
    let r = idx % scale;
    if r == 0 {
        lemma_weighted_bound(raw[j] as int, raw[j] as int, top, scale, 0);
    } else {
        lemma_weighted_bound(raw[j] as int, raw[j + 1] as int, top, scale, r);
    }
}

/// The interpolation passes through each value it was made from: at position
/// `j * (k + 1)` stands `raw[j]`.
pub proof fn lemma_interpolation_passes(raw: Seq<u64>, k: int, j: int)
    requires
        k >= 0,
        0 <= j < raw.len(),
    ensures
        0 <= j * (k + 1) < interpolated_len(raw.len() as int, k),
        interpolated_value(raw, k, j * (k + 1)) == raw[j] * (k + 1),
{
    let scale = k + 1;
    let n = raw.len() as int;
    assert(0 <= j * scale <= (n - 1) * scale) by (nonlinear_arith)
        requires
            0 <= j <= n - 1,
            scale > 0,
    ;
    lemma_fundamental_div_mod_converse(j * scale, scale, j, 0);
}

/// An interpolation of `n` values with `k` points between neighbours has
/// `(n - 1) * (k + 1) + 1` values; it starts at the first of the values it was
/// made from and ends at the last of them, in their units.
pub proof fn lemma_interpolation_shape(out: Seq<u128>, raw: Seq<u64>, k: int)
    requires
        is_interpolation(out, raw, k),
        raw.len() >= 1,
        k >= 0,
    ensures
        out.len() == (raw.len() - 1) * (k + 1) + 1,
        out[0] == raw[0] * (k + 1),
        out[out.len() - 1] == raw[raw.len() - 1] * (k + 1),
{
    lemma_interpolation_passes(raw, k, 0);
    lemma_interpolation_passes(raw, k, raw.len() - 1);
    assert(0 * (k + 1) == 0) by (nonlinear_arith);
}

/// Puts `points_between` evenly spaced values between each two neighbours of
/// `input`. The result is in units of `1 / (points_between + 1)`; it starts
/// at the first value of `input` and ends at its last.
pub fn interpolate(input: &Vec<u64>, points_between: usize) -> (output: Vec<u128>)
    requires
        input@.len() >= 1,
        interpolated_len(input@.len() as int, points_between as int) <= usize::MAX,
    ensures
        is_interpolation(output@, input@, points_between as int),
        output@.len() == (input@.len() - 1) * (points_between + 1) + 1,
        output@[0] == input@[0] * (points_between + 1),
        output@[output@.len() - 1] == input@[input@.len() - 1] * (points_between + 1),
{
    let n = input.len();
    let ghost k = points_between as int;
    let ghost raw = input@;
    let scale: u128 = points_between as u128 + 1;
    let mut output: Vec<u128> = Vec::new();
    let mut j: usize = 0;
    while j + 1 < n
        invariant
            n == raw.len(),
            raw == input@,
            n >= 1,
            k == points_between as int,
            scale == k + 1,
            interpolated_len(n as int, k) <= usize::MAX,
            0 <= j <= n - 1,
            output@.len() == j * (k + 1),
            forall|idx: int| 0 <= idx < output@.len() ==> #[trigger] output@[idx]
                == interpolated_value(raw, k, idx),
        decreases n - j,
    {
        let start: u128 = input[j] as u128;
        let end: u128 = input[j + 1] as u128;
        proof {
            assert((j + 1) * (k + 1) <= (n - 1) * (k + 1)) by (nonlinear_arith)
                requires
                    j + 1 <= n - 1,
                    k >= 0,
            ;
            assert((j + 1) * (k + 1) == j * (k + 1) + k + 1) by (nonlinear_arith);
        }
        let mut i: usize = 0;
        while i <= points_between
            invariant
                n == raw.len(),
                raw == input@,
                k == points_between as int,
                scale == k + 1,
                j + 1 < n,
                start == raw[j as int],
                end == raw[j + 1],
                0 <= i <= points_between + 1,
                j * (k + 1) + k + 1 <= (n - 1) * (k + 1),
                interpolated_len(n as int, k) <= usize::MAX,
                output@.len() == j * (k + 1) + i,
                forall|idx: int| 0 <= idx < output@.len() ==> #[trigger] output@[idx]
                    == interpolated_value(raw, k, idx),
            decreases points_between + 1 - i,
        {
            let ghost idx = j * (k + 1) + i;
            proof {
                lemma_weighted_bound(start as int, end as int, u64::MAX as int, k + 1, i as int);
                assert(u64::MAX * (k + 1) <= u128::MAX) by (nonlinear_arith)
                    requires
                        0 <= k <= u64::MAX,
                ;
                assert(start * (scale - i) >= 0 && end * i >= 0) by (nonlinear_arith)
                    requires
                        start >= 0,
                        end >= 0,
                        i >= 0,
                        scale - i >= 0,
                ;
                lemma_fundamental_div_mod_converse(idx, k + 1, j as int, i as int);
            }
            let value: u128 = start * (scale - i as u128) + end * (i as u128);
            proof {
                if i == 0 {
                    assert(end * 0 == 0) by (nonlinear_arith);
                }
                assert(value == interpolated_value(raw, k, idx));
            }
            output.push(value);
            i += 1;
        }
        j += 1;
        proof {
            assert(j * (k + 1) == (j - 1) * (k + 1) + k + 1) by (nonlinear_arith);
        }
    }
    proof {
        assert(j == n - 1);
        lemma_fundamental_div_mod_converse(j * (k + 1), k + 1, j as int, 0);
        lemma_weighted_bound(raw[n - 1] as int, 0, u64::MAX as int, k + 1, 0);
        assert(u64::MAX * (k + 1) <= u128::MAX) by (nonlinear_arith)
            requires
                0 <= k <= u64::MAX,
        ;
    }
    output.push(input[n - 1] as u128 * scale);
    proof {
        lemma_interpolation_passes(raw, k, 0);
        lemma_interpolation_passes(raw, k, n - 1);
        assert(0 * (k + 1) == 0) by (nonlinear_arith);
    }
    output
}

/// A smoothed series of the chart.
#[derive(Clone, Debug, PartialEq, Eq)]
pub struct ChartSeries {
    /// The counters of the buckets, oldest first.
    pub raw: Vec<u64>,
    /// The number of points put between two buckets.
    pub between: usize,
    /// The points of the line: position and value, both in units of
    /// `1 / (between + 1)`, the position of a bucket and the value of a
    /// query.
    pub points: Vec<(usize, u128)>,
}

impl ChartSeries {
    /// The points are the interpolation of the counters, each at its
    /// position.
    pub open spec fn wf(&self) -> bool {
        &&& self.raw@.len() >= 1
        &&& self.points@.len() == interpolated_len(self.raw@.len() as int, self.between as int)
        &&& self.points@.len() <= usize::MAX
        &&& forall|idx: int|
            0 <= idx < self.points@.len() ==> #[trigger] self.points@[idx] == (
                idx as usize,
                interpolated_value(self.raw@, self.between as int, idx) as u128,
            )
    }

    /// The number of units that make one query.
    pub open spec fn scale(&self) -> int {
        self.between + 1
    }
}

/// The positions of a series ascend strictly, and no value of it lies above
/// the largest counter or below zero.
pub proof fn lemma_series_ordered(series: ChartSeries, i: int, j: int)
    requires
        series.wf(),
        0 <= i < j < series.points@.len(),
    ensures
        series.points@[i].0 < series.points@[j].0,
        series.points@[i].1 <= u64::MAX * series.scale(),
{
    lemma_interpolation_within(series.raw@, series.between as int, i, u64::MAX as int);
}

/// Gives each value its position in the sequence.
pub fn convert_to_chart_data(data: Vec<u128>) -> (points: Vec<(usize, u128)>)
    ensures
        points@.len() == data@.len(),
        forall|i: int| 0 <= i < points@.len() ==> #[trigger] points@[i] == (i as usize, data@[i]),
{
    let mut points: Vec<(usize, u128)> = Vec::new();
    let mut i: usize = 0;
    while i < data.len()
        invariant
            0 <= i <= data@.len(),
            points@.len() == i,
            forall|p: int| 0 <= p < i ==> #[trigger] points@[p] == (p as usize, data@[p]),
        decreases data@.len() - i,
    {
        points.push((i, data[i]));
        i += 1;
    }
    points
}

/// Smooths the counters of a window with `between` points between buckets.
pub fn smooth(raw: Vec<u64>, between: usize) -> (series: ChartSeries)
    requires
        raw@.len() >= 1,
        interpolated_len(raw@.len() as int, between as int) <= usize::MAX,
    ensures
        series.wf(),
        series.raw == raw,
        series.between == between,
{
    let values = interpolate(&raw, between);
    proof {
        assert forall|idx: int| 0 <= idx < values@.len() implies #[trigger] values@[idx]
            == interpolated_value(raw@, between as int, idx) as u128 by {
            lemma_interpolation_within(raw@, between as int, idx, u64::MAX as int);
        }
    }
    let points = convert_to_chart_data(values);
    ChartSeries { raw, between, points }
}

/// The queries of bucket `i` that were blocked by filtering, safe browsing or
/// parental control. Queries replaced by safe search are not counted here.
pub open spec fn blocked_in_bucket(
    filtering: Seq<u64>,
    safebrowsing: Seq<u64>,
    parental: Seq<u64>,
    i: int,
) -> int {
    filtering[i] + safebrowsing[i] + parental[i]
}

/// Whether the blocked queries of some bucket exceed the counter range.
pub open spec fn blocked_overflows(
    filtering: Seq<u64>,
    safebrowsing: Seq<u64>,
    parental: Seq<u64>,
) -> bool {
    exists|i: int|
        0 <= i < filtering.len() && #[trigger] blocked_in_bucket(
            filtering,
            safebrowsing,
            parental,
            i,
        ) > u64::MAX
}

/// Adds up, bucket by bucket, the queries blocked by filtering, safe browsing
/// and parental control.
pub fn aggregate_blocked(
    filtering: &Vec<u64>,
    safebrowsing: &Vec<u64>,
    parental: &Vec<u64>,
) -> (blocked: Result<Vec<u64>, ValidationError>)
    ensures
        filtering@.len() != safebrowsing@.len() || filtering@.len() != parental@.len() ==> blocked
            == Err::<Vec<u64>, ValidationError>(ValidationError::WindowMismatch),
        filtering@.len() == safebrowsing@.len() && filtering@.len() == parental@.len()
            && blocked_overflows(filtering@, safebrowsing@, parental@) ==> blocked == Err::<
            Vec<u64>,
            ValidationError,
        >(ValidationError::CounterOverflow),
        filtering@.len() == safebrowsing@.len() && filtering@.len() == parental@.len()
            && !blocked_overflows(filtering@, safebrowsing@, parental@) ==> blocked is Ok
            && blocked->Ok_0@.len() == filtering@.len() && forall|i: int|
            0 <= i < filtering@.len() ==> #[trigger] blocked->Ok_0@[i] == blocked_in_bucket(
                filtering@,
                safebrowsing@,
                parental@,
                i,
            ),
{
    let n = filtering.len();
    if safebrowsing.len() != n || parental.len() != n {
        return Err(ValidationError::WindowMismatch);
    }
    let mut sums: Vec<u64> = Vec::new();
    let mut i: usize = 0;
    while i < n
        invariant
            n == filtering@.len(),
            n == safebrowsing@.len(),
            n == parental@.len(),
            0 <= i <= n,
            sums@.len() == i,
            forall|p: int|
                0 <= p < i ==> #[trigger] sums@[p] == blocked_in_bucket(
                    filtering@,
                    safebrowsing@,
                    parental@,
                    p,
                ),
            forall|p: int|
                0 <= p < i ==> #[trigger] blocked_in_bucket(
                    filtering@,
                    safebrowsing@,
                    parental@,
                    p,
                ) <= u64::MAX,
        decreases n - i,
    {
        let sum: u128 = filtering[i] as u128 + safebrowsing[i] as u128 + parental[i] as u128;
        if sum > u64::MAX as u128 {
            assert(blocked_in_bucket(filtering@, safebrowsing@, parental@, i as int) > u64::MAX);
            return Err(ValidationError::CounterOverflow);
        }
        sums.push(sum as u64);
        i += 1;
    }
    Ok(sums)
}

/// The two series of the history chart.
#[derive(Clone, Debug, PartialEq, Eq)]
pub struct ChartData {
    /// All queries.
    pub dns_queries: ChartSeries,
    /// The queries that were blocked.
    pub blocked: ChartSeries,
}

impl ChartData {
    /// Whether these are the series of `stats`: the queries of each bucket,
    /// and the queries of each bucket that were blocked by filtering, safe
    /// browsing or parental control, both smoothed with [`POINTS_BETWEEN`]
    /// points between buckets.
    pub open spec fn shows(self, stats: StatsResponse) -> bool {
        &&& stats.window_is_uniform()
        &&& self.dns_queries.wf()
        &&& self.blocked.wf()
        &&& self.dns_queries.between == POINTS_BETWEEN
        &&& self.blocked.between == POINTS_BETWEEN
        &&& self.dns_queries.raw@ == stats.dns_queries@
        &&& self.blocked.raw@.len() == stats.dns_queries@.len()
        &&& forall|i: int|
            0 <= i < self.blocked.raw@.len() ==> #[trigger] self.blocked.raw@[i]
                == blocked_in_bucket(
                stats.blocked_filtering@,
                stats.replaced_safebrowsing@,
                stats.replaced_parental@,
                i,
            )
    }
}

/// Why the statistics give no chart, if they give none. The checks come in
/// this order: the window is empty, the bucket arrays differ in length, the
/// blocked queries of a bucket leave the counter range, the smoothed series
/// would be too long.
pub open spec fn chart_error(stats: StatsResponse) -> Option<ValidationError> {
    let n = stats.dns_queries@.len();
    if n == 0 {
        Some(ValidationError::EmptyWindow)
    } else if stats.blocked_filtering@.len() != n || stats.replaced_safebrowsing@.len() != n
        || stats.replaced_parental@.len() != n {
        Some(ValidationError::WindowMismatch)
    } else if blocked_overflows(
        stats.blocked_filtering@,
        stats.replaced_safebrowsing@,
        stats.replaced_parental@,
    ) {
        Some(ValidationError::CounterOverflow)
    } else if interpolated_len(n as int, POINTS_BETWEEN as int) > usize::MAX {
        Some(ValidationError::SeriesTooLong)
    } else {
        None
    }
}

fn copy_counters(counters: &Vec<u64>) -> (copy: Vec<u64>)
    ensures
        copy@ == counters@,
{
    let mut copy: Vec<u64> = Vec::new();
    let mut i: usize = 0;
    while i < counters.len()
        invariant
            0 <= i <= counters@.len(),
            copy@ == counters@.subrange(0, i as int),
        decreases counters@.len() - i,
    {
        copy.push(counters[i]);
        assert(copy@ =~= counters@.subrange(0, i + 1));
        i += 1;
    }
    assert(copy@ =~= counters@);
    copy
}

/// Prepares the two series of the history chart from the statistics: all
/// queries, and the queries blocked by filtering, safe browsing or parental
/// control, each smoothed with [`POINTS_BETWEEN`] points between buckets.
pub fn prepare_chart_data(stats: &StatsResponse) -> (prepared: Result<ChartData, ValidationError>)
    ensures
        match prepared {
            Ok(data) => chart_error(*stats) is None && data.shows(*stats),
            Err(error) => chart_error(*stats) == Some(error),
        },
{
    let n = stats.dns_queries.len();
    if n == 0 {
        return Err(ValidationError::EmptyWindow);
    }
    if stats.blocked_filtering.len() != n || stats.replaced_safebrowsing.len() != n
        || stats.replaced_parental.len() != n {
        return Err(ValidationError::WindowMismatch);
    }
    let blocked = match aggregate_blocked(
        &stats.blocked_filtering,
        &stats.replaced_safebrowsing,
        &stats.replaced_parental,
    ) {
        Ok(blocked) => blocked,
        Err(error) => {
            return Err(error);
        },
    };
    if n - 1 > (usize::MAX - 1) / (POINTS_BETWEEN + 1) {
        return Err(ValidationError::SeriesTooLong);
    }
    let queries = copy_counters(&stats.dns_queries);
    Ok(
        ChartData {
            dns_queries: smooth(queries, POINTS_BETWEEN),
            blocked: smooth(blocked, POINTS_BETWEEN),
        },
    )
}

impl ChartSeries {
    /// No point of the series lies above `y` queries.
    pub open spec fn stays_within(&self, y: int) -> bool {
        forall|idx: int|
            0 <= idx < self.points@.len() ==> (#[trigger] self.points@[idx]).1 <= y * self.scale()
    }

    /// Some point of the series lies at `y` queries.
    pub open spec fn reaches(&self, y: int) -> bool {
        exists|idx: int|
            0 <= idx < self.points@.len() && (#[trigger] self.points@[idx]).1 == y * self.scale()
    }
}

fn largest(counters: &Vec<u64>) -> (top: u64)
    requires
        counters@.len() >= 1,
    ensures
        forall|j: int| 0 <= j < counters@.len() ==> counters@[j] <= top,
        exists|j: int| 0 <= j < counters@.len() && counters@[j] == top,
{
    let mut top: u64 = counters[0];
    let mut i: usize = 1;
    while i < counters.len()
        invariant
            1 <= i <= counters@.len(),
            forall|j: int| 0 <= j < i ==> counters@[j] <= top,
            exists|j: int| 0 <= j < i && counters@[j] == top,
        decreases counters@.len() - i,
    {
        if counters[i] > top {
            top = counters[i];
        }
        i += 1;
    }
    top
}

proof fn lemma_top_of_series(series: ChartSeries, top: int, y: int)
    requires
        series.wf(),
        forall|j: int| 0 <= j < series.raw@.len() ==> series.raw@[j] <= top,
        exists|j: int| 0 <= j < series.raw@.len() && series.raw@[j] == top,
        top <= y,
    ensures
        series.stays_within(y),
        top == y ==> series.reaches(y),
{
    let k = series.between as int;
    assert forall|idx: int| 0 <= idx < series.points@.len() implies (
    #[trigger] series.points@[idx]).1 <= y * series.scale() by {
        lemma_interpolation_within(series.raw@, k, idx, top);
        lemma_interpolation_within(series.raw@, k, idx, u64::MAX as int);
        assert(top * (k + 1) <= y * (k + 1)) by (nonlinear_arith)
            requires
                top <= y,
                k >= 0,
        ;
    }
    if top == y {
        let j = choose|j: int| 0 <= j < series.raw@.len() && series.raw@[j] == top;
        lemma_interpolation_passes(series.raw@, k, j);
        let idx = j * (k + 1);
        lemma_interpolation_within(series.raw@, k, idx, u64::MAX as int);
        assert(series.points@[idx].1 == y * series.scale());
    }
}

/// The upper bounds of the chart's axes. The bound of the x axis is the
/// larger number of buckets of the two series, not of their points. The bound
/// of the y axis is the largest value that a point of either series has, in
/// queries.
pub fn find_bounds(first: &ChartSeries, second: &ChartSeries) -> (bounds: (usize, u64))
    requires
        first.wf(),
        second.wf(),
    ensures
        bounds.0 == if first.raw@.len() >= second.raw@.len() {
            first.raw@.len()
        } else {
            second.raw@.len()
        },
        first.stays_within(bounds.1 as int),
        second.stays_within(bounds.1 as int),
        first.reaches(bounds.1 as int) || second.reaches(bounds.1 as int),
{
    let x_bound = if first.raw.len() >= second.raw.len() {
        first.raw.len()
    } else {
        second.raw.len()
    };
    let top_first = largest(&first.raw);
    let top_second = largest(&second.raw);
    let y_bound = if top_first >= top_second {
        top_first
    } else {
        top_second
    };
    proof {
        lemma_top_of_series(*first, top_first as int, y_bound as int);
        lemma_top_of_series(*second, top_second as int, y_bound as int);
    }
    (x_bound, y_bound)
}

/// The text of label `i` of `count` on the x axis, which counts the days back
/// from `max_days` in steps of `max_days / (count - 1)`, rounded down. The
/// last label is the word "Today" whatever its number would be.
pub open spec fn x_label(max_days: int, count: int, i: int) -> Seq<char> {
    if i == count - 1 {
        "Today"@
    } else {
        decimal_text((max_days - i * (max_days / (count - 1))) as nat)
    }
}

/// The text of label `i` of `count` on the y axis, which counts up from 0 in
/// steps of `max / (count - 1)`, rounded down.
pub open spec fn y_label(max: int, count: int, i: int) -> Seq<char> {
    decimal_text((i * (max / (count - 1))) as nat)
}

proof fn lemma_label_in_range(max: int, count: int, i: int)
    requires
        max >= 0,
        count >= 2,
        0 <= i <= count - 1,
    ensures
        0 <= i * (max / (count - 1)) <= max,
{
    let d = count - 1;
    let step = max / d;
    lemma_fundamental_div_mod(max, d);
    assert(0 <= i * step <= max) by (nonlinear_arith)
        requires
            max == d * step + max % d,
            0 <= max % d,
            0 <= i <= d,
            max >= 0,
            d >= 1,
            step == max / d,
    {
        assert(step >= 0);
        assert(i * step <= d * step);
    }
}

/// The labels of the x axis, from `max_days` ago on the left to today on the
/// right.
pub fn generate_x_labels(max_days: usize, num_labels: usize) -> (labels: Vec<String>)
    requires
        num_labels >= 2,
    ensures
        labels@.len() == num_labels,
        forall|i: int|
            0 <= i < num_labels ==> (#[trigger] labels@[i])@ == x_label(
                max_days as int,
                num_labels as int,
                i,
            ),
        labels@[num_labels - 1]@ == "Today"@,
{
    let step = max_days / (num_labels - 1);
    let mut labels: Vec<String> = Vec::new();
    let mut i: usize = 0;
    while i < num_labels
        invariant
            num_labels >= 2,
            step == max_days as int / (num_labels - 1),
            0 <= i <= num_labels,
            labels@.len() == i,
            forall|p: int|
                0 <= p < i ==> (#[trigger] labels@[p])@ == x_label(
                    max_days as int,
                    num_labels as int,
                    p,
                ),
        decreases num_labels - i,
    {
        if i == num_labels - 1 {
            labels.push(String::from_str("Today"));
        } else {
            proof {
                lemma_label_in_range(max_days as int, num_labels as int, i as int);
            }
            labels.push(decimal_string((max_days - i * step) as u128));
        }
        i += 1;
    }
    labels
}

/// The labels of the y axis, from 0 at the bottom upwards.
pub fn generate_y_labels(max: u64, count: usize) -> (labels: Vec<String>)
    requires
        count >= 2,
    ensures
        labels@.len() == count,
        forall|i: int|
            0 <= i < count ==> (#[trigger] labels@[i])@ == y_label(max as int, count as int, i),
{
    let step: u128 = max as u128 / (count as u128 - 1);
    let mut labels: Vec<String> = Vec::new();
    let mut i: usize = 0;
    while i < count
        invariant
            count >= 2,
            step == max as int / (count - 1),
            0 <= i <= count,
            labels@.len() == i,
            forall|p: int|
                0 <= p < i ==> (#[trigger] labels@[p])@ == y_label(max as int, count as int, p),
        decreases count - i,
    {
        proof {
            lemma_label_in_range(max as int, count as int, i as int);
        }
        labels.push(decimal_string(i as u128 * step));
        i += 1;
    }
    labels
}

/// The history chart without its points: the bounds of the axes and their
/// labels.
#[derive(Clone, Debug, PartialEq, Eq)]
pub struct HistoryChart {
    /// The bound of the x axis, in buckets.
    pub x_bound: usize,
    /// The bound of the y axis, in queries.
    pub y_bound: u64,
    pub x_labels: Vec<String>,
    pub y_labels: Vec<String>,
}

impl HistoryChart {
    /// Whether these are the axes of the chart of `data`: the x axis reaches
    /// to the larger number of buckets, the y axis to the largest value of a
    /// point, and each axis has its [`AXIS_LABELS`] labels.
    pub open spec fn frames(self, data: ChartData) -> bool {
        &&& self.x_bound == if data.dns_queries.raw@.len() >= data.blocked.raw@.len() {
            data.dns_queries.raw@.len()
        } else {
            data.blocked.raw@.len()
        }
        &&& data.dns_queries.stays_within(self.y_bound as int)
        &&& data.blocked.stays_within(self.y_bound as int)
        &&& data.dns_queries.reaches(self.y_bound as int) || data.blocked.reaches(
            self.y_bound as int,
        )
        &&& self.x_labels@.len() == AXIS_LABELS
        &&& self.y_labels@.len() == AXIS_LABELS
        &&& forall|i: int|
            0 <= i < AXIS_LABELS ==> (#[trigger] self.x_labels@[i])@ == x_label(
                self.x_bound as int,
                AXIS_LABELS as int,
                i,
            )
        &&& forall|i: int|
            0 <= i < AXIS_LABELS ==> (#[trigger] self.y_labels@[i])@ == y_label(
                self.y_bound as int,
                AXIS_LABELS as int,
                i,
            )
    }
}

/// Lays out the axes of the history chart for the two series. Each axis has
/// [`AXIS_LABELS`] labels, and the last label of the x axis reads "Today".
pub fn make_history_chart(data: &ChartData) -> (chart: HistoryChart)
    requires
        data.dns_queries.wf(),
        data.blocked.wf(),
    ensures
        chart.frames(*data),
        chart.x_labels@[AXIS_LABELS - 1]@ == "Today"@,
{
    let (x_bound, y_bound) = find_bounds(&data.dns_queries, &data.blocked);
    let x_labels = generate_x_labels(x_bound, AXIS_LABELS);
    let y_labels = generate_y_labels(y_bound, AXIS_LABELS);
    HistoryChart { x_bound, y_bound, x_labels, y_labels }
}

/// Tells why the statistics give no chart, if they give none.
pub fn check_stats(stats: &StatsResponse) -> (error: Option<ValidationError>)
    ensures
        error == chart_error(*stats),
{
    match prepare_chart_data(stats) {
        Ok(_) => None,
        Err(error) => Some(error),
    }
}

} // verus!
