//! Speed curve and multi-source aggregation.

use vstd::arithmetic::div_mod::{
    lemma_div_is_ordered, lemma_div_pos_is_pos, lemma_multiply_divide_lt,
};
use vstd::prelude::*;

use crate::speed::{Speed, SPEED_SCALE};

verus! {

/// Temperature in millidegrees Celsius
pub type Temp = i64;

/// Largest magnitude of temperature the curve math accepts, in millidegrees
/// Celsius; keeps every intermediate product inside `i64`.
pub const TEMP_LIMIT_MILLI: i64 = 1_000_000_000;

/// The temperature lies within the magnitude the curve math accepts.
pub open spec fn temp_in_bounds(t: int) -> bool {
    -(TEMP_LIMIT_MILLI as int) <= t <= TEMP_LIMIT_MILLI as int
}

/// Calibration range: the temperatures at which the fans run at minimum and
/// at maximum speed.
#[derive(Clone, Copy, Debug, PartialEq, Eq, Structural)]
pub struct TemperatureRange {
    /// Temperature of minimum speed, millidegrees Celsius
    pub start: Temp,
    /// Temperature of maximum speed, millidegrees Celsius
    pub end: Temp,
}

impl TemperatureRange {
    /// Callers must supply an ordered range within the accepted magnitude.
    pub open spec fn wf(self) -> bool {
        &&& self.start <= self.end
        &&& temp_in_bounds(self.start as int)
        &&& temp_in_bounds(self.end as int)
    }
}

/// Target speed, in thousandths of full speed, for a temperature: the floor
/// below the range, full speed at or above its end, and a linear
/// interpolation from the floor's worth of the way in between, never below
/// the floor.
pub open spec fn target_speed_spec(temp: int, range: TemperatureRange, floor: int) -> int {
    let start = range.start as int;
    let end = range.end as int;
    if temp < start {
        floor
    } else if temp >= end {
        SPEED_SCALE as int
    } else {
        let lin = (temp - start) * (SPEED_SCALE as int) / (end - start);
        if lin >= floor {
            lin
        } else {
            floor
        }
    }
}

/// Compute target fan speed for the given temp and parameters
pub fn target_speed(temp: Temp, temp_range: &TemperatureRange, min_speed: Speed) -> (r: Speed)
    requires
        temp_range.wf(),
        temp_in_bounds(temp as int),
    ensures
        r@ == target_speed_spec(temp as int, *temp_range, min_speed@),
{
    if temp_range.start <= temp && temp < temp_range.end {
        let num: u64 = ((temp - temp_range.start) as u64) * (SPEED_SCALE as u64);
        let den: u64 = (temp_range.end - temp_range.start) as u64;
        let lin: u64 = num / den;
        proof {
            lemma_div_pos_is_pos(num as int, den as int);
            lemma_multiply_divide_lt(num as int, den as int, SPEED_SCALE as int);
        }
        let lin_speed = match Speed::try_from(lin as u16) {
            Ok(s) => s,
            Err(_) => {
                proof {
                    assert(false);
                }
                min_speed
            },
        };
        lin_speed.max(min_speed)
    } else if temp < temp_range.start {
        min_speed
    } else {
        Speed::full()
    }
}

/// The curve never demands less than the floor.
pub proof fn lemma_target_speed_at_least_floor(temp: int, range: TemperatureRange, floor: int)
    requires
        range.wf(),
        0 <= floor <= SPEED_SCALE as int,
    ensures
        target_speed_spec(temp, range, floor) >= floor,
{
}

/// At or below the range start the curve returns exactly the floor (at the
/// start itself this needs a non-degenerate range: when the range is empty,
/// its start already counts as its end).
pub proof fn lemma_target_speed_floor_below_range(temp: int, range: TemperatureRange, floor: int)
    requires
        range.wf(),
        0 <= floor <= SPEED_SCALE as int,
        temp <= range.start as int,
        temp < range.start as int || (range.start as int) < range.end as int,
    ensures
        target_speed_spec(temp, range, floor) == floor,
{
    if range.start as int <= temp && temp < range.end as int {
        let den = range.end as int - range.start as int;
        assert((temp - range.start as int) * (SPEED_SCALE as int) == 0);
        assert(0int / den == 0) by (nonlinear_arith)
            requires den > 0;
    }
}

/// At or above the range end the curve returns full speed.
pub proof fn lemma_target_speed_full_above_range(temp: int, range: TemperatureRange, floor: int)
    requires
        range.wf(),
        temp >= range.end as int,
    ensures
        target_speed_spec(temp, range, floor) == SPEED_SCALE as int,
{
}

/// Inside the range the interpolated value stays below full speed.
proof fn lemma_interpolation_below_full(temp: int, range: TemperatureRange)
    requires
        range.wf(),
        range.start as int <= temp < range.end as int,
    ensures
        0 <= (temp - range.start as int) * (SPEED_SCALE as int) / (range.end as int
            - range.start as int) < SPEED_SCALE as int,
{
    let start = range.start as int;
    let end = range.end as int;
    let num = (temp - start) * (SPEED_SCALE as int);
    let den = end - start;
    lemma_div_pos_is_pos(num, den);
    lemma_multiply_divide_lt(num, den, SPEED_SCALE as int);
}

/// The curve never exceeds full speed.
pub proof fn lemma_target_speed_at_most_full(temp: int, range: TemperatureRange, floor: int)
    requires
        range.wf(),
        0 <= floor <= SPEED_SCALE as int,
    ensures
        target_speed_spec(temp, range, floor) <= SPEED_SCALE as int,
{
    let start = range.start as int;
    let end = range.end as int;
    if start <= temp < end {
        lemma_interpolation_below_full(temp, range);
    }
}

/// For a fixed range and floor the curve is monotonically non-decreasing in
/// temperature.
pub proof fn lemma_target_speed_monotonic(
    t1: int,
    t2: int,
    range: TemperatureRange,
    floor: int,
)
    requires
        range.wf(),
        0 <= floor <= SPEED_SCALE as int,
        t1 <= t2,
    ensures
        target_speed_spec(t1, range, floor) <= target_speed_spec(t2, range, floor),
{
    let start = range.start as int;
    let end = range.end as int;
    lemma_target_speed_at_least_floor(t2, range, floor);
    lemma_target_speed_at_most_full(t1, range, floor);
    if start <= t1 < end && start <= t2 < end {
        let den = end - start;
        assert((t1 - start) * (SPEED_SCALE as int) <= (t2 - start) * (SPEED_SCALE as int))
            by (nonlinear_arith)
            requires
                t1 <= t2,
                start <= t1,
        ;
        lemma_div_is_ordered(
            (t1 - start) * (SPEED_SCALE as int),
            (t2 - start) * (SPEED_SCALE as int),
            den,
        );
    }
}

/// One temperature source feeding the aggregation: a smoothed temperature
/// and the calibration range it is judged against.
#[derive(Clone, Copy, Debug, PartialEq, Eq, Structural)]
pub struct SourceReading {
    /// Smoothed temperature, millidegrees Celsius
    pub temp: Temp,
    /// Calibration range for this source
    pub range: TemperatureRange,
}

impl SourceReading {
    /// The reading's range is ordered and both values are within the
    /// magnitude the curve math accepts.
    pub open spec fn wf(self) -> bool {
        self.range.wf() && temp_in_bounds(self.temp as int)
    }
}

/// Aggregated demand of a list of sources, in thousandths of full speed:
/// each source's curve output folded over the configured floor, so a single
/// hot source raises the result and no source lowers it.
pub open spec fn aggregate_spec(readings: Seq<SourceReading>, floor: int) -> int
    decreases readings.len(),
{
    if readings.len() == 0 {
        floor
    } else {
        target_speed_spec(
            readings.last().temp as int,
            readings.last().range,
            aggregate_spec(readings.drop_last(), floor),
        )
    }
}

/// The aggregate stays within the normalized speed range.
pub proof fn lemma_aggregate_in_range(readings: Seq<SourceReading>, floor: int)
    requires
        0 <= floor <= SPEED_SCALE as int,
        forall|i: int| 0 <= i < readings.len() ==> (#[trigger] readings[i]).wf(),
    ensures
        floor <= aggregate_spec(readings, floor) <= SPEED_SCALE as int,
    decreases readings.len(),
{
    if readings.len() > 0 {
        lemma_aggregate_in_range(readings.drop_last(), floor);
        let prev = aggregate_spec(readings.drop_last(), floor);
        lemma_target_speed_at_least_floor(readings.last().temp as int, readings.last().range, prev);
        lemma_target_speed_at_most_full(readings.last().temp as int, readings.last().range, prev);
    }
}

/// Including one more source never decreases the aggregate; when the extra
/// source demands no more than the sources already present, the aggregate is
/// unchanged.
pub proof fn lemma_aggregate_extend(
    readings: Seq<SourceReading>,
    extra: SourceReading,
    floor: int,
)
    requires
        0 <= floor <= SPEED_SCALE as int,
        forall|i: int| 0 <= i < readings.len() ==> (#[trigger] readings[i]).wf(),
        extra.wf(),
    ensures
        aggregate_spec(readings.push(extra), floor) >= aggregate_spec(readings, floor),
        target_speed_spec(extra.temp as int, extra.range, floor) <= aggregate_spec(readings, floor)
            ==> aggregate_spec(readings.push(extra), floor) == aggregate_spec(readings, floor),
{
    let agg = aggregate_spec(readings, floor);
    assert(readings.push(extra).drop_last() =~= readings);
    lemma_aggregate_in_range(readings, floor);
    lemma_target_speed_at_least_floor(extra.temp as int, extra.range, agg);
    lemma_target_speed_monotonic_floor(extra.temp as int, extra.range, floor, agg);
}

/// The aggregate meets every source's demand: a single hot source raises the
/// result, and no source lowers it below the floor or below what a hotter
/// source asks for.
pub proof fn lemma_aggregate_dominates(readings: Seq<SourceReading>, floor: int, i: int)
    requires
        0 <= floor <= SPEED_SCALE as int,
        forall|j: int| 0 <= j < readings.len() ==> (#[trigger] readings[j]).wf(),
        0 <= i < readings.len(),
    ensures
        aggregate_spec(readings, floor) >= target_speed_spec(
            readings[i].temp as int,
            readings[i].range,
            floor,
        ),
    decreases readings.len(),
{
    let prev = aggregate_spec(readings.drop_last(), floor);
    lemma_aggregate_in_range(readings.drop_last(), floor);
    lemma_target_speed_at_most_full(readings.last().temp as int, readings.last().range, floor);
    lemma_target_speed_monotonic_floor(
        readings.last().temp as int,
        readings.last().range,
        floor,
        prev,
    );
    if i < readings.len() - 1 {
        lemma_aggregate_dominates(readings.drop_last(), floor, i);
        lemma_target_speed_at_least_floor(readings.last().temp as int, readings.last().range, prev);
    }
}

/// For a fixed temperature and range the curve output with a higher floor is
/// the larger of the low-floor output and the floor itself.
pub proof fn lemma_target_speed_monotonic_floor(
    temp: int,
    range: TemperatureRange,
    floor1: int,
    floor2: int,
)
    requires
        range.wf(),
        0 <= floor1 <= floor2 <= SPEED_SCALE as int,
    ensures
        target_speed_spec(temp, range, floor2) == if target_speed_spec(temp, range, floor1)
            >= floor2 {
            target_speed_spec(temp, range, floor1)
        } else {
            floor2
        },
{
}

/// Compute the aggregated target speed over every source, seeded with the
/// configured minimum floor.
pub fn aggregate(readings: &Vec<SourceReading>, floor: Speed) -> (r: Speed)
    requires
        forall|i: int| 0 <= i < readings@.len() ==> (#[trigger] readings@[i]).wf(),
    ensures
        r@ == aggregate_spec(readings@, floor@),
{
    let mut speed = floor;
    let mut idx: usize = 0;
    proof {
        assert(readings@.take(0) =~= Seq::<SourceReading>::empty());
    }
    while idx < readings.len()
        invariant
            0 <= idx <= readings@.len(),
            forall|i: int| 0 <= i < readings@.len() ==> (#[trigger] readings@[i]).wf(),
            speed@ == aggregate_spec(readings@.take(idx as int), floor@),
        decreases readings@.len() - idx,
    {
        let reading = readings[idx];
        speed = target_speed(reading.temp, &reading.range, speed);
        proof {
            assert(readings@.take(idx as int + 1).drop_last() =~= readings@.take(idx as int));
            assert(readings@.take(idx as int + 1).last() == readings@[idx as int]);
        }
        idx += 1;
    }
    proof {
        assert(readings@.take(readings@.len() as int) =~= readings@);
    }
    speed
}

/// The hottest of a list of temperatures, absent when the list is empty
/// (every drive asleep contributes nothing).
pub fn max_temp(temps: &Vec<Temp>) -> (r: Option<Temp>)
    ensures
        r is None <==> temps@.len() == 0,
        r matches Some(m) ==> temps@.contains(m) && forall|i: int|
            0 <= i < temps@.len() ==> temps@[i] <= m,
{
    if temps.len() == 0 {
        return None;
    }
    let mut best: Temp = temps[0];
    let mut idx: usize = 1;
    while idx < temps.len()
        invariant
            1 <= idx <= temps@.len(),
            temps@.len() >= 1,
            temps@.contains(best),
            forall|i: int| 0 <= i < idx ==> temps@[i] <= best,
        decreases temps@.len() - idx,
    {
        if temps[idx] > best {
            best = temps[idx];
        }
        idx += 1;
    }
    Some(best)
}

} // verus!
