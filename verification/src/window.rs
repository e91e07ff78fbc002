//! Bounded moving-average smoothing of temperature samples.

use vstd::prelude::*;

use crate::curve::{temp_in_bounds, Temp, TEMP_LIMIT_MILLI};

verus! {

/// Largest window capacity accepted; keeps the running sum inside `i64`.
pub const WINDOW_CAPACITY_LIMIT: usize = 1_000_000;

/// Sum of a sequence of temperatures.
pub open spec fn sum_spec(samples: Seq<Temp>) -> int
    decreases samples.len(),
{
    if samples.len() == 0 {
        0
    } else {
        sum_spec(samples.drop_last()) + samples.last() as int
    }
}

/// Integer mean rounded toward zero.
pub open spec fn mean_spec(total: int, count: int) -> int {
    if total >= 0 {
        total / count
    } else {
        -((-total) / count)
    }
}

/// Fixed-capacity moving-average smoother for one temperature source: a
/// bounded FIFO of the most recent raw samples.
#[derive(Debug)]
pub struct TemperatureWindow {
    /// Most recent samples, oldest first
    samples: Vec<Temp>,
    /// Fixed capacity, at least one
    capacity: usize,
}

impl View for TemperatureWindow {
    type V = Seq<Temp>;

    closed spec fn view(&self) -> Seq<Temp> {
        self.samples@
    }
}

impl TemperatureWindow {
    /// The window never holds more samples than its capacity, and every
    /// sample is within the magnitude the curve math accepts.
    pub closed spec fn wf(self) -> bool {
        &&& 1 <= self.capacity <= WINDOW_CAPACITY_LIMIT
        &&& self.samples@.len() <= self.capacity
        &&& forall|i: int|
            0 <= i < self.samples@.len() ==> temp_in_bounds(#[trigger] self.samples@[i] as int)
    }

    /// The fixed capacity this window was made with.
    pub closed spec fn spec_capacity(self) -> int {
        self.capacity as int
    }

    /// Make an empty window of the given capacity.
    pub fn new(capacity: usize) -> (w: TemperatureWindow)
        requires
            1 <= capacity <= WINDOW_CAPACITY_LIMIT,
        ensures
            w.wf(),
            w@ =~= Seq::<Temp>::empty(),
            w.spec_capacity() == capacity as int,
    {
        TemperatureWindow { samples: Vec::new(), capacity }
    }

    /// Record one raw sample, discarding the oldest one once the window is
    /// full.
    pub fn push(&mut self, sample: Temp)
        requires
            old(self).wf(),
            temp_in_bounds(sample as int),
        ensures
            final(self).wf(),
            final(self)@ == if old(self)@.len() < old(self).spec_capacity() {
                old(self)@.push(sample)
            } else {
                old(self)@.subrange(1, old(self)@.len() as int).push(sample)
            },
            final(self).spec_capacity() == old(self).spec_capacity(),
    {
        if self.samples.len() == self.capacity {
            self.samples.remove(0);
        }
        self.samples.push(sample);
    }

    /// Number of samples currently held.
    pub fn len(&self) -> (n: usize)
        ensures
            n as int == self@.len(),
    {
        self.samples.len()
    }

    /// Moving average of the held samples, rounded toward zero; absent while
    /// the window is empty so an idle source is excluded from aggregation
    /// rather than counted as zero.
    pub fn average(&self) -> (r: Option<Temp>)
        requires
            self.wf(),
        ensures
            r is None <==> self@.len() == 0,
            r matches Some(m) ==> m as int == mean_spec(sum_spec(self@), self@.len() as int)
                && temp_in_bounds(m as int),
    {
        if self.samples.len() == 0 {
            return None;
        }
        let n = self.samples.len();
        let mut total: i64 = 0;
        let mut idx: usize = 0;
        proof {
            assert(self.samples@.take(0) =~= Seq::<Temp>::empty());
        }
        while idx < n
            invariant
                0 <= idx <= n,
                n == self.samples@.len(),
                self.wf(),
                total as int == sum_spec(self.samples@.take(idx as int)),
                -(idx as int) * (TEMP_LIMIT_MILLI as int) <= total as int <= (idx as int) * (
                TEMP_LIMIT_MILLI as int),
            decreases n - idx,
        {
            proof {
                assert(self.samples@.take(idx as int + 1).drop_last() =~= self.samples@.take(
                    idx as int,
                ));
                assert((idx as int + 1) * (TEMP_LIMIT_MILLI as int) == (idx as int) * (
                TEMP_LIMIT_MILLI as int) + TEMP_LIMIT_MILLI as int) by (nonlinear_arith);
            }
            total = total + self.samples[idx];
            idx += 1;
        }
        proof {
            assert(self.samples@.take(n as int) =~= self.samples@);
            assert((n as int) * (TEMP_LIMIT_MILLI as int) <= (WINDOW_CAPACITY_LIMIT as int) * (
            TEMP_LIMIT_MILLI as int)) by (nonlinear_arith)
                requires
                    1 <= n <= WINDOW_CAPACITY_LIMIT,
            ;
        }
        let mean: i64 = if total >= 0 {
            (((total as u64) / (n as u64)) as i64)
        } else {
            let pos: u64 = (-total) as u64;
            -((pos / (n as u64)) as i64)
        };
        proof {
            lemma_mean_in_bounds(sum_spec(self.samples@), n as int);
        }
        Some(mean)
    }
}

/// The mean of bounded samples is itself bounded.
proof fn lemma_mean_in_bounds(total: int, count: int)
    requires
        count >= 1,
        -count * (TEMP_LIMIT_MILLI as int) <= total <= count * (TEMP_LIMIT_MILLI as int),
    ensures
        temp_in_bounds(mean_spec(total, count)),
        total >= 0 ==> 0 <= mean_spec(total, count) <= total,
        total < 0 ==> total <= mean_spec(total, count) <= 0,
{
    if total >= 0 {
        vstd::arithmetic::div_mod::lemma_div_pos_is_pos(total, count);
        vstd::arithmetic::div_mod::lemma_div_nonincreasing(total, count);
        assert(total <= count * (TEMP_LIMIT_MILLI as int));
        vstd::arithmetic::div_mod::lemma_div_is_ordered(
            total,
            count * (TEMP_LIMIT_MILLI as int),
            count,
        );
        vstd::arithmetic::div_mod::lemma_div_multiples_vanish(TEMP_LIMIT_MILLI as int, count);
    } else {
        vstd::arithmetic::div_mod::lemma_div_pos_is_pos(-total, count);
        vstd::arithmetic::div_mod::lemma_div_nonincreasing(-total, count);
        vstd::arithmetic::div_mod::lemma_div_is_ordered(
            -total,
            count * (TEMP_LIMIT_MILLI as int),
            count,
        );
        vstd::arithmetic::div_mod::lemma_div_multiples_vanish(TEMP_LIMIT_MILLI as int, count);
    }
}

} // verus!
