//! Speed and time left of a long copy, from the last few readings of how far
//! it has come.

use vstd::prelude::*;
use vstd::arithmetic::div_mod::lemma_div_nonincreasing;
use vstd::arithmetic::mul::lemma_mul_inequality;

verus! {

/// The number of samples that an estimator keeps.
pub const MAX_SAMPLES: usize = 50;

/// Microseconds in a second.
pub const USEC_PER_SEC: u64 = 1_000_000;

/// How far the copy had come at one moment.
#[derive(Debug, Default, Clone, Copy, PartialEq, Eq, Structural)]
pub struct Sample {
    /// The moment, in microseconds.
    pub time_usec: u64,
    /// The bytes completed by then.
    pub value: u64,
}

/// The speed between two samples, in whole bytes per second. A pair that
/// spans no time, or in which the count went down, has speed 0.
pub open spec fn speed_between(earlier: Sample, later: Sample) -> nat {
    if later.time_usec > earlier.time_usec && later.value >= earlier.value {
        ((later.value - earlier.value) * USEC_PER_SEC / (later.time_usec
            - earlier.time_usec)) as nat
    } else {
        0
    }
}

/// The sum of the speeds between each sample and the next.
pub open spec fn speed_sum(samples: Seq<Sample>) -> nat
    decreases samples.len(),
{
    if samples.len() < 2 {
        0
    } else {
        speed_sum(samples.drop_last()) + speed_between(
            samples[samples.len() - 2],
            samples.last(),
        )
    }
}

/// `n`, or the largest `u64` where `n` is larger.
pub open spec fn clamped(n: nat) -> u64 {
    if n > u64::MAX {
        u64::MAX
    } else {
        n as u64
    }
}

/// The mean of the speeds between each sample and the next, in bytes per
/// second; 0 with fewer than two samples.
pub open spec fn mean_speed(samples: Seq<Sample>) -> u64 {
    if samples.len() < 2 {
        0
    } else {
        clamped(speed_sum(samples) / ((samples.len() - 1) as nat))
    }
}

/// The microseconds that the rest of `target` takes at `bytes_per_sec`; 0
/// where the speed is 0 or nothing is left.
pub open spec fn time_left(target: u64, completed: u64, bytes_per_sec: u64) -> u64 {
    if bytes_per_sec == 0 || completed >= target {
        0
    } else {
        clamped(((target - completed) * USEC_PER_SEC / (bytes_per_sec as int)) as nat)
    }
}

/// `samples` with `sample` at the end, the oldest one dropped where the
/// window was full.
pub open spec fn pushed(samples: Seq<Sample>, sample: Sample) -> Seq<Sample> {
    if samples.len() >= MAX_SAMPLES {
        samples.drop_first().push(sample)
    } else {
        samples.push(sample)
    }
}

/// A copy that runs at one speed is measured at that speed: where the speed
/// between each sample and the next is `speed`, so is the mean.
pub proof fn lemma_steady_speed(samples: Seq<Sample>, speed: nat)
    requires
        samples.len() >= 2,
        forall|k: int|
            0 <= k < samples.len() - 1 ==> #[trigger] speed_between(samples[k], samples[k + 1])
                == speed,
    ensures
        speed_sum(samples) == (samples.len() - 1) * speed,
        mean_speed(samples) == clamped(speed),
    decreases samples.len(),
{
    let pairs = (samples.len() - 1) as int;
    let front = samples.drop_last();
    let last = pairs - 1;
    assert(speed_between(samples[last], samples[last + 1]) == speed);
    if samples.len() > 2 {
        assert forall|k: int| 0 <= k < front.len() - 1 implies #[trigger] speed_between(
            front[k],
            front[k + 1],
        ) == speed by {
            assert(speed_between(samples[k], samples[k + 1]) == speed);
        }
        lemma_steady_speed(front, speed);
        assert((pairs - 1) * speed + speed == pairs * speed) by (nonlinear_arith);
    } else {
        assert(speed_sum(front) == 0);
        assert(1 * speed == speed) by (nonlinear_arith);
    }
    assert(speed_sum(samples) == pairs * speed);
    assert((pairs * speed) / pairs == speed) by (nonlinear_arith)
        requires
            pairs > 0,
            speed >= 0,
    ;
}

/// The mean speed is no higher than the highest speed between two samples
/// that follow each other.
pub proof fn lemma_mean_below_highest(samples: Seq<Sample>, highest: nat)
    requires
        forall|k: int|
            0 <= k < samples.len() - 1 ==> #[trigger] speed_between(samples[k], samples[k + 1])
                <= highest,
    ensures
        speed_sum(samples) <= (samples.len() - 1) * highest || samples.len() < 2,
        mean_speed(samples) <= highest,
    decreases samples.len(),
{
    if samples.len() >= 2 {
        let pairs = (samples.len() - 1) as int;
        let front = samples.drop_last();
        let last = pairs - 1;
        assert(speed_between(samples[last], samples[last + 1]) <= highest);
        assert forall|k: int| 0 <= k < front.len() - 1 implies #[trigger] speed_between(
            front[k],
            front[k + 1],
        ) <= highest by {
            assert(speed_between(samples[k], samples[k + 1]) <= highest);
        }
        lemma_mean_below_highest(front, highest);
        assert((pairs - 1) * highest + highest == pairs * highest) by (nonlinear_arith);
        assert(speed_sum(samples) <= pairs * highest);
        assert(speed_sum(samples) as int / pairs <= highest) by (nonlinear_arith)
            requires
                pairs > 0,
                speed_sum(samples) <= pairs * highest,
        ;
    }
}

/// What an estimator holds: the bytes to copy, the bytes copied, and the
/// window of samples. Speed and time left follow from these.
pub struct EstimatorView {
    pub target_bytes: u64,
    pub completed_bytes: u64,
    pub samples: Seq<Sample>,
}

impl EstimatorView {
    /// The speed, in bytes per second.
    pub open spec fn bytes_per_sec(self) -> u64 {
        mean_speed(self.samples)
    }

    /// The time left, in microseconds.
    pub open spec fn usec_remaining(self) -> u64 {
        time_left(self.target_bytes, self.completed_bytes, self.bytes_per_sec())
    }

    /// Whether a reading of `completed_bytes` is taken in: one that is not
    /// below the count held. Progress does not go back; a reading that says
    /// so is passed over.
    pub open spec fn admits(self, completed_bytes: u64) -> bool {
        completed_bytes >= self.completed_bytes
    }

    /// The estimator after `sample` has gone into the window.
    pub open spec fn recorded(self, sample: Sample) -> EstimatorView {
        EstimatorView {
            target_bytes: self.target_bytes,
            completed_bytes: sample.value,
            samples: pushed(self.samples, sample),
        }
    }

    /// The estimator after a reading of `completed_bytes` at `time_usec`.
    pub open spec fn sampled(self, time_usec: u64, completed_bytes: u64) -> EstimatorView {
        if self.admits(completed_bytes) {
            self.recorded(Sample { time_usec, value: completed_bytes })
        } else {
            self
        }
    }
}

/// An estimator for `target_bytes` that has seen nothing yet.
pub open spec fn unfed(target_bytes: u64) -> EstimatorView {
    EstimatorView { target_bytes, completed_bytes: 0, samples: Seq::empty() }
}

/// The estimator after each of `readings` has been given to it in turn.
pub open spec fn fed(start: EstimatorView, readings: Seq<Sample>) -> EstimatorView
    decreases readings.len(),
{
    if readings.len() == 0 {
        start
    } else {
        fed(start, readings.drop_last()).sampled(readings.last().time_usec, readings.last().value)
    }
}

/// The last `MAX_SAMPLES` of `readings`, or all of them where they are fewer.
pub open spec fn latest(readings: Seq<Sample>) -> Seq<Sample> {
    if readings.len() > MAX_SAMPLES {
        readings.skip(readings.len() - MAX_SAMPLES)
    } else {
        readings
    }
}

/// Of readings whose counts never go back, a new estimator takes in every
/// one: its window holds the latest of them in the order in which they came,
/// the oldest having left first, and the count it holds is the last one.
pub proof fn lemma_fed_growing(target_bytes: u64, readings: Seq<Sample>)
    requires
        forall|i: int, j: int|
            0 <= i <= j < readings.len() ==> (#[trigger] readings[i]).value <= (
            #[trigger] readings[j]).value,
    ensures
        fed(unfed(target_bytes), readings).samples == latest(readings),
        fed(unfed(target_bytes), readings).samples.len() <= MAX_SAMPLES,
        fed(unfed(target_bytes), readings).target_bytes == target_bytes,
        fed(unfed(target_bytes), readings).completed_bytes == if readings.len() == 0 {
            0
        } else {
            readings.last().value
        },
    decreases readings.len(),
{
    if readings.len() > 0 {
        let front = readings.drop_last();
        let newest = readings.last();
        assert forall|i: int, j: int| 0 <= i <= j < front.len() implies (#[trigger] front[i]).value
            <= (#[trigger] front[j]).value by {
            assert(readings[i].value <= readings[j].value);
        }
        lemma_fed_growing(target_bytes, front);
        let before = fed(unfed(target_bytes), front);
        if front.len() > 0 {
            assert(readings[front.len() - 1].value <= readings[readings.len() - 1].value);
            assert(front.last() == readings[front.len() - 1]);
        }
        assert(before.admits(newest.value));
        assert(fed(unfed(target_bytes), readings) == before.recorded(newest));
        if front.len() > MAX_SAMPLES {
            let from = front.len() - MAX_SAMPLES;
            assert(front.skip(from).drop_first().push(newest) == readings.skip(from + 1));
        } else if front.len() == MAX_SAMPLES {
            assert(front.drop_first().push(newest) == readings.skip(1));
        } else {
            assert(front.push(newest) == readings);
        }
    }
}

/// One consistent reading of an estimator.
#[derive(Debug, Clone, Copy, PartialEq, Eq, Structural)]
pub struct Reading {
    pub target_bytes: u64,
    pub completed_bytes: u64,
    pub bytes_per_sec: u64,
    pub usec_remaining: u64,
}

/// Estimates speed and time left from a sliding window of samples.
#[derive(Debug)]
pub struct Estimator {
    target_bytes: u64,
    completed_bytes: u64,
    bytes_per_sec: u64,
    usec_remaining: u64,
    samples: Vec<Sample>,
}

/// The estimator under the name that it has as an object of the toolkit.
pub type GduEstimator = Estimator;

impl View for Estimator {
    type V = EstimatorView;

    closed spec fn view(&self) -> EstimatorView {
        EstimatorView {
            target_bytes: self.target_bytes,
            completed_bytes: self.completed_bytes,
            samples: self.samples@,
        }
    }
}

/// Each sample of `samples` paired with the one after it.
///
/// Calls `itertools::Itertools::tuple_windows` on the samples, which yields
/// every window of two neighbours, from the front; the claim is that pair
/// `i` is made of samples `i` and `i + 1`, and that there is one pair less
/// than there are samples.
#[verifier::external_body]
fn neighbours(samples: &Vec<Sample>) -> (pairs: Vec<(Sample, Sample)>)
    ensures
        pairs@.len() == if samples@.len() == 0 {
            0
        } else {
            samples@.len() - 1
        },
        forall|i: int|
            0 <= i < pairs@.len() ==> #[trigger] pairs@[i] == (samples@[i], samples@[i + 1]),
{
    itertools::Itertools::tuple_windows::<(Sample, Sample)>(samples.iter().copied()).collect()
}

/// The time now, in microseconds since 1970.
///
/// Calls `std::time::SystemTime::now` and counts the microseconds from the
/// epoch to it, 0 for a clock that stands before the epoch. Nothing is
/// claimed of the result.
#[verifier::external_body]
fn now_usec() -> u64 {
    match std::time::SystemTime::now().duration_since(std::time::UNIX_EPOCH) {
        Ok(since) => since.as_micros() as u64,
        Err(_) => 0,
    }
}

/// The mean speed over a window of samples.
fn mean_of(samples: &Vec<Sample>) -> (mean: u64)
    requires
        samples@.len() <= MAX_SAMPLES,
    ensures
        mean == mean_speed(samples@),
{
    let pairs = neighbours(samples);
    if pairs.len() == 0 {
        return 0;
    }
    let ghost limit: int = 0x1_0000_0000_0000_0000int * 1_000_000int;
    let mut sum: u128 = 0;
    let mut i: usize = 0;
    assert(samples@.take(1).len() < 2);
    while i < pairs.len()
        invariant
            i <= pairs@.len(),
            pairs@.len() == samples@.len() - 1,
            samples@.len() <= MAX_SAMPLES,
            limit == 0x1_0000_0000_0000_0000 * 1_000_000,
            forall|k: int|
                0 <= k < pairs@.len() ==> #[trigger] pairs@[k] == (samples@[k], samples@[k + 1]),
            sum == speed_sum(samples@.take(i + 1)),
            sum <= i * limit,
        decreases pairs.len() - i,
    {
        let (earlier, later) = pairs[i];
        assert(pairs@[i as int] == (samples@[i as int], samples@[i + 1]));
        let speed: u128 = if later.time_usec > earlier.time_usec && later.value >= earlier.value {
            let bytes: u128 = (later.value - earlier.value) as u128;
            let usec: u128 = (later.time_usec - earlier.time_usec) as u128;
            proof {
                lemma_mul_inequality(bytes as int, 0x1_0000_0000_0000_0000, 1_000_000);
                lemma_div_nonincreasing(bytes as int * 1_000_000, usec as int);
            }
            bytes * 1_000_000 / usec
        } else {
            0
        };
        proof {
            let longer = samples@.take(i + 2);
            assert(longer.drop_last() == samples@.take(i + 1));
            assert(longer[longer.len() - 2] == samples@[i as int]);
            assert(longer.last() == samples@[i + 1]);
            assert(speed == speed_between(earlier, later));
            assert((i + 1) * limit == i * limit + limit) by (nonlinear_arith);
            assert(i * limit <= 49 * limit) by (nonlinear_arith)
                requires
                    i <= 49,
                    limit >= 0,
            ;
        }
        sum = sum + speed;
        i += 1;
    }
    assert(samples@.take(i + 1) == samples@);
    let mean: u128 = sum / (pairs.len() as u128);
    if mean > u64::MAX as u128 {
        u64::MAX
    } else {
        mean as u64
    }
}

/// The time that the rest takes.
fn time_left_of(target: u64, completed: u64, bytes_per_sec: u64) -> (usec: u64)
    ensures
        usec == time_left(target, completed, bytes_per_sec),
{
    if bytes_per_sec == 0 || completed >= target {
        return 0;
    }
    let left: u128 = (target - completed) as u128;
    proof {
        lemma_mul_inequality(left as int, 0x1_0000_0000_0000_0000, 1_000_000);
    }
    let usec: u128 = left * 1_000_000 / (bytes_per_sec as u128);
    if usec > u64::MAX as u128 {
        u64::MAX
    } else {
        usec as u64
    }
}

impl Estimator {
    /// What holds of every estimator: the window is not over its size, and
    /// speed and time left are those of the window.
    pub closed spec fn wf(&self) -> bool {
        &&& self.samples@.len() <= MAX_SAMPLES
        &&& self.bytes_per_sec == self@.bytes_per_sec()
        &&& self.usec_remaining == self@.usec_remaining()
    }

    /// The window of an estimator is never over its size.
    pub proof fn lemma_window_fits(&self)
        requires
            self.wf(),
        ensures
            self@.samples.len() <= MAX_SAMPLES,
    {
    }

    /// An estimator for a copy of `target_bytes`, with no samples yet.
    pub fn new(target_bytes: u64) -> (estimator: Estimator)
        ensures
            estimator.wf(),
            estimator@.target_bytes == target_bytes,
            estimator@.completed_bytes == 0,
            estimator@.samples == Seq::<Sample>::empty(),
    {
        Estimator {
            target_bytes,
            completed_bytes: 0,
            bytes_per_sec: 0,
            usec_remaining: 0,
            samples: Vec::new(),
        }
    }

    /// The bytes to copy.
    pub fn target_bytes(&self) -> (bytes: u64)
        ensures
            bytes == self@.target_bytes,
    {
        self.target_bytes
    }

    /// The bytes copied, by the last sample taken in.
    pub fn completed_bytes(&self) -> (bytes: u64)
        ensures
            bytes == self@.completed_bytes,
    {
        self.completed_bytes
    }

    /// The speed, in bytes per second: the mean of the speeds between each
    /// sample of the window and the next.
    pub fn bytes_per_sec(&self) -> (speed: u64)
        requires
            self.wf(),
        ensures
            speed == self@.bytes_per_sec(),
            self@.samples.len() < 2 ==> speed == 0,
    {
        self.bytes_per_sec
    }

    /// The time left, in microseconds, at the present speed.
    pub fn usec_remaining(&self) -> (usec: u64)
        requires
            self.wf(),
        ensures
            usec == self@.usec_remaining(),
            self@.samples.len() < 2 || self@.bytes_per_sec() == 0 ==> usec == 0,
    {
        self.usec_remaining
    }

    /// The number of samples in the window.
    pub fn sample_count(&self) -> (count: usize)
        requires
            self.wf(),
        ensures
            count == self@.samples.len(),
            count <= MAX_SAMPLES,
    {
        self.samples.len()
    }

    /// Speed, time left and counts, read together.
    pub fn reading(&self) -> (reading: Reading)
        requires
            self.wf(),
        ensures
            reading == (Reading {
                target_bytes: self@.target_bytes,
                completed_bytes: self@.completed_bytes,
                bytes_per_sec: self@.bytes_per_sec(),
                usec_remaining: self@.usec_remaining(),
            }),
    {
        Reading {
            target_bytes: self.target_bytes,
            completed_bytes: self.completed_bytes,
            bytes_per_sec: self.bytes_per_sec,
            usec_remaining: self.usec_remaining,
        }
    }

    /// Whether a reading of `completed_bytes` would be taken in: every count
    /// is that is not below the one held, so each reading of a copy that
    /// goes on or stands still, from the first count of 0 on. A count below
    /// the one held is passed over. [`Estimator::record`] puts a sample into
    /// the window whatever it holds.
    pub fn admits(&self, completed_bytes: u64) -> (taken: bool)
        ensures
            taken == self@.admits(completed_bytes),
            taken == (completed_bytes >= self@.completed_bytes),
    {
        completed_bytes >= self.completed_bytes
    }

    /// Puts `sample` into the window, whatever it holds, and works out speed
    /// and time left anew. A full window loses its oldest sample first.
    pub fn record(&mut self, sample: Sample)
        requires
            old(self).wf(),
        ensures
            final(self).wf(),
            final(self)@ == old(self)@.recorded(sample),
            final(self)@.samples.len() <= MAX_SAMPLES,
            final(self)@.samples.last() == sample,
    {
        if self.samples.len() == MAX_SAMPLES {
            self.samples.remove(0);
            assert(self.samples@ == old(self).samples@.drop_first());
        }
        self.samples.push(sample);
        self.completed_bytes = sample.value;
        self.update();
    }

    /// Works out speed and time left from the window.
    fn update(&mut self)
        requires
            old(self).samples@.len() <= MAX_SAMPLES,
        ensures
            final(self).wf(),
            final(self)@ == old(self)@,
    {
        self.bytes_per_sec = mean_of(&self.samples);
        self.usec_remaining = time_left_of(
            self.target_bytes,
            self.completed_bytes,
            self.bytes_per_sec,
        );
    }

    /// Takes a reading of `completed_bytes` at `time_usec`. A count that is
    /// not below the one held goes into the window as a sample, a full
    /// window losing its oldest sample first, and becomes the count held;
    /// speed and time left are worked out anew. A count below the one held
    /// changes nothing.
    pub fn add_sample_at(&mut self, time_usec: u64, completed_bytes: u64)
        requires
            old(self).wf(),
        ensures
            final(self).wf(),
            final(self)@ == old(self)@.sampled(time_usec, completed_bytes),
            completed_bytes >= old(self)@.completed_bytes ==> final(self)@ == old(self)@.recorded(
                Sample { time_usec, value: completed_bytes },
            ),
            completed_bytes < old(self)@.completed_bytes ==> final(self)@ == old(self)@,
            final(self)@.samples.len() <= MAX_SAMPLES,
    {
        proof {
            old(self).lemma_window_fits();
        }
        if !self.admits(completed_bytes) {
            return ;
        }
        self.record(Sample { time_usec, value: completed_bytes });
    }

    /// Takes a reading of `completed_bytes` at the present time; see
    /// [`Estimator::add_sample_at`].
    pub fn add_sample(&mut self, completed_bytes: u64)
        requires
            old(self).wf(),
        ensures
            final(self).wf(),
            exists|time_usec: u64|
                final(self)@ == #[trigger] old(self)@.sampled(time_usec, completed_bytes),
            completed_bytes >= old(self)@.completed_bytes ==> final(self)@.completed_bytes
                == completed_bytes && final(self)@.samples.last().value == completed_bytes,
            completed_bytes < old(self)@.completed_bytes ==> final(self)@ == old(self)@,
            final(self)@.target_bytes == old(self)@.target_bytes,
            final(self)@.samples.len() <= MAX_SAMPLES,
    {
        let now = now_usec();
        self.add_sample_at(now, completed_bytes);
    }
}

} // verus!
