//! Round trip times: how long the exchanges of a run took, and what many runs amount to.

use vstd::arithmetic::mul::lemma_mul_inequality;
use vstd::prelude::*;

verus! {

/// How many nanoseconds a second has.
pub const NANOS_PER_SEC: u32 = 1_000_000_000;

/// The longest time that is told apart, in nanoseconds.
pub open spec fn longest_duration() -> nat {
    (u64::MAX * 1_000_000_000 + 999_999_999) as nat
}

/// A length of time in whole nanoseconds.
#[derive(Copy, Clone, Debug)]
pub struct Duration {
    secs: u64,
    nanos: u32,
}

impl View for Duration {
    type V = nat;

    /// The length in nanoseconds.
    closed spec fn view(&self) -> nat {
        (self.secs * 1_000_000_000 + self.nanos) as nat
    }
}

impl Duration {
    #[verifier::type_invariant]
    spec fn less_than_a_second_of_nanos(&self) -> bool {
        self.nanos < 1_000_000_000
    }

    /// So many seconds and nanoseconds; whole seconds among the nanoseconds are carried.
    pub fn new(secs: u64, nanos: u32) -> (duration: Duration)
        requires
            secs * 1_000_000_000 + nanos <= longest_duration(),
        ensures
            duration@ == secs * 1_000_000_000 + nanos,
    {
        let carried: u64 = (nanos / NANOS_PER_SEC) as u64;
        Duration { secs: secs + carried, nanos: nanos % NANOS_PER_SEC }
    }

    /// The whole seconds.
    pub fn as_secs(&self) -> (secs: u64)
        ensures
            secs == self@ / 1_000_000_000,
    {
        proof {
            use_type_invariant(&*self);
        }
        self.secs
    }

    /// The nanoseconds behind the whole seconds.
    pub fn subsec_nanos(&self) -> (nanos: u32)
        ensures
            nanos == self@ % 1_000_000_000,
    {
        proof {
            use_type_invariant(&*self);
        }
        self.nanos
    }

    /// The whole microseconds.
    pub fn as_micros(&self) -> (micros: u128)
        ensures
            micros == self@ / 1_000,
    {
        proof {
            use_type_invariant(&*self);
        }
        self.secs as u128 * 1_000_000 + (self.nanos / 1_000) as u128
    }

    /// Both lengths one after the other; `None` where that is too long to tell.
    pub fn checked_add(&self, other: &Duration) -> (sum: Option<Duration>)
        ensures
            match sum {
                Some(sum) => sum@ == self@ + other@,
                None => self@ + other@ > longest_duration() && self@ + other@
                    > 18_446_744_073_709_551_615 * 1_000_000_000 + 999_999_999,
            },
    {
        proof {
            use_type_invariant(&*self);
            use_type_invariant(&*other);
        }
        let nanos: u32 = self.nanos + other.nanos;
        match self.secs.checked_add(other.secs) {
            None => None,
            Some(secs) => if nanos < NANOS_PER_SEC {
                Some(Duration { secs, nanos })
            } else if secs < u64::MAX {
                Some(Duration { secs: secs + 1, nanos: nanos - NANOS_PER_SEC })
            } else {
                None
            },
        }
    }
}

/// The round trip times of one run.
#[derive(Debug, Copy, Clone)]
pub struct SingleRunStatistics {
    /// Of the exchange that fetches the index.
    pub get_index_rtt: Duration,
    /// Of the exchange that reads the count.
    pub get_count_rtt: Duration,
    /// Of the exchange that increments the count.
    pub put_count_rtt: Duration,
    /// Of the exchange that swaps the count.
    pub post_count_rtt: Duration,
}

impl SingleRunStatistics {
    /// The four times together, in nanoseconds.
    pub open spec fn total_nanos(&self) -> nat {
        self.get_index_rtt@ + self.get_count_rtt@ + self.put_count_rtt@ + self.post_count_rtt@
    }

    /// The four times together; `None` where that is too long to tell.
    pub fn checked_total(&self) -> (total: Option<Duration>)
        ensures
            match total {
                Some(total) => total@ == self.total_nanos() && total@ == self.get_index_rtt@
                    + self.get_count_rtt@ + self.put_count_rtt@ + self.post_count_rtt@,
                None => self.total_nanos() > longest_duration() && self.get_index_rtt@
                    + self.get_count_rtt@ + self.put_count_rtt@ + self.post_count_rtt@
                    > 18_446_744_073_709_551_615 * 1_000_000_000 + 999_999_999,
            },
    {
        match self.get_index_rtt.checked_add(&self.get_count_rtt) {
            None => None,
            Some(gets) => match gets.checked_add(&self.put_count_rtt) {
                None => None,
                Some(first_three) => first_three.checked_add(&self.post_count_rtt),
            },
        }
    }

    /// The four times together.
    pub fn total(&self) -> (total: Duration)
        requires
            self.total_nanos() <= longest_duration(),
        ensures
            total@ == self.total_nanos(),
            total@ == self.get_index_rtt@ + self.get_count_rtt@ + self.put_count_rtt@
                + self.post_count_rtt@,
    {
        self.checked_total().unwrap()
    }
}

/// One of the times that are told of a run.
pub enum Metric {
    GetIndex,
    GetCount,
    PutCount,
    PostCount,
    Total,
}

/// A time of one run, in whole microseconds.
pub open spec fn micros_of(run: SingleRunStatistics, metric: Metric) -> nat {
    match metric {
        Metric::GetIndex => run.get_index_rtt@ / 1_000,
        Metric::GetCount => run.get_count_rtt@ / 1_000,
        Metric::PutCount => run.put_count_rtt@ / 1_000,
        Metric::PostCount => run.post_count_rtt@ / 1_000,
        Metric::Total => run.total_nanos() / 1_000,
    }
}

/// A time of each of many runs, in whole microseconds.
pub open spec fn all_micros(runs: Seq<SingleRunStatistics>, metric: Metric) -> Seq<nat> {
    Seq::new(runs.len(), |i: int| micros_of(runs[i], metric))
}

/// The smallest of the values, or the largest number there is where there are none.
pub open spec fn smallest(values: Seq<nat>) -> nat
    decreases values.len(),
{
    if values.len() == 0 {
        u128::MAX as nat
    } else if values.last() < smallest(values.drop_last()) {
        values.last()
    } else {
        smallest(values.drop_last())
    }
}

/// The largest of the values, or zero where there are none.
pub open spec fn largest(values: Seq<nat>) -> nat
    decreases values.len(),
{
    if values.len() == 0 {
        0
    } else if values.last() > largest(values.drop_last()) {
        values.last()
    } else {
        largest(values.drop_last())
    }
}

/// The sum of the values.
pub open spec fn sum(values: Seq<nat>) -> nat
    decreases values.len(),
{
    if values.len() == 0 {
        0
    } else {
        sum(values.drop_last()) + values.last()
    }
}

/// Extremes and sum of one time over many runs, in microseconds. The mean is the sum over
/// the number of runs.
#[derive(Copy, Clone, Debug, PartialEq, Eq, Structural)]
pub struct RttSummary {
    pub min: u128,
    pub max: u128,
    pub total: u128,
}

impl RttSummary {
    /// Whether it tells what the values amount to.
    pub open spec fn describes(self, values: Seq<nat>) -> bool {
        &&& self.min == smallest(values)
        &&& self.max == largest(values)
        &&& self.total == sum(values)
    }

    /// What no value at all amounts to.
    pub fn none() -> (summary: RttSummary)
        ensures
            summary.describes(Seq::empty()),
            summary.min == u128::MAX,
            summary.max == 0,
            summary.total == 0,
    {
        RttSummary { min: u128::MAX, max: u128::MIN, total: 0 }
    }

    /// Takes one more value in.
    fn include_value(&mut self, cur: u128, Ghost(values): Ghost<Seq<nat>>)
        requires
            old(self).describes(values),
            sum(values) + cur <= u128::MAX,
        ensures
            final(self).describes(values.push(cur as nat)),
    {
        assert(values.push(cur as nat).drop_last() =~= values);
        let mut min: u128 = self.min;
        let mut max: u128 = self.max;
        let mut total: u128 = self.total;
        update_stats(cur, &mut min, &mut max, &mut total);
        self.min = min;
        self.max = max;
        self.total = total;
    }
}

/// Takes one more value into a smallest, a largest and a sum.
pub fn update_stats(cur: u128, min: &mut u128, max: &mut u128, mean: &mut u128)
    requires
        *old(mean) + cur <= u128::MAX,
    ensures
        *final(min) == if cur < *old(min) { cur } else { *old(min) },
        *final(max) == if cur > *old(max) { cur } else { *old(max) },
        *final(mean) == *old(mean) + cur,
{
    if cur < *min {
        *min = cur;
    }
    if cur > *max {
        *max = cur;
    }
    *mean = *mean + cur;
}

/// What many runs amount to.
#[derive(Copy, Clone, Debug)]
pub struct RunSummary {
    pub runs: usize,
    pub get_index: RttSummary,
    pub get_count: RttSummary,
    pub put_count: RttSummary,
    pub post_count: RttSummary,
    pub total: RttSummary,
}

impl RunSummary {
    /// Whether it tells what the runs amount to.
    pub open spec fn describes(self, runs: Seq<SingleRunStatistics>) -> bool {
        &&& self.runs == runs.len()
        &&& self.get_index.describes(all_micros(runs, Metric::GetIndex))
        &&& self.get_count.describes(all_micros(runs, Metric::GetCount))
        &&& self.put_count.describes(all_micros(runs, Metric::PutCount))
        &&& self.post_count.describes(all_micros(runs, Metric::PostCount))
        &&& self.total.describes(all_micros(runs, Metric::Total))
    }
}

/// Whether the times of every run can be told together, and those of all runs summed up.
pub open spec fn can_summarize(runs: Seq<SingleRunStatistics>) -> bool {
    &&& forall|i: int| 0 <= i < runs.len() ==> (#[trigger] runs[i]).total_nanos() <= longest_duration()
    &&& sum(all_micros(runs, Metric::Total)) <= u128::MAX
}

proof fn lemma_sums_of_prefixes(runs: Seq<SingleRunStatistics>, n: int, metric: Metric)
    requires
        0 <= n <= runs.len(),
    ensures
        sum(all_micros(runs.take(n), metric)) <= sum(all_micros(runs, Metric::Total)),
    decreases runs.len() - n, n,
{
    if n < runs.len() {
        lemma_sums_of_prefixes(runs, n + 1, metric);
        assert(all_micros(runs.take(n + 1), metric).drop_last() =~= all_micros(
            runs.take(n),
            metric,
        ));
    } else {
        assert(runs.take(n) =~= runs);
        lemma_total_has_largest_sum(runs, metric);
    }
}

proof fn lemma_total_has_largest_sum(runs: Seq<SingleRunStatistics>, metric: Metric)
    ensures
        sum(all_micros(runs, metric)) <= sum(all_micros(runs, Metric::Total)),
    decreases runs.len(),
{
    if runs.len() > 0 {
        lemma_total_has_largest_sum(runs.drop_last(), metric);
        assert(all_micros(runs, metric).drop_last() =~= all_micros(runs.drop_last(), metric));
        assert(all_micros(runs, Metric::Total).drop_last() =~= all_micros(
            runs.drop_last(),
            Metric::Total,
        ));
    }
}

proof fn lemma_next_run(runs: Seq<SingleRunStatistics>, n: int, metric: Metric)
    requires
        0 <= n < runs.len(),
        can_summarize(runs),
    ensures
        all_micros(runs.take(n + 1), metric) == all_micros(runs.take(n), metric).push(
            micros_of(runs[n], metric),
        ),
        sum(all_micros(runs.take(n), metric)) + micros_of(runs[n], metric) <= u128::MAX,
{
    let values = all_micros(runs.take(n), metric);
    assert(all_micros(runs.take(n + 1), metric) =~= values.push(micros_of(runs[n], metric)));
    assert(values.push(micros_of(runs[n], metric)).drop_last() =~= values);
    lemma_sums_of_prefixes(runs, n + 1, metric);
}

/// Sums many runs up.
pub fn summarize(results: &[SingleRunStatistics]) -> (summary: RunSummary)
    requires
        can_summarize(results@),
    ensures
        summary.describes(results@),
        summary.runs == results@.len(),
        summary.get_index.total == sum(
            Seq::new(results@.len(), |i: int| results@[i].get_index_rtt@ / 1_000),
        ),
        summary.get_count.total == sum(
            Seq::new(results@.len(), |i: int| results@[i].get_count_rtt@ / 1_000),
        ),
        summary.put_count.total == sum(
            Seq::new(results@.len(), |i: int| results@[i].put_count_rtt@ / 1_000),
        ),
        summary.post_count.total == sum(
            Seq::new(results@.len(), |i: int| results@[i].post_count_rtt@ / 1_000),
        ),
        summary.total.total == sum(
            Seq::new(
                results@.len(),
                |i: int|
                    (results@[i].get_index_rtt@ + results@[i].get_count_rtt@
                        + results@[i].put_count_rtt@ + results@[i].post_count_rtt@) / 1_000,
            ),
        ),
{
    let mut get_index = RttSummary::none();
    let mut get_count = RttSummary::none();
    let mut put_count = RttSummary::none();
    let mut post_count = RttSummary::none();
    let mut total = RttSummary::none();
    let ghost runs = results@;
    proof {
        assert(all_micros(runs.take(0), Metric::GetIndex) =~= Seq::empty());
        assert(all_micros(runs.take(0), Metric::GetCount) =~= Seq::empty());
        assert(all_micros(runs.take(0), Metric::PutCount) =~= Seq::empty());
        assert(all_micros(runs.take(0), Metric::PostCount) =~= Seq::empty());
        assert(all_micros(runs.take(0), Metric::Total) =~= Seq::empty());
    }
    let mut i: usize = 0;
    while i < results.len()
        invariant
            i <= results@.len(),
            runs == results@,
            can_summarize(runs),
            get_index.describes(all_micros(runs.take(i as int), Metric::GetIndex)),
            get_count.describes(all_micros(runs.take(i as int), Metric::GetCount)),
            put_count.describes(all_micros(runs.take(i as int), Metric::PutCount)),
            post_count.describes(all_micros(runs.take(i as int), Metric::PostCount)),
            total.describes(all_micros(runs.take(i as int), Metric::Total)),
        decreases results@.len() - i,
    {
        let res = results[i];
        let ghost before = runs.take(i as int);
        proof {
            lemma_next_run(runs, i as int, Metric::GetIndex);
            lemma_next_run(runs, i as int, Metric::GetCount);
            lemma_next_run(runs, i as int, Metric::PutCount);
            lemma_next_run(runs, i as int, Metric::PostCount);
            lemma_next_run(runs, i as int, Metric::Total);
            assert(runs[i as int].total_nanos() <= longest_duration());
        }
        get_index.include_value(
            res.get_index_rtt.as_micros(),
            Ghost(all_micros(before, Metric::GetIndex)),
        );
        get_count.include_value(
            res.get_count_rtt.as_micros(),
            Ghost(all_micros(before, Metric::GetCount)),
        );
        put_count.include_value(
            res.put_count_rtt.as_micros(),
            Ghost(all_micros(before, Metric::PutCount)),
        );
        post_count.include_value(
            res.post_count_rtt.as_micros(),
            Ghost(all_micros(before, Metric::PostCount)),
        );
        total.include_value(res.total().as_micros(), Ghost(all_micros(before, Metric::Total)));
        i = i + 1;
    }
    assert(runs.take(i as int) =~= runs);
    let summary = RunSummary {
        runs: results.len(),
        get_index,
        get_count,
        put_count,
        post_count,
        total,
    };
    proof {
        law_sums_of_runs(summary, runs);
    }
    summary
}

/// Law: of one value or more, the smallest and the largest are among them, every value
/// lies between the two, and so does the mean.
pub proof fn law_mean_lies_between(values: Seq<nat>)
    requires
        values.len() > 0,
        forall|i: int| 0 <= i < values.len() ==> #[trigger] values[i] <= u128::MAX,
    ensures
        values.contains(smallest(values)),
        values.contains(largest(values)),
        forall|i: int|
            0 <= i < values.len() ==> smallest(values) <= #[trigger] values[i] <= largest(values),
        smallest(values) * values.len() <= sum(values) <= largest(values) * values.len(),
    decreases values.len(),
{
    let rest = values.drop_last();
    let n = rest.len();
    assert(values[values.len() - 1] == values.last());
    if n > 0 {
        law_mean_lies_between(rest);
        let low = choose|i: int| 0 <= i < rest.len() && rest[i] == smallest(rest);
        let high = choose|i: int| 0 <= i < rest.len() && rest[i] == largest(rest);
        assert(values[low] == smallest(rest));
        assert(values[high] == largest(rest));
        assert forall|i: int| 0 <= i < values.len() implies smallest(values) <= #[trigger] values[i]
            <= largest(values) by {
            if i < n {
                assert(values[i] == rest[i]);
            }
        }
        lemma_mul_inequality(smallest(values) as int, smallest(rest) as int, n as int);
        lemma_mul_inequality(largest(rest) as int, largest(values) as int, n as int);
        assert(smallest(values) * values.len() == smallest(values) * n + smallest(values))
            by (nonlinear_arith)
            requires
                values.len() == n + 1,
        ;
        assert(largest(values) * values.len() == largest(values) * n + largest(values))
            by (nonlinear_arith)
            requires
                values.len() == n + 1,
        ;
    } else {
        assert(rest =~= Seq::empty());
        assert(smallest(values) == values.last() == largest(values));
        assert(values.last() * values.len() == values.last()) by (nonlinear_arith)
            requires
                values.len() == 1,
        ;
    }
}

/// Law: the order of the values plays no part in what they amount to.
pub proof fn law_order_of_values(values: Seq<nat>, others: Seq<nat>)
    requires
        values.to_multiset() == others.to_multiset(),
    ensures
        smallest(values) == smallest(others),
        largest(values) == largest(others),
        sum(values) == sum(others),
        forall|summary: RttSummary|
            #[trigger] summary.describes(values) == summary.describes(others),
    decreases values.len(),
{
    broadcast use vstd::seq_lib::group_to_multiset_ensures;

    assert(values.len() == values.to_multiset().len());
    assert(others.len() == others.to_multiset().len());
    if values.len() > 0 {
        let last = values.len() - 1;
        assert(values.to_multiset().count(values[last]) > 0);
        assert(others.contains(values[last]));
        let i = choose|i: int| 0 <= i < others.len() && others[i] == values[last];
        assert(values.remove(last) =~= values.drop_last());
        law_order_of_values(values.drop_last(), others.remove(i));
        lemma_value_taken_out(others, i);
    }
}

proof fn lemma_value_taken_out(values: Seq<nat>, i: int)
    requires
        0 <= i < values.len(),
    ensures
        ({
            let rest = values.remove(i);
            &&& sum(values) == sum(rest) + values[i]
            &&& smallest(values) == if values[i] < smallest(rest) {
                values[i]
            } else {
                smallest(rest)
            }
            &&& largest(values) == if values[i] > largest(rest) {
                values[i]
            } else {
                largest(rest)
            }
        }),
    decreases values.len(),
{
    if i == values.len() - 1 {
        assert(values.remove(i) =~= values.drop_last());
    } else {
        lemma_value_taken_out(values.drop_last(), i);
        assert(values.remove(i).drop_last() =~= values.drop_last().remove(i));
        assert(values.remove(i).last() == values.last());
    }
}

/// Law: a run takes at least as long as any of its exchanges, in whole microseconds too.
pub proof fn law_total_is_longest(run: SingleRunStatistics, metric: Metric)
    ensures
        micros_of(run, metric) <= micros_of(run, Metric::Total),
{
}

/// Law: what is told of a time is its whole microseconds: the time is at least so many, and
/// less than one more. Each time is told under its own name, and the total is that of all
/// four together.
pub proof fn law_whole_microseconds(run: SingleRunStatistics)
    ensures
        micros_of(run, Metric::GetIndex) * 1_000 <= run.get_index_rtt@ < (micros_of(
            run,
            Metric::GetIndex,
        ) + 1) * 1_000,
        micros_of(run, Metric::GetCount) * 1_000 <= run.get_count_rtt@ < (micros_of(
            run,
            Metric::GetCount,
        ) + 1) * 1_000,
        micros_of(run, Metric::PutCount) * 1_000 <= run.put_count_rtt@ < (micros_of(
            run,
            Metric::PutCount,
        ) + 1) * 1_000,
        micros_of(run, Metric::PostCount) * 1_000 <= run.post_count_rtt@ < (micros_of(
            run,
            Metric::PostCount,
        ) + 1) * 1_000,
        micros_of(run, Metric::Total) * 1_000 <= run.get_index_rtt@ + run.get_count_rtt@
            + run.put_count_rtt@ + run.post_count_rtt@ < (micros_of(run, Metric::Total) + 1)
            * 1_000,
        run.total_nanos() == run.get_index_rtt@ + run.get_count_rtt@ + run.put_count_rtt@
            + run.post_count_rtt@,
{
}

/// Law: sums add up: of no value it is zero, of one value the value, and of values in two
/// parts the sums of the parts together.
pub proof fn law_sums_add_up(values: Seq<nat>, others: Seq<nat>, value: nat)
    ensures
        sum(Seq::empty()) == 0,
        sum(seq![value]) == value,
        sum(values + others) == sum(values) + sum(others),
    decreases others.len(),
{
    assert(seq![value].drop_last() =~= Seq::empty());
    assert(sum(seq![value].drop_last()) == 0);
    if others.len() == 0 {
        assert(values + others =~= values);
    } else {
        law_sums_add_up(values, others.drop_last(), value);
        assert((values + others).drop_last() =~= values + others.drop_last());
    }
}

/// Law: in a summary of runs each sum is that of the whole microseconds of the times with
/// its name, and the number of runs is told.
pub proof fn law_sums_of_runs(summary: RunSummary, runs: Seq<SingleRunStatistics>)
    requires
        summary.describes(runs),
    ensures
        summary.runs == runs.len(),
        summary.get_index.total == sum(
            Seq::new(runs.len(), |i: int| runs[i].get_index_rtt@ / 1_000),
        ),
        summary.get_count.total == sum(
            Seq::new(runs.len(), |i: int| runs[i].get_count_rtt@ / 1_000),
        ),
        summary.put_count.total == sum(
            Seq::new(runs.len(), |i: int| runs[i].put_count_rtt@ / 1_000),
        ),
        summary.post_count.total == sum(
            Seq::new(runs.len(), |i: int| runs[i].post_count_rtt@ / 1_000),
        ),
        summary.total.total == sum(
            Seq::new(
                runs.len(),
                |i: int|
                    (runs[i].get_index_rtt@ + runs[i].get_count_rtt@ + runs[i].put_count_rtt@
                        + runs[i].post_count_rtt@) / 1_000,
            ),
        ),
{
    assert(all_micros(runs, Metric::GetIndex) =~= Seq::new(
        runs.len(),
        |i: int| runs[i].get_index_rtt@ / 1_000,
    ));
    assert(all_micros(runs, Metric::GetCount) =~= Seq::new(
        runs.len(),
        |i: int| runs[i].get_count_rtt@ / 1_000,
    ));
    assert(all_micros(runs, Metric::PutCount) =~= Seq::new(
        runs.len(),
        |i: int| runs[i].put_count_rtt@ / 1_000,
    ));
    assert(all_micros(runs, Metric::PostCount) =~= Seq::new(
        runs.len(),
        |i: int| runs[i].post_count_rtt@ / 1_000,
    ));
    assert(all_micros(runs, Metric::Total) =~= Seq::new(
        runs.len(),
        |i: int|
            (runs[i].get_index_rtt@ + runs[i].get_count_rtt@ + runs[i].put_count_rtt@
                + runs[i].post_count_rtt@) / 1_000,
    ));
}

/// Law: in a summary of runs no time lies below the smallest of its name nor above the
/// largest, both are times of that name, and where there is no run at all they are the
/// largest and the smallest number there is.
#[verifier::rlimit(30)]
pub proof fn law_extremes_of_runs(summary: RunSummary, runs: Seq<SingleRunStatistics>)
    requires
        summary.describes(runs),
    ensures
        forall|i: int|
            #![trigger runs[i]]
            0 <= i < runs.len() ==> {
                &&& summary.get_index.min <= runs[i].get_index_rtt@ / 1_000
                    <= summary.get_index.max
                &&& summary.get_count.min <= runs[i].get_count_rtt@ / 1_000
                    <= summary.get_count.max
                &&& summary.put_count.min <= runs[i].put_count_rtt@ / 1_000
                    <= summary.put_count.max
                &&& summary.post_count.min <= runs[i].post_count_rtt@ / 1_000
                    <= summary.post_count.max
                &&& summary.total.min <= (runs[i].get_index_rtt@ + runs[i].get_count_rtt@
                    + runs[i].put_count_rtt@ + runs[i].post_count_rtt@) / 1_000
                    <= summary.total.max
            },
        runs.len() > 0 ==> {
            &&& exists|i: int|
                0 <= i < runs.len() && (#[trigger] runs[i]).get_index_rtt@ / 1_000
                    == summary.get_index.min
            &&& exists|i: int|
                0 <= i < runs.len() && (#[trigger] runs[i]).get_index_rtt@ / 1_000
                    == summary.get_index.max
            &&& exists|i: int|
                0 <= i < runs.len() && (#[trigger] runs[i]).get_count_rtt@ / 1_000
                    == summary.get_count.min
            &&& exists|i: int|
                0 <= i < runs.len() && (#[trigger] runs[i]).get_count_rtt@ / 1_000
                    == summary.get_count.max
            &&& exists|i: int|
                0 <= i < runs.len() && (#[trigger] runs[i]).put_count_rtt@ / 1_000
                    == summary.put_count.min
            &&& exists|i: int|
                0 <= i < runs.len() && (#[trigger] runs[i]).put_count_rtt@ / 1_000
                    == summary.put_count.max
            &&& exists|i: int|
                0 <= i < runs.len() && (#[trigger] runs[i]).post_count_rtt@ / 1_000
                    == summary.post_count.min
            &&& exists|i: int|
                0 <= i < runs.len() && (#[trigger] runs[i]).post_count_rtt@ / 1_000
                    == summary.post_count.max
            &&& exists|i: int|
                0 <= i < runs.len() && ((#[trigger] runs[i]).get_index_rtt@
                    + runs[i].get_count_rtt@ + runs[i].put_count_rtt@ + runs[i].post_count_rtt@)
                    / 1_000 == summary.total.min
            &&& exists|i: int|
                0 <= i < runs.len() && ((#[trigger] runs[i]).get_index_rtt@
                    + runs[i].get_count_rtt@ + runs[i].put_count_rtt@ + runs[i].post_count_rtt@)
                    / 1_000 == summary.total.max
        },
        runs.len() == 0 ==> {
            &&& summary.get_index.min == summary.get_count.min == summary.put_count.min
                == summary.post_count.min == summary.total.min == u128::MAX
            &&& summary.get_index.max == summary.get_count.max == summary.put_count.max
                == summary.post_count.max == summary.total.max == 0
        },
{
    let get_index = lemma_extremes(runs, Metric::GetIndex);
    let get_count = lemma_extremes(runs, Metric::GetCount);
    let put_count = lemma_extremes(runs, Metric::PutCount);
    let post_count = lemma_extremes(runs, Metric::PostCount);
    let total = lemma_extremes(runs, Metric::Total);
    assert forall|i: int| #![trigger runs[i]] 0 <= i < runs.len() implies {
        &&& summary.get_index.min <= runs[i].get_index_rtt@ / 1_000 <= summary.get_index.max
        &&& summary.get_count.min <= runs[i].get_count_rtt@ / 1_000 <= summary.get_count.max
        &&& summary.put_count.min <= runs[i].put_count_rtt@ / 1_000 <= summary.put_count.max
        &&& summary.post_count.min <= runs[i].post_count_rtt@ / 1_000 <= summary.post_count.max
        &&& summary.total.min <= (runs[i].get_index_rtt@ + runs[i].get_count_rtt@
            + runs[i].put_count_rtt@ + runs[i].post_count_rtt@) / 1_000 <= summary.total.max
    } by {
        assert(all_micros(runs, Metric::GetIndex)[i] == runs[i].get_index_rtt@ / 1_000);
        assert(all_micros(runs, Metric::GetCount)[i] == runs[i].get_count_rtt@ / 1_000);
        assert(all_micros(runs, Metric::PutCount)[i] == runs[i].put_count_rtt@ / 1_000);
        assert(all_micros(runs, Metric::PostCount)[i] == runs[i].post_count_rtt@ / 1_000);
        assert(all_micros(runs, Metric::Total)[i] == runs[i].total_nanos() / 1_000);
    }
    if runs.len() > 0 {
        assert(runs[get_index.0] == runs[get_index.0] && runs[get_index.1] == runs[get_index.1]);
        assert(runs[get_count.0] == runs[get_count.0] && runs[get_count.1] == runs[get_count.1]);
        assert(runs[put_count.0] == runs[put_count.0] && runs[put_count.1] == runs[put_count.1]);
        assert(runs[post_count.0] == runs[post_count.0] && runs[post_count.1]
            == runs[post_count.1]);
        assert(runs[total.0] == runs[total.0] && runs[total.1] == runs[total.1]);
    }
}

/// Where among many runs the smallest and the largest of a time are.
proof fn lemma_extremes(runs: Seq<SingleRunStatistics>, metric: Metric) -> (places: (int, int))
    ensures
        ({
            let values = all_micros(runs, metric);
            &&& forall|i: int|
                0 <= i < runs.len() ==> smallest(values) <= #[trigger] values[i] <= largest(values)
            &&& runs.len() > 0 ==> {
                &&& 0 <= places.0 < runs.len()
                &&& 0 <= places.1 < runs.len()
                &&& micros_of(runs[places.0], metric) == smallest(values)
                &&& micros_of(runs[places.1], metric) == largest(values)
            }
            &&& runs.len() == 0 ==> smallest(values) == u128::MAX && largest(values) == 0
        }),
{
    let values = all_micros(runs, metric);
    if runs.len() > 0 {
        law_mean_lies_between(values);
        let low = choose|i: int| 0 <= i < values.len() && values[i] == smallest(values);
        let high = choose|i: int| 0 <= i < values.len() && values[i] == largest(values);
        (low, high)
    } else {
        (0, 0)
    }
}

/// Law: many runs can be summed up where the four times of each can be told together and
/// the totals of all have a sum that can be held, which is so of fewer than 2^40 runs.
pub proof fn law_runs_can_be_summed_up(runs: Seq<SingleRunStatistics>)
    requires
        forall|i: int|
            #![trigger runs[i]]
            0 <= i < runs.len() ==> runs[i].get_index_rtt@ + runs[i].get_count_rtt@
                + runs[i].put_count_rtt@ + runs[i].post_count_rtt@ <= 18_446_744_073_709_551_615
                * 1_000_000_000 + 999_999_999,
        runs.len() < 0x100_0000_0000 || sum(
            Seq::new(
                runs.len(),
                |i: int|
                    (runs[i].get_index_rtt@ + runs[i].get_count_rtt@ + runs[i].put_count_rtt@
                        + runs[i].post_count_rtt@) / 1_000,
            ),
        ) <= u128::MAX,
    ensures
        can_summarize(runs),
{
    let totals = all_micros(runs, Metric::Total);
    assert(totals =~= Seq::new(
        runs.len(),
        |i: int|
            (runs[i].get_index_rtt@ + runs[i].get_count_rtt@ + runs[i].put_count_rtt@
                + runs[i].post_count_rtt@) / 1_000,
    ));
    assert forall|i: int| 0 <= i < runs.len() implies (#[trigger] runs[i]).total_nanos()
        <= longest_duration() by {}
    if runs.len() < 0x100_0000_0000 {
        let most: nat = 18_446_744_073_709_551_615_999_999;
        assert forall|i: int| 0 <= i < totals.len() implies #[trigger] totals[i] <= most by {
            assert(runs[i].total_nanos() <= longest_duration());
        }
        lemma_sum_is_bounded(totals, most);
        assert(most * totals.len() <= u128::MAX) by (nonlinear_arith)
            requires
                most == 18_446_744_073_709_551_615_999_999,
                totals.len() < 0x100_0000_0000,
        ;
    }
}

proof fn lemma_sum_is_bounded(values: Seq<nat>, most: nat)
    requires
        forall|i: int| 0 <= i < values.len() ==> #[trigger] values[i] <= most,
    ensures
        sum(values) <= most * values.len(),
    decreases values.len(),
{
    if values.len() > 0 {
        let rest = values.drop_last();
        assert forall|i: int| 0 <= i < rest.len() implies #[trigger] rest[i] <= most by {
            assert(rest[i] == values[i]);
        }
        lemma_sum_is_bounded(rest, most);
        assert(values[values.len() - 1] <= most);
        assert(most * values.len() == most * rest.len() + most) by (nonlinear_arith)
            requires
                values.len() == rest.len() + 1,
        ;
    } else {
        assert(most * values.len() == 0) by (nonlinear_arith)
            requires
                values.len() == 0,
        ;
    }
}

} // verus!
