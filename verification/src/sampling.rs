//! The history-sampling policy: which steps of a run are kept.
//!
//! A step is kept when its index is a multiple of the history interval. A step
//! in between is kept when the sign of the radial velocity (non-negative or
//! negative) differs from the sign on record, which is then replaced. The sign
//! on record starts as non-negative and is neither read nor replaced on a step
//! whose index is a multiple of the interval.

use vstd::prelude::*;
use crate::error::ConfigError;

verus! {

/// The sign on record when step `i` is judged, in a run whose steps `0..i`
/// ended with the signs `signs[0..i]` (`true` for a non-negative radial
/// velocity).
pub open spec fn recorded_sign(signs: Seq<bool>, interval: int, i: int) -> bool
    decreases i,
{
    if i <= 0 {
        true
    } else if (i - 1) % interval == 0 {
        recorded_sign(signs, interval, i - 1)
    } else {
        signs[i - 1]
    }
}

/// Whether step `i` is kept.
pub open spec fn is_sampled(signs: Seq<bool>, interval: int, i: int) -> bool {
    i % interval == 0 || signs[i] != recorded_sign(signs, interval, i)
}

/// The indices of the steps that are kept among the first `n`, in the order
/// of the run.
pub open spec fn sampled_steps(signs: Seq<bool>, interval: int, n: int) -> Seq<int>
    decreases n,
{
    if n <= 0 {
        Seq::empty()
    } else if is_sampled(signs, interval, n - 1) {
        sampled_steps(signs, interval, n - 1).push(n - 1)
    } else {
        sampled_steps(signs, interval, n - 1)
    }
}

/// The sampling policy as it runs: it is told the sign after each step and
/// answers whether the step is kept.
#[derive(Debug, Clone, Copy)]
pub struct Sampler {
    history_interval: usize,
    step: usize,
    positive_v: bool,
}

impl Sampler {
    /// The history interval.
    pub closed spec fn interval(&self) -> int {
        self.history_interval as int
    }

    /// The index of the step that is judged next.
    pub closed spec fn next_step(&self) -> int {
        self.step as int
    }

    /// The sign on record.
    pub closed spec fn recorded(&self) -> bool {
        self.positive_v
    }

    /// A sampler is well formed when its interval is positive.
    pub open spec fn wf(&self) -> bool {
        self.interval() >= 1
    }

    /// Whether the next step is kept if it ends with the sign `non_negative`.
    pub open spec fn keeps(&self, non_negative: bool) -> bool {
        self.next_step() % self.interval() == 0 || non_negative != self.recorded()
    }

    /// The sign on record after the next step ended with the sign `non_negative`.
    pub open spec fn records(&self, non_negative: bool) -> bool {
        if self.next_step() % self.interval() == 0 {
            self.recorded()
        } else {
            non_negative
        }
    }

    /// Whether the sampler is in the state that the signs of the steps
    /// `0..signs.len()` lead to.
    pub open spec fn follows(&self, signs: Seq<bool>) -> bool {
        &&& self.wf()
        &&& self.next_step() == signs.len()
        &&& self.recorded() == recorded_sign(signs, self.interval(), signs.len() as int)
    }

    /// A sampler at the start of a run. An interval of zero is rejected.
    pub fn new(history_interval: usize) -> (result: Result<Sampler, ConfigError>)
        ensures
            history_interval == 0 <==> result == Err::<Sampler, ConfigError>(
                ConfigError::ZeroHistoryInterval,
            ),
            history_interval != 0 <==> result is Ok,
            result is Ok ==> result->Ok_0.interval() == history_interval,
            result is Ok ==> result->Ok_0.next_step() == 0,
            result is Ok ==> result->Ok_0.recorded(),
            result is Ok ==> result->Ok_0.follows(Seq::empty()),
    {
        if history_interval == 0 {
            Err(ConfigError::ZeroHistoryInterval)
        } else {
            Ok(Sampler { history_interval, step: 0, positive_v: true })
        }
    }

    /// The history interval.
    pub fn history_interval(&self) -> (interval: usize)
        ensures
            interval == self.interval(),
    {
        self.history_interval
    }

    /// The index of the step that is judged next, which is the number of
    /// steps judged so far.
    pub fn step(&self) -> (step: usize)
        ensures
            step == self.next_step(),
    {
        self.step
    }

    /// Whether the sign on record is non-negative.
    pub fn positive_v(&self) -> (sign: bool)
        ensures
            sign == self.recorded(),
    {
        self.positive_v
    }

    /// Judges the next step, which ended with the sign `non_negative`, and
    /// says whether it is kept.
    pub fn observe(&mut self, non_negative: bool) -> (sampled: bool)
        requires
            old(self).wf(),
            old(self).next_step() < usize::MAX,
        ensures
            sampled == old(self).keeps(non_negative),
            final(self).recorded() == old(self).records(non_negative),
            final(self).next_step() == old(self).next_step() + 1,
            final(self).interval() == old(self).interval(),
            final(self).wf(),
    {
        let on_interval = self.step % self.history_interval == 0;
        let sampled = on_interval || (non_negative != self.positive_v);
        if !on_interval {
            self.positive_v = non_negative;
        }
        self.step = self.step + 1;
        sampled
    }
}

/// The step indices in a list, as mathematical integers.
pub open spec fn step_indices(steps: Seq<usize>) -> Seq<int> {
    Seq::new(steps.len(), |j: int| steps[j] as int)
}

/// The steps that are kept in a run of `signs.len()` steps of which step `i`
/// ended with the sign `signs[i]`. An interval of zero is rejected.
pub fn sample_steps(signs: &Vec<bool>, history_interval: usize) -> (result: Result<
    Vec<usize>,
    ConfigError,
>)
    ensures
        history_interval == 0 <==> result == Err::<Vec<usize>, ConfigError>(
            ConfigError::ZeroHistoryInterval,
        ),
        history_interval != 0 <==> result is Ok,
        result is Ok ==> step_indices(result->Ok_0@) == sampled_steps(
            signs@,
            history_interval as int,
            signs@.len() as int,
        ),
{
    let mut sampler = match Sampler::new(history_interval) {
        Ok(sampler) => sampler,
        Err(error) => {
            return Err(error);
        },
    };
    let mut steps: Vec<usize> = Vec::new();
    let mut i: usize = 0;
    while i < signs.len()
        invariant
            i <= signs.len(),
            history_interval != 0,
            sampler.wf(),
            sampler.interval() == history_interval,
            sampler.next_step() == i,
            sampler.recorded() == recorded_sign(signs@, history_interval as int, i as int),
            step_indices(steps@) =~= sampled_steps(signs@, history_interval as int, i as int),
        decreases signs.len() - i,
    {
        let kept = sampler.observe(signs[i]);
        if kept {
            steps.push(i);
        }
        i = i + 1;
    }
    Ok(steps)
}

/// The sign on record when step `i` is judged depends on the signs of the
/// steps before `i` alone.
pub proof fn lemma_recorded_sign_prefix(a: Seq<bool>, b: Seq<bool>, interval: int, i: int)
    requires
        0 <= i <= a.len(),
        i <= b.len(),
        forall|j: int| 0 <= j < i ==> a[j] == b[j],
    ensures
        recorded_sign(a, interval, i) == recorded_sign(b, interval, i),
    decreases i,
{
    if i > 0 {
        lemma_recorded_sign_prefix(a, b, interval, i - 1);
    }
}

/// Which of the first `n` steps are kept depends on the signs of those steps
/// alone.
pub proof fn lemma_sampled_steps_prefix(a: Seq<bool>, b: Seq<bool>, interval: int, n: int)
    requires
        0 <= n <= a.len(),
        n <= b.len(),
        forall|j: int| 0 <= j < n ==> a[j] == b[j],
    ensures
        sampled_steps(a, interval, n) == sampled_steps(b, interval, n),
    decreases n,
{
    if n > 0 {
        lemma_sampled_steps_prefix(a, b, interval, n - 1);
        lemma_recorded_sign_prefix(a, b, interval, n - 1);
    }
}

/// A sampler that has followed a run judges the next step as the policy says
/// of the run with that step added.
pub proof fn lemma_sampler_follows(sampler: Sampler, signs: Seq<bool>, non_negative: bool)
    requires
        sampler.follows(signs),
    ensures
        sampler.keeps(non_negative) == is_sampled(
            signs.push(non_negative),
            sampler.interval(),
            signs.len() as int,
        ),
        sampler.records(non_negative) == recorded_sign(
            signs.push(non_negative),
            sampler.interval(),
            signs.len() as int + 1,
        ),
        sampled_steps(signs.push(non_negative), sampler.interval(), signs.len() as int)
            == sampled_steps(signs, sampler.interval(), signs.len() as int),
{
    let longer = signs.push(non_negative);
    lemma_recorded_sign_prefix(signs, longer, sampler.interval(), signs.len() as int);
    lemma_sampled_steps_prefix(signs, longer, sampler.interval(), signs.len() as int);
}

/// The kept steps among the first `n` are exactly the steps below `n` that
/// the policy keeps.
pub proof fn lemma_sampled_steps_contains(signs: Seq<bool>, interval: int, n: int, i: int)
    ensures
        sampled_steps(signs, interval, n).contains(i) <==> (0 <= i < n && is_sampled(
            signs,
            interval,
            i,
        )),
    decreases n,
{
    if n > 0 {
        lemma_sampled_steps_contains(signs, interval, n - 1, i);
        let before = sampled_steps(signs, interval, n - 1);
        if is_sampled(signs, interval, n - 1) {
            let all = before.push(n - 1);
            if before.contains(i) {
                let j = choose|j: int| 0 <= j < before.len() && before[j] == i;
                assert(all[j] == i);
            }
            if i == n - 1 {
                assert(all[before.len() as int] == i);
            }
            if all.contains(i) {
                let j = choose|j: int| 0 <= j < all.len() && all[j] == i;
                if j < before.len() {
                    assert(before[j] == i);
                }
            }
        }
    }
}

/// The kept steps come in the order of the run, none twice, and each is a
/// step of the run.
pub proof fn lemma_sampled_steps_increasing(signs: Seq<bool>, interval: int, n: int)
    ensures
        sampled_steps(signs, interval, n).len() <= if n > 0 { n } else { 0 },
        forall|a: int| 0 <= a < sampled_steps(signs, interval, n).len() ==> 0 <= (
        #[trigger] sampled_steps(signs, interval, n)[a]) < n,
        forall|a: int, b: int|
            0 <= a < b < sampled_steps(signs, interval, n).len() ==> (#[trigger] sampled_steps(
                signs,
                interval,
                n,
            )[a]) < (#[trigger] sampled_steps(signs, interval, n)[b]),
    decreases n,
{
    if n > 0 {
        lemma_sampled_steps_increasing(signs, interval, n - 1);
    }
}

/// A run of at least one step keeps at least one step, and the first step
/// that it keeps is step 0.
pub proof fn lemma_first_step_sampled(signs: Seq<bool>, interval: int, n: int)
    requires
        interval >= 1,
        n >= 1,
    ensures
        sampled_steps(signs, interval, n).len() >= 1,
        sampled_steps(signs, interval, n)[0] == 0,
    decreases n,
{
    if n > 1 {
        lemma_first_step_sampled(signs, interval, n - 1);
    } else {
        assert(sampled_steps(signs, interval, 0) =~= Seq::empty());
        assert(is_sampled(signs, interval, 0));
    }
}

/// Turning-point coverage: where the sign after step `i + 1` differs from the
/// sign after step `i`, step `i + 1` is kept, or else `i` is a multiple of
/// the interval and step `i` is kept, whatever the interval.
pub proof fn lemma_turning_point_sampled(signs: Seq<bool>, interval: int, n: int, i: int)
    requires
        interval >= 1,
        0 <= i,
        i + 1 < n,
        signs[i] != signs[i + 1],
    ensures
        sampled_steps(signs, interval, n).contains(i + 1) || (i % interval == 0 && sampled_steps(
            signs,
            interval,
            n,
        ).contains(i)),
{
    lemma_sampled_steps_contains(signs, interval, n, i);
    lemma_sampled_steps_contains(signs, interval, n, i + 1);
}

/// With an interval of one every step is kept, once.
pub proof fn lemma_unit_interval_keeps_all(signs: Seq<bool>, n: int)
    requires
        n >= 0,
    ensures
        sampled_steps(signs, 1, n) == Seq::new(n as nat, |j: int| j),
    decreases n,
{
    if n > 0 {
        lemma_unit_interval_keeps_all(signs, n - 1);
        assert(is_sampled(signs, 1, n - 1));
    }
    assert(sampled_steps(signs, 1, n) =~= Seq::new(n as nat, |j: int| j));
}

/// Every step whose index is a multiple of the interval is kept.
pub proof fn lemma_interval_steps_sampled(signs: Seq<bool>, interval: int, n: int, i: int)
    requires
        interval >= 1,
        0 <= i < n,
        i % interval == 0,
    ensures
        sampled_steps(signs, interval, n).contains(i),
{
    lemma_sampled_steps_contains(signs, interval, n, i);
}

/// The time indices of the rows of a run that also keeps the state before
/// the first step, under index 0, and the state after the last step, under
/// index `n`.
pub open spec fn bounded_steps(signs: Seq<bool>, interval: int, n: int) -> Seq<int> {
    (seq![0int] + sampled_steps(signs, interval, n)).push(n)
}

/// A run that keeps its first and last state has at least two rows, the
/// first with index 0 and the last with index `n`, and their indices never
/// decrease.
pub proof fn lemma_bounded_steps_ordered(signs: Seq<bool>, interval: int, n: int)
    requires
        n >= 0,
    ensures
        bounded_steps(signs, interval, n).len() == sampled_steps(signs, interval, n).len() + 2,
        bounded_steps(signs, interval, n).first() == 0,
        bounded_steps(signs, interval, n).last() == n,
        forall|a: int, b: int|
            0 <= a <= b < bounded_steps(signs, interval, n).len() ==> 0 <= (
            #[trigger] bounded_steps(signs, interval, n)[a]) <= (#[trigger] bounded_steps(
                signs,
                interval,
                n,
            )[b]) <= n,
{
    lemma_sampled_steps_increasing(signs, interval, n);
    let inner = sampled_steps(signs, interval, n);
    let rows = bounded_steps(signs, interval, n);
    assert forall|a: int| 0 <= a < rows.len() implies 0 <= #[trigger] rows[a] <= n by {
        if 1 <= a <= inner.len() {
            assert(rows[a] == inner[a - 1]);
        }
    }
    assert forall|a: int, b: int| 0 <= a <= b < rows.len() implies (#[trigger] rows[a]) <= (
    #[trigger] rows[b]) by {
        if 1 <= a && b <= inner.len() {
            assert(rows[a] == inner[a - 1]);
            assert(rows[b] == inner[b - 1]);
        }
    }
}

} // verus!
