//! Two-phase search for an integer parameter that minimises a measured
//! duration.
//!
//! Phase one doubles the candidate as long as each new measurement beats
//! the best one seen. Phase two bisects between the last accepted value
//! and half of it. The search is a state machine: `next_probe` names the
//! parameter value to measure, `observe` feeds the measured duration back.
//! A driver that owns the measured operation loops between the two.

use vstd::prelude::*;

verus! {

/// Where the search stands.
pub enum TunerPhase {
    /// Growing: `current` is the next candidate, twice the best value.
    Doubling { current: usize },
    /// Bisecting inside `[low, high]`; done once `high - low <= 1`.
    Bisecting { low: usize, high: usize },
}

/// The state of one two-phase search: the best parameter value measured so
/// far, its duration in nanoseconds, and the phase.
pub struct Tuner {
    pub best_value: usize,
    pub best_duration: u64,
    pub phase: TunerPhase,
}

/// The midpoint probed inside a bracket.
pub open spec fn spec_mid(low: usize, high: usize) -> usize
    recommends
        low <= high,
{
    (low + (high - low) / 2) as usize
}

impl Tuner {
    /// The state shape every reachable search state has.
    pub open spec fn wf(self) -> bool {
        &&& self.best_value >= 1
        &&& match self.phase {
            TunerPhase::Doubling { current } => self.best_value <= usize::MAX / 2 && current
                == 2 * self.best_value,
            TunerPhase::Bisecting { low, high } => low <= high && high == self.best_value,
        }
    }

    /// The parameter value to measure next, `None` once the search is over.
    pub open spec fn spec_next_probe(self) -> Option<usize> {
        match self.phase {
            TunerPhase::Doubling { current } => Some(current),
            TunerPhase::Bisecting { low, high } => if high - low > 1 {
                Some(spec_mid(low, high))
            } else {
                None
            },
        }
    }

    /// How the state moves when the probe's measured duration comes back.
    pub open spec fn spec_observe(self, d: u64) -> Tuner {
        if self.spec_next_probe() is None {
            self
        } else {
            match self.phase {
                TunerPhase::Doubling { current } => if d < self.best_duration {
                    if current <= usize::MAX / 2 {
                        Tuner {
                            best_value: current,
                            best_duration: d,
                            phase: TunerPhase::Doubling { current: (2 * current) as usize },
                        }
                    } else {
                        Tuner {
                            best_value: current,
                            best_duration: d,
                            phase: TunerPhase::Bisecting {
                                low: (current / 2) as usize,
                                high: current,
                            },
                        }
                    }
                } else {
                    Tuner {
                        best_value: self.best_value,
                        best_duration: self.best_duration,
                        phase: TunerPhase::Bisecting {
                            low: (self.best_value / 2) as usize,
                            high: self.best_value,
                        },
                    }
                },
                TunerPhase::Bisecting { low, high } => {
                    let m = spec_mid(low, high);
                    if d < self.best_duration {
                        Tuner {
                            best_value: m,
                            best_duration: d,
                            phase: TunerPhase::Bisecting { low, high: m },
                        }
                    } else {
                        Tuner {
                            best_value: self.best_value,
                            best_duration: self.best_duration,
                            phase: TunerPhase::Bisecting { low: m, high },
                        }
                    }
                },
            }
        }
    }

    /// A search that has measured its initial guess and nothing else.
    pub fn start(initial: usize, first_duration: u64) -> (t: Tuner)
        requires
            1 <= initial <= usize::MAX / 2,
        ensures
            t == tuner_start(initial, first_duration),
            t.wf(),
    {
        Tuner {
            best_value: initial,
            best_duration: first_duration,
            phase: TunerPhase::Doubling { current: 2 * initial },
        }
    }

    /// Whether another measurement is wanted.
    pub fn has_probe(&self) -> (r: bool)
        requires
            self.wf(),
        ensures
            r == (self.spec_next_probe() is Some),
    {
        match self.phase {
            TunerPhase::Doubling { current: _ } => true,
            TunerPhase::Bisecting { low, high } => high - low > 1,
        }
    }

    /// The parameter value to measure next.
    pub fn next_probe_value(&self) -> (v: usize)
        requires
            self.wf(),
            self.spec_next_probe() is Some,
        ensures
            self.spec_next_probe() == Some(v),
    {
        match self.phase {
            TunerPhase::Doubling { current } => current,
            TunerPhase::Bisecting { low, high } => low + (high - low) / 2,
        }
    }

    /// Feed back the duration measured for the probed value. The best
    /// observed duration never grows, and the best value moves exactly when
    /// the probe improved on it.
    pub fn observe(&mut self, d: u64)
        requires
            old(self).wf(),
            old(self).spec_next_probe() is Some,
        ensures
            *final(self) == old(self).spec_observe(d),
            final(self).wf(),
            final(self).best_duration <= old(self).best_duration,
            d < old(self).best_duration ==> (final(self).best_duration == d
                && old(self).spec_next_probe() == Some(final(self).best_value)),
            d >= old(self).best_duration ==> (final(self).best_duration
                == old(self).best_duration && final(self).best_value == old(self).best_value),
    {
        match self.phase {
            TunerPhase::Doubling { current } => {
                if d < self.best_duration {
                    if current <= usize::MAX / 2 {
                        self.best_value = current;
                        self.best_duration = d;
                        self.phase = TunerPhase::Doubling { current: 2 * current };
                    } else {
                        self.best_value = current;
                        self.best_duration = d;
                        self.phase = TunerPhase::Bisecting { low: current / 2, high: current };
                    }
                } else {
                    self.phase = TunerPhase::Bisecting {
                        low: self.best_value / 2,
                        high: self.best_value,
                    };
                }
            },
            TunerPhase::Bisecting { low, high } => {
                let m = low + (high - low) / 2;
                if d < self.best_duration {
                    self.best_value = m;
                    self.best_duration = d;
                    self.phase = TunerPhase::Bisecting { low, high: m };
                } else {
                    self.phase = TunerPhase::Bisecting { low: m, high };
                }
            },
        }
    }
}

/// The state after measuring the initial guess alone.
pub open spec fn tuner_start(initial: usize, first_duration: u64) -> Tuner {
    Tuner {
        best_value: initial,
        best_duration: first_duration,
        phase: TunerPhase::Doubling { current: (2 * initial) as usize },
    }
}

/// The state after feeding a whole sequence of measured durations, oldest
/// first, into a search started at `initial`.
pub open spec fn run_tuner(initial: usize, first_duration: u64, ds: Seq<u64>) -> Tuner
    decreases ds.len(),
{
    if ds.len() == 0 {
        tuner_start(initial, first_duration)
    } else {
        run_tuner(initial, first_duration, ds.drop_last()).spec_observe(ds.last())
    }
}

/// Each duration in the trace is one the measured operation could return
/// for the value the search probed at that step.
pub open spec fn consistent_trace<F: Fn(usize) -> u64>(
    f: F,
    initial: usize,
    first_duration: u64,
    ds: Seq<u64>,
) -> bool {
    forall|k: int|
        0 <= k < ds.len() ==> {
            let t = run_tuner(initial, first_duration, #[trigger] ds.take(k));
            &&& t.spec_next_probe() is Some
            &&& call_ensures(f, (t.spec_next_probe()->Some_0,), ds[k])
        }
}

/// The best observed duration is non-increasing through both phases: a
/// longer trace never reports a worse best duration than any of its
/// prefixes.
pub proof fn lemma_best_duration_nonincreasing(
    initial: usize,
    first_duration: u64,
    ds: Seq<u64>,
    i: int,
    j: int,
)
    requires
        0 <= i <= j <= ds.len(),
    ensures
        run_tuner(initial, first_duration, ds.take(j)).best_duration <= run_tuner(
            initial,
            first_duration,
            ds.take(i),
        ).best_duration,
    decreases j - i,
{
    if i < j {
        lemma_best_duration_nonincreasing(initial, first_duration, ds, i, j - 1);
        assert(ds.take(j).drop_last() =~= ds.take(j - 1));
    }
}

/// Search for a parameter value that approximately minimises the duration
/// `measured_function` reports, starting from `initial_optimized_value`:
/// first doubling while measurements improve, afterwards bisecting. The
/// result is exactly what the two-phase state machine computes on the
/// durations actually measured, and those durations are ones the operation
/// could return for the values probed.
pub fn optimize_parameter<F: Fn(usize) -> u64>(
    initial_optimized_value: usize,
    measured_function: F,
) -> (r: usize)
    requires
        1 <= initial_optimized_value <= usize::MAX / 2,
        forall|v: usize| #[trigger] call_requires(measured_function, (v,)),
    ensures
        exists|d0: u64, ds: Seq<u64>|
            #![auto]
            call_ensures(measured_function, (initial_optimized_value,), d0) && consistent_trace(
                measured_function,
                initial_optimized_value,
                d0,
                ds,
            ) && run_tuner(initial_optimized_value, d0, ds).spec_next_probe() is None && r
                == run_tuner(initial_optimized_value, d0, ds).best_value,
{
    let first_duration = measured_function(initial_optimized_value);
    let mut tuner = Tuner::start(initial_optimized_value, first_duration);
    let ghost mut ds = Seq::<u64>::empty();
    while tuner.has_probe()
        invariant
            tuner.wf(),
            tuner == run_tuner(initial_optimized_value, first_duration, ds),
            consistent_trace(measured_function, initial_optimized_value, first_duration, ds),
            call_ensures(measured_function, (initial_optimized_value,), first_duration),
            forall|v: usize| #[trigger] call_requires(measured_function, (v,)),
        decreases phase_rank(tuner), phase_measure(tuner),
    {
        let v = tuner.next_probe_value();
        let d = measured_function(v);
        let ghost pre = tuner;
        tuner.observe(d);
        proof {
            let ds2 = ds.push(d);
            assert(ds2.drop_last() =~= ds);
            assert forall|k: int| 0 <= k < ds2.len() implies {
                let t = run_tuner(initial_optimized_value, first_duration, #[trigger] ds2.take(k));
                &&& t.spec_next_probe() is Some
                &&& call_ensures(measured_function, (t.spec_next_probe()->Some_0,), ds2[k])
            } by {
                assert(ds2.take(k) =~= if k < ds.len() {
                    ds.take(k)
                } else {
                    ds
                });
            }
            ds = ds2;
        }
    }
    tuner.best_value
}

/// The pick after folding a run of measured configurations into a best
/// pair: each configuration replaces the current best exactly when its
/// duration is strictly smaller.
pub open spec fn best_config_from(
    best: (usize, usize),
    best_duration: u64,
    rest: Seq<((usize, usize), u64)>,
) -> ((usize, usize), u64)
    decreases rest,
{
    if rest.len() == 0 {
        (best, best_duration)
    } else if rest[0].1 < best_duration {
        best_config_from(rest[0].0, rest[0].1, rest.drop_first())
    } else {
        best_config_from(best, best_duration, rest.drop_first())
    }
}

/// The pick is at least as fast as every measured configuration.
pub proof fn lemma_best_config_minimal(
    best: (usize, usize),
    best_duration: u64,
    rest: Seq<((usize, usize), u64)>,
    i: int,
)
    requires
        0 <= i < rest.len(),
    ensures
        best_config_from(best, best_duration, rest).1 <= rest[i].1,
        best_config_from(best, best_duration, rest).1 <= best_duration,
    decreases rest,
{
    if i == 0 {
        if rest.len() > 1 {
            if rest[0].1 < best_duration {
                lemma_best_config_minimal(rest[0].0, rest[0].1, rest.drop_first(), 0);
            } else {
                lemma_best_config_minimal(best, best_duration, rest.drop_first(), 0);
            }
        } else {
            assert(rest.drop_first().len() == 0);
            assert(best_config_from(rest[0].0, rest[0].1, rest.drop_first()) == (
                rest[0].0,
                rest[0].1,
            ));
            assert(best_config_from(best, best_duration, rest.drop_first()) == (
                best,
                best_duration,
            ));
        }
    } else {
        if rest[0].1 < best_duration {
            lemma_best_config_minimal(rest[0].0, rest[0].1, rest.drop_first(), i - 1);
        } else {
            lemma_best_config_minimal(best, best_duration, rest.drop_first(), i - 1);
        }
        assert(rest.drop_first()[i - 1] == rest[i]);
    }
}

/// Pick the worker/blocking thread configuration whose measured run was
/// fastest: the first strict improvement wins on ties, and with nothing
/// measured the placeholder pair stays.
pub fn find_best_configuration(measured: &Vec<((usize, usize), u64)>) -> (r: (usize, usize))
    ensures
        r == best_config_from((0, 0), u64::MAX, measured@).0,
{
    let mut best_config: (usize, usize) = (0, 0);
    let mut best_duration: u64 = u64::MAX;
    let n = measured.len();
    let mut i: usize = 0;
    proof {
        assert(measured@.skip(0) =~= measured@);
    }
    while i < n
        invariant
            i <= n,
            n == measured@.len(),
            best_config_from(best_config, best_duration, measured@.skip(i as int))
                == best_config_from((0, 0), u64::MAX, measured@),
        decreases n - i,
    {
        proof {
            assert(measured@.skip(i as int).drop_first() =~= measured@.skip(i as int + 1));
            assert(measured@.skip(i as int)[0] == measured@[i as int]);
        }
        let (config, duration) = measured[i];
        if duration < best_duration {
            best_duration = duration;
            best_config = config;
        }
        i = i + 1;
    }
    proof {
        assert(measured@.skip(n as int) =~= Seq::<((usize, usize), u64)>::empty());
    }
    best_config
}

/// Phase order for termination: doubling comes before bisecting.
pub open spec fn phase_rank(t: Tuner) -> int {
    match t.phase {
        TunerPhase::Doubling { .. } => 1,
        TunerPhase::Bisecting { .. } => 0,
    }
}

/// Within a phase: room left to double, or width of the bracket.
pub open spec fn phase_measure(t: Tuner) -> int {
    match t.phase {
        TunerPhase::Doubling { current } => usize::MAX - current,
        TunerPhase::Bisecting { low, high } => high - low,
    }
}

} // verus!
