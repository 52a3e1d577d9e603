use vstd::prelude::*;

verus! {

/// One unit of work handed out by the scheduler.
///
/// `Worker(n)` works on population slot `n`. `Observer(n)` only counts
/// progress within the round; the slot an observer works on is chosen by
/// fitness-weighted selection at execution time.
#[derive(Clone, Copy, Debug, PartialEq, Eq, Structural)]
pub enum Task {
    Worker(usize),
    Observer(usize),
}

/// A deterministic, cooperatively stoppable cyclic generator of [`Task`]s.
///
/// A round is one `Worker(n)` task per population slot followed by
/// `observers` many `Observer` tasks. Completing a round increments `round`;
/// once a bound set with [`TaskGenerator::max_rounds`] is reached, or
/// [`TaskGenerator::stop`] is called, `next` yields `None` forever.
///
/// Two boundary choices are deliberate:
/// - with `observers == 0` the round completes at the end of the worker
///   sub-cycle, so that bounded runs terminate for every configuration;
/// - `round` never overflows: a generator that completes `usize::MAX` rounds
///   stops instead of wrapping.
pub struct TaskGenerator {
    workers: usize,
    observers: usize,
    next: Task,
    max_rounds: Option<usize>,
    stopped: bool,
    round: usize,
}

impl TaskGenerator {
    /// Number of worker tasks in one round.
    pub closed spec fn spec_workers(&self) -> usize {
        self.workers
    }

    /// Number of observer tasks in one round.
    pub closed spec fn spec_observers(&self) -> usize {
        self.observers
    }

    /// The task the next call to `next` will yield, when not stopped.
    pub closed spec fn spec_next(&self) -> Task {
        self.next
    }

    /// The round bound, if one was set.
    pub closed spec fn spec_max_rounds(&self) -> Option<usize> {
        self.max_rounds
    }

    /// Whether the generator is exhausted.
    pub closed spec fn spec_stopped(&self) -> bool {
        self.stopped
    }

    /// Number of completed rounds (the `round` field, for use in contracts).
    pub closed spec fn spec_round(&self) -> usize {
        self.round
    }

    /// Number of completed rounds.
    pub fn round(&self) -> (r: usize)
        ensures
            r == self.spec_round(),
    {
        self.round
    }

    /// Position of a task within its round.
    pub open spec fn task_pos(t: Task, workers: usize) -> int {
        match t {
            Task::Worker(n) => n as int,
            Task::Observer(n) => workers + n,
        }
    }

    pub open spec fn wf(&self) -> bool {
        &&& self.spec_workers() >= 1
        &&& match self.spec_next() {
            Task::Worker(n) => n < self.spec_workers(),
            Task::Observer(n) => self.spec_observers() >= 1 && n < self.spec_observers(),
        }
        &&& (!self.spec_stopped() ==> self.spec_round() < usize::MAX)
    }

    /// Exact number of tasks this generator will still yield; an unbounded
    /// generator is bounded by the `usize::MAX` round cap.
    pub open spec fn spec_remaining(&self) -> int {
        if self.spec_stopped() {
            0
        } else {
            let len = self.spec_workers() + self.spec_observers();
            let pos = Self::task_pos(self.spec_next(), self.spec_workers());
            let bound = match self.spec_max_rounds() {
                Some(m) => if m > self.spec_round() { m as int } else { self.spec_round() + 1 },
                None => usize::MAX as int,
            };
            (len - pos) + (bound - self.spec_round() - 1) * len
        }
    }

    pub proof fn lemma_remaining_nonneg(&self)
        requires
            self.wf(),
        ensures
            self.spec_remaining() >= 0,
    {
        if !self.spec_stopped() {
            let len = self.spec_workers() + self.spec_observers();
            let pos = Self::task_pos(self.spec_next(), self.spec_workers());
            let bound = match self.spec_max_rounds() {
                Some(m) => if m > self.spec_round() { m as int } else { self.spec_round() + 1 },
                None => usize::MAX as int,
            };
            assert(len - pos >= 1);
            assert(bound - self.spec_round() - 1 >= 0);
            assert((bound - self.round - 1) * len >= 0) by (nonlinear_arith)
                requires bound - self.spec_round() - 1 >= 0, len >= 0;
        }
    }

    /// Relates a generator to the same generator with its stop flag set.
    pub open spec fn stopped_version_of(post: TaskGenerator, pre: TaskGenerator) -> bool {
        &&& post.spec_workers() == pre.spec_workers()
        &&& post.spec_observers() == pre.spec_observers()
        &&& post.spec_next() == pre.spec_next()
        &&& post.spec_max_rounds() == pre.spec_max_rounds()
        &&& post.spec_round() == pre.spec_round()
        &&& post.spec_stopped()
    }

    /// Completion of a round: `round` advances by one, and the generator
    /// stops when the bound (or the overflow cap) is reached.
    pub open spec fn round_completed(pre: TaskGenerator, post: TaskGenerator) -> bool {
        &&& post.spec_round() == pre.spec_round() + 1
        &&& post.spec_stopped() == ({
            let done = match pre.spec_max_rounds() {
                Some(m) => pre.spec_round() + 1 >= m,
                None => false,
            };
            done || pre.spec_round() + 1 == usize::MAX
        })
    }

    /// The exact transition one pull makes on a generator that is not
    /// stopped: the cycle position advances, and completing a round
    /// increments `round` and checks the bound.
    pub open spec fn advances_to(pre: TaskGenerator, post: TaskGenerator) -> bool {
        &&& !pre.spec_stopped()
        &&& post.spec_workers() == pre.spec_workers()
        &&& post.spec_observers() == pre.spec_observers()
        &&& post.spec_max_rounds() == pre.spec_max_rounds()
        &&& match pre.spec_next() {
            Task::Worker(n) => {
                if n + 1 < pre.spec_workers() {
                    &&& post.spec_next() == Task::Worker((n + 1) as usize)
                    &&& post.spec_round() == pre.spec_round()
                    &&& !post.spec_stopped()
                } else if pre.spec_observers() > 0 {
                    &&& post.spec_next() == Task::Observer(0usize)
                    &&& post.spec_round() == pre.spec_round()
                    &&& !post.spec_stopped()
                } else {
                    &&& post.spec_next() == Task::Worker(0usize)
                    &&& Self::round_completed(pre, post)
                }
            }
            Task::Observer(n) => {
                if n + 1 < pre.spec_observers() {
                    &&& post.spec_next() == Task::Observer((n + 1) as usize)
                    &&& post.spec_round() == pre.spec_round()
                    &&& !post.spec_stopped()
                } else {
                    &&& post.spec_next() == Task::Worker(0usize)
                    &&& Self::round_completed(pre, post)
                }
            }
        }
    }

    /// Creates a generator at round 0, about to yield `Worker(0)`.
    pub fn new(workers: usize, observers: usize) -> (r: TaskGenerator)
        requires
            workers >= 1,
        ensures
            r.wf(),
            r.spec_workers() == workers,
            r.spec_observers() == observers,
            r.spec_round() == 0,
            r.spec_max_rounds() is None,
            !r.spec_stopped(),
            r.spec_next() == Task::Worker(0usize),
    {
        TaskGenerator {
            workers,
            observers,
            round: 0,
            max_rounds: None,
            next: Task::Worker(0),
            stopped: false,
        }
    }

    /// Bounds the generator to `max_rounds` completed rounds.
    pub fn max_rounds(self, max_rounds: usize) -> (r: TaskGenerator)
        ensures
            r.spec_workers() == self.spec_workers(),
            r.spec_observers() == self.spec_observers(),
            r.spec_next() == self.spec_next(),
            r.spec_stopped() == self.spec_stopped(),
            r.spec_round() == self.spec_round(),
            r.spec_max_rounds() == Some(max_rounds),
            self.wf() ==> r.wf(),
    {
        TaskGenerator { max_rounds: Some(max_rounds), ..self }
    }

    /// Sets the stop flag: every subsequent `next` yields `None`.
    pub fn stop(&mut self)
        ensures
            Self::stopped_version_of(*final(self), *old(self)),
            old(self).wf() ==> final(self).wf(),
    {
        self.stopped = true;
    }

    fn complete_round(&mut self)
        requires
            !old(self).spec_stopped(),
            old(self).spec_round() < usize::MAX,
        ensures
            final(self).spec_workers() == old(self).spec_workers(),
            final(self).spec_observers() == old(self).spec_observers(),
            final(self).spec_next() == old(self).spec_next(),
            final(self).spec_max_rounds() == old(self).spec_max_rounds(),
            Self::round_completed(*old(self), *final(self)),
    {
        self.round = self.round + 1;
        let done = match self.max_rounds {
            Some(m) => self.round >= m,
            None => false,
        };
        if done || self.round == usize::MAX {
            self.stopped = true;
        }
    }

    /// Yields the current task and advances the cycle, or `None` once stopped.
    pub fn next(&mut self) -> (r: Option<Task>)
        requires
            old(self).wf(),
        ensures
            final(self).wf(),
            final(self).spec_workers() == old(self).spec_workers(),
            final(self).spec_observers() == old(self).spec_observers(),
            final(self).spec_max_rounds() == old(self).spec_max_rounds(),
            old(self).spec_stopped() ==> r is None && *final(self) == *old(self),
            !old(self).spec_stopped() ==> {
                &&& r == Some(old(self).spec_next())
                &&& final(self).spec_remaining() < old(self).spec_remaining()
                &&& Self::advances_to(*old(self), *final(self))
            },
    {
        if self.stopped {
            return None;
        }
        let current = self.next;
        let new_next: Task;
        match current {
            Task::Worker(n) => {
                if n + 1 < self.workers {
                    new_next = Task::Worker(n + 1);
                } else if self.observers > 0 {
                    new_next = Task::Observer(0);
                } else {
                    self.complete_round();
                    new_next = Task::Worker(0);
                }
            }
            Task::Observer(n) => {
                if n + 1 < self.observers {
                    new_next = Task::Observer(n + 1);
                } else {
                    self.complete_round();
                    new_next = Task::Worker(0);
                }
            }
        }
        self.next = new_next;
        proof {
            Self::lemma_step_decreases(*old(self), *self);
        }
        Some(current)
    }

    proof fn lemma_step_decreases(pre: TaskGenerator, post: TaskGenerator)
        requires
            pre.wf(),
            !pre.spec_stopped(),
            post.spec_workers() == pre.spec_workers(),
            post.spec_observers() == pre.spec_observers(),
            post.spec_max_rounds() == pre.spec_max_rounds(),
            ({
                ||| {
                    &&& post.spec_round() == pre.spec_round()
                    &&& !post.spec_stopped()
                    &&& Self::task_pos(post.spec_next(), post.spec_workers())
                        == Self::task_pos(pre.spec_next(), pre.spec_workers()) + 1
                }
                ||| {
                    &&& Self::task_pos(pre.spec_next(), pre.spec_workers())
                        == pre.spec_workers() + pre.spec_observers() - 1
                    &&& Self::task_pos(post.spec_next(), post.spec_workers()) == 0
                    &&& Self::round_completed(pre, post)
                }
            }),
        ensures
            post.spec_remaining() < pre.spec_remaining(),
    {
        let len = pre.spec_workers() + pre.spec_observers();
        let pos = Self::task_pos(pre.spec_next(), pre.spec_workers());
        let bound = match pre.spec_max_rounds() {
            Some(m) => if m > pre.spec_round() { m as int } else { pre.spec_round() + 1 },
            None => usize::MAX as int,
        };
        assert(1 <= len - pos);
        assert(bound - pre.spec_round() - 1 >= 0);
        if post.spec_round() == pre.spec_round() && !post.spec_stopped()
            && Self::task_pos(post.spec_next(), post.spec_workers()) == pos + 1 {
            // Same round: the position advances, the rest of the measure is unchanged.
            assert(post.spec_remaining() == pre.spec_remaining() - 1);
        } else {
            // The round completed: the last position of the round was yielded.
            assert((bound - pre.spec_round() - 1) * len >= 0) by (nonlinear_arith)
                requires bound - pre.spec_round() - 1 >= 0, len >= 0;
            assert(pre.spec_remaining() == 1 + (bound - pre.spec_round() - 1) * len);
            if post.spec_stopped() {
                assert(post.spec_remaining() == 0);
            } else {
                let bound2 = match post.spec_max_rounds() {
                    Some(m) => if m > post.spec_round() { m as int } else { post.spec_round() + 1 },
                    None => usize::MAX as int,
                };
                // Not stopped after completion: the bound still lies ahead.
                assert(post.spec_round() == pre.spec_round() + 1);
                assert(bound2 == bound);
                assert(post.spec_remaining() == len + (bound - pre.spec_round() - 2) * len);
                assert(len + (bound - pre.spec_round() - 2) * len == (bound - pre.spec_round() - 1) * len)
                    by (nonlinear_arith);
            }
        }
    }
}

} // verus!
