use vstd::prelude::*;

use std::sync::mpsc::Sender;

use rand::RngExt;

use crate::candidate::{Candidate, WorkingCandidate};
use crate::context::Context;
use crate::result::AbcResult;
use crate::scaling::{Scaling, proportionate, scaled_weight, scaled_weights};
use crate::task::{Task, TaskGenerator};

verus! {

#[verifier::external_type_specification]
#[verifier::external_body]
#[verifier::reject_recursive_types(T)]
pub struct ExSender<T>(Sender<T>);

/// Relies on `std::sync::mpsc::Sender::send`: delivery succeeds only while a
/// receiver is still attached, which the verified engine cannot observe, so
/// nothing is promised of the outcome.
#[verifier::external_body]
fn send_candidate<S>(sender: &Sender<Candidate<S>>, candidate: Candidate<S>) -> (ok: bool) {
    sender.send(candidate).is_ok()
}

/// Relies on `rand`'s `random_range`: a uniform draw from `[0, n)`, which
/// panics only on an empty range.
#[verifier::external_body]
fn draw_index(n: usize) -> (r: usize)
    requires
        n >= 1,
    ensures
        r < n,
{
    rand::rng().random_range(0..n)
}

/// Relies on `rand`'s `random_range`: a uniform draw from `[0, total)`, which
/// panics only on an empty range.
#[verifier::external_body]
fn draw_weight(total: u128) -> (r: u128)
    requires
        total >= 1,
    ensures
        r < total,
{
    rand::rng().random_range(0..total)
}

/// Relies on `num_cpus::get`: the number of logical CPUs of the system,
/// documented to always be at least 1.
#[verifier::external_body]
fn logical_cpus() -> (r: usize)
    ensures
        r >= 1,
{
    num_cpus::get()
}

/// Manages the parameters of the ABC algorithm.
pub struct HiveBuilder<Ctx: Context> {
    workers: usize,
    observers: usize,
    retries: usize,
    context: Ctx,
    threads: usize,
    scale: Scaling,
}

impl<Ctx: Context> HiveBuilder<Ctx> {
    /// Number of population slots.
    pub closed spec fn spec_workers(&self) -> usize {
        self.workers
    }

    /// Number of observer tasks per round.
    pub closed spec fn spec_observers(&self) -> usize {
        self.observers
    }

    /// Retry budget a slot gets whenever its candidate is replaced.
    pub closed spec fn spec_retries(&self) -> usize {
        self.retries
    }

    /// Number of driver threads a concurrent runner would use.
    pub closed spec fn spec_threads(&self) -> usize {
        self.threads
    }

    /// The active selection scaling policy.
    pub closed spec fn spec_scale(&self) -> Scaling {
        self.scale
    }

    /// The problem-specific context.
    pub closed spec fn spec_context(&self) -> Ctx {
        self.context
    }

    /// Creates a new builder.
    ///
    /// * `context` - factory-like state used while generating solutions.
    /// * `workers` - number of working solution candidates to maintain.
    ///
    /// Observers and retries default to the number of workers; the thread
    /// count defaults to the number of logical CPUs; scaling defaults to
    /// proportionate.
    pub fn new(context: Ctx, workers: usize) -> (r: HiveBuilder<Ctx>)
        requires
            workers >= 1,
        ensures
            r.spec_workers() == workers,
            r.spec_observers() == workers,
            r.spec_retries() == workers,
            r.spec_threads() >= 1,
            r.spec_scale() == Scaling::Proportionate,
            r.spec_context() == context,
    {
        HiveBuilder {
            workers,
            observers: workers,
            retries: workers,
            context,
            threads: logical_cpus(),
            scale: proportionate(),
        }
    }

    /// Sets the number of observer tasks per round.
    pub fn set_observers(self, observers: usize) -> (r: HiveBuilder<Ctx>)
        ensures
            r.spec_observers() == observers,
            r.spec_workers() == self.spec_workers(),
            r.spec_retries() == self.spec_retries(),
            r.spec_threads() == self.spec_threads(),
            r.spec_scale() == self.spec_scale(),
            r.spec_context() == self.spec_context(),
    {
        HiveBuilder { observers, ..self }
    }

    /// Sets the number of times a candidate can go unimproved before being
    /// reinitialized.
    pub fn set_retries(self, retries: usize) -> (r: HiveBuilder<Ctx>)
        ensures
            r.spec_retries() == retries,
            r.spec_workers() == self.spec_workers(),
            r.spec_observers() == self.spec_observers(),
            r.spec_threads() == self.spec_threads(),
            r.spec_scale() == self.spec_scale(),
            r.spec_context() == self.spec_context(),
    {
        HiveBuilder { retries, ..self }
    }

    /// Sets the number of threads a concurrent runner would use.
    pub fn set_threads(self, threads: usize) -> (r: HiveBuilder<Ctx>)
        ensures
            r.spec_threads() == threads,
            r.spec_workers() == self.spec_workers(),
            r.spec_observers() == self.spec_observers(),
            r.spec_retries() == self.spec_retries(),
            r.spec_scale() == self.spec_scale(),
            r.spec_context() == self.spec_context(),
    {
        HiveBuilder { threads, ..self }
    }

    /// Sets the scaling policy for observers to use.
    pub fn set_scaling(self, scale: Scaling) -> (r: HiveBuilder<Ctx>)
        ensures
            r.spec_scale() == scale,
            r.spec_workers() == self.spec_workers(),
            r.spec_observers() == self.spec_observers(),
            r.spec_retries() == self.spec_retries(),
            r.spec_threads() == self.spec_threads(),
            r.spec_context() == self.spec_context(),
    {
        HiveBuilder { scale, ..self }
    }

    /// Activates the builder to create a runnable [`Hive`].
    pub fn build(self) -> (r: AbcResult<Hive<Ctx>>)
        requires
            self.spec_workers() >= 1,
        ensures
            r matches Ok(h) && Hive::freshly_built(h, self),
    {
        Hive::new(self)
    }

    fn new_candidate(&self) -> Candidate<Ctx::Solution> {
        let solution = self.context.make();
        let fitness = self.context.evaluate_fitness(&solution);
        Candidate::new(solution, fitness)
    }
}

/// Runs the ABC algorithm, maintaining any necessary state.
///
/// The engine is sequential: each call works the round logic to completion
/// in the calling thread. A concurrent driver can own a `Hive` in a
/// background thread and stream improvements out over a channel.
pub struct Hive<Ctx: Context> {
    hive: HiveBuilder<Ctx>,
    working: Vec<WorkingCandidate<Ctx::Solution>>,
    best: Candidate<Ctx::Solution>,
    scouting: Vec<bool>,
    tasks: Option<TaskGenerator>,
    sender: Option<Sender<Candidate<Ctx::Solution>>>,
}

impl<Ctx: Context> Hive<Ctx> {
    /// Number of population slots.
    pub closed spec fn spec_workers(&self) -> usize {
        self.hive.spec_workers()
    }

    /// Number of observer tasks per round.
    pub closed spec fn spec_observers(&self) -> usize {
        self.hive.spec_observers()
    }

    /// Retry budget a slot gets whenever its candidate is replaced.
    pub closed spec fn spec_retry_limit(&self) -> usize {
        self.hive.spec_retries()
    }

    /// Number of driver threads a concurrent runner would use.
    pub closed spec fn spec_threads(&self) -> usize {
        self.hive.spec_threads()
    }

    /// The active selection scaling policy.
    pub closed spec fn spec_scale(&self) -> Scaling {
        self.hive.spec_scale()
    }

    /// The problem-specific context.
    pub closed spec fn spec_context(&self) -> Ctx {
        self.hive.spec_context()
    }

    /// The population slots.
    pub closed spec fn spec_working(&self) -> Seq<WorkingCandidate<Ctx::Solution>> {
        self.working@
    }

    /// The best candidate seen so far.
    pub closed spec fn spec_best(&self) -> Candidate<Ctx::Solution> {
        self.best
    }

    /// Which slots are currently mid-regeneration.
    pub closed spec fn spec_scouting(&self) -> Seq<bool> {
        self.scouting@
    }

    /// The task generator of the active run, if any.
    pub closed spec fn spec_tasks(&self) -> Option<TaskGenerator> {
        self.tasks
    }

    /// Whether a streaming sender is attached.
    pub closed spec fn spec_has_sender(&self) -> bool {
        self.sender is Some
    }

    /// The observable colony state of this hive.
    pub open spec fn colony(&self) -> Colony<Ctx::Solution> {
        Colony {
            working: self.spec_working(),
            best: self.spec_best(),
            scouting: self.spec_scouting(),
        }
    }

    /// Well-formedness: the population has one slot per worker, no slot's
    /// retry budget exceeds the limit, the best candidate's fitness is at
    /// least every slot's, and any installed task generator matches the
    /// population size.
    pub open spec fn wf(&self) -> bool {
        &&& self.spec_workers() >= 1
        &&& self.spec_working().len() == self.spec_workers()
        &&& self.spec_scouting().len() == self.spec_workers()
        &&& forall|i: int|
            0 <= i < self.spec_working().len() ==> self.spec_working()[i].retries
                <= self.spec_retry_limit()
        &&& forall|i: int|
            0 <= i < self.spec_working().len() ==> self.spec_best().fitness
                >= self.spec_working()[i].candidate.fitness
        &&& match self.spec_tasks() {
            Some(g) => g.wf() && g.spec_workers() == self.spec_workers(),
            None => true,
        }
    }

    /// The configuration is unchanged between two states.
    pub open spec fn same_config(pre: Hive<Ctx>, post: Hive<Ctx>) -> bool {
        &&& post.spec_workers() == pre.spec_workers()
        &&& post.spec_observers() == pre.spec_observers()
        &&& post.spec_retry_limit() == pre.spec_retry_limit()
        &&& post.spec_threads() == pre.spec_threads()
        &&& post.spec_scale() == pre.spec_scale()
        &&& post.spec_context() == pre.spec_context()
        &&& post.spec_has_sender() == pre.spec_has_sender()
        &&& post.spec_working().len() == pre.spec_working().len()
        &&& post.spec_scouting().len() == pre.spec_scouting().len()
    }

    /// The task generator is untouched, or stopped in place.
    pub open spec fn tasks_unchanged_or_stopped(pre: Hive<Ctx>, post: Hive<Ctx>) -> bool {
        ||| post.spec_tasks() == pre.spec_tasks()
        ||| {
            &&& pre.spec_tasks() matches Some(g)
            &&& post.spec_tasks() matches Some(g2)
            &&& TaskGenerator::stopped_version_of(g2, g)
        }
    }

    /// What a hive looks like right after construction from `builder`:
    /// well-formed, the configuration taken over, every slot on a full retry
    /// budget, nothing scouting, no run installed, no sender attached, and
    /// the best seeded with the maximum fitness among the initial slots.
    pub open spec fn freshly_built(h: Hive<Ctx>, builder: HiveBuilder<Ctx>) -> bool {
        &&& h.wf()
        &&& h.spec_workers() == builder.spec_workers()
        &&& h.spec_observers() == builder.spec_observers()
        &&& h.spec_retry_limit() == builder.spec_retries()
        &&& h.spec_threads() == builder.spec_threads()
        &&& h.spec_scale() == builder.spec_scale()
        &&& h.spec_context() == builder.spec_context()
        &&& h.spec_tasks() is None
        &&& !h.spec_has_sender()
        &&& forall|i: int| 0 <= i < h.spec_scouting().len() ==> !h.spec_scouting()[i]
        &&& forall|i: int|
            0 <= i < h.spec_working().len() ==> h.spec_working()[i].retries
                == builder.spec_retries()
        &&& exists|i: int|
            0 <= i < h.spec_working().len() && h.spec_best().fitness
                == h.spec_working()[i].candidate.fitness
    }

    fn new(hive: HiveBuilder<Ctx>) -> (r: AbcResult<Hive<Ctx>>)
        requires
            hive.spec_workers() >= 1,
        ensures
            r matches Ok(h) && Self::freshly_built(h, hive),
    {
        // Populate the field with an initial set of solution candidates.
        let retries = hive.retries;
        let workers = hive.workers;
        let mut working: Vec<WorkingCandidate<Ctx::Solution>> = Vec::new();
        let mut scouting: Vec<bool> = Vec::new();
        let mut i: usize = 0;
        while i < workers
            invariant
                i <= workers,
                working@.len() == i,
                scouting@.len() == i,
                forall|j: int| 0 <= j < i ==> working@[j].retries == retries,
                forall|j: int| 0 <= j < i ==> !scouting@[j],
            decreases workers - i,
        {
            let candidate = hive.new_candidate();
            working.push(WorkingCandidate::new(candidate, retries));
            scouting.push(false);
            i = i + 1;
        }

        // Seed the cached best with the fittest initial candidate.
        let mut best_at: usize = 0;
        let mut j: usize = 1;
        while j < working.len()
            invariant
                1 <= j <= working@.len(),
                best_at < j,
                forall|k: int|
                    0 <= k < j ==> working@[best_at as int].candidate.fitness
                        >= working@[k].candidate.fitness,
            decreases working@.len() - j,
        {
            if working[j].candidate.fitness > working[best_at].candidate.fitness {
                best_at = j;
            }
            j = j + 1;
        }
        let best = Candidate::new(
            working[best_at].candidate.solution.clone(),
            working[best_at].candidate.fitness,
        );

        Ok(Hive { hive, working, best, scouting, tasks: None, sender: None })
    }

    /// Clones a snapshot of the current set of working candidates.
    ///
    /// The collaborator sees this snapshot when computing an exploration
    /// step: a momentarily consistent, possibly already-stale view.
    pub fn current_working(&self) -> (r: Vec<Candidate<Ctx::Solution>>)
        ensures
            r@.len() == self.spec_working().len(),
            forall|i: int|
                0 <= i < r@.len() ==> r@[i].fitness == self.spec_working()[i].candidate.fitness,
    {
        let mut out: Vec<Candidate<Ctx::Solution>> = Vec::new();
        let mut i: usize = 0;
        while i < self.working.len()
            invariant
                i <= self.working@.len(),
                out@.len() == i,
                forall|j: int|
                    0 <= j < i ==> out@[j].fitness == self.working@[j].candidate.fitness,
            decreases self.working@.len() - i,
        {
            let solution = self.working[i].candidate.solution.clone();
            out.push(Candidate::new(solution, self.working[i].candidate.fitness));
            i = i + 1;
        }
        out
    }

    /// Returns a snapshot of the current best candidate found by the hive.
    pub fn get(&self) -> (r: AbcResult<Candidate<Ctx::Solution>>)
        ensures
            r matches Ok(c) && c.fitness == self.spec_best().fitness,
    {
        Ok(Candidate::new(self.best.solution.clone(), self.best.fitness))
    }

    fn stop_tasks(&mut self)
        ensures
            final(self).spec_working() == old(self).spec_working(),
            final(self).spec_scouting() == old(self).spec_scouting(),
            final(self).spec_best() == old(self).spec_best(),
            final(self).hive == old(self).hive,
            final(self).spec_has_sender() == old(self).spec_has_sender(),
            Self::tasks_unchanged_or_stopped(*old(self), *final(self)),
            old(self).spec_tasks() is None ==> *final(self) == *old(self),
            old(self).spec_tasks() matches Some(g) ==> final(self).spec_tasks() matches Some(g2)
                && TaskGenerator::stopped_version_of(g2, g),
            old(self).wf() ==> final(self).wf(),
    {
        match &mut self.tasks {
            Some(generator) => generator.stop(),
            None => {}
        }
    }

    /// Performs greedy selection between a new candidate and the current
    /// best: the best is replaced exactly when the candidate is strictly
    /// fitter. When streaming, the improvement is pushed to the attached
    /// sender; a failed push means the consumer disconnected, which is
    /// treated as a shutdown signal for the active run.
    fn consider_improvement(&mut self, candidate: &Candidate<Ctx::Solution>)
        requires
            old(self).wf(),
        ensures
            final(self).wf(),
            final(self).spec_working() == old(self).spec_working(),
            final(self).spec_scouting() == old(self).spec_scouting(),
            final(self).hive == old(self).hive,
            final(self).spec_has_sender() == old(self).spec_has_sender(),
            final(self).spec_best().fitness >= old(self).spec_best().fitness,
            candidate.fitness > old(self).spec_best().fitness ==> final(self).spec_best().fitness
                == candidate.fitness,
            candidate.fitness <= old(self).spec_best().fitness ==> final(self).spec_best()
                == old(self).spec_best(),
            Self::tasks_unchanged_or_stopped(*old(self), *final(self)),
            candidate.fitness <= old(self).spec_best().fitness ==> final(self).spec_tasks()
                == old(self).spec_tasks(),
            !old(self).spec_has_sender() ==> final(self).spec_tasks() == old(self).spec_tasks(),
    {
        if candidate.fitness > self.best.fitness {
            self.best = Candidate::new(candidate.solution.clone(), candidate.fitness);
            let disconnected: bool = match &self.sender {
                Some(sender) => {
                    let copy = Candidate::new(candidate.solution.clone(), candidate.fitness);
                    !send_candidate(sender, copy)
                }
                None => false,
            };
            if disconnected {
                self.stop_tasks();
            }
        }
    }

    /// Stops a running hive: the active run observes exhaustion and winds
    /// down cooperatively.
    pub fn stop(&mut self) -> (r: AbcResult<()>)
        requires
            old(self).wf(),
        ensures
            r is Ok,
            final(self).wf(),
            Self::same_config(*old(self), *final(self)),
            final(self).spec_working() == old(self).spec_working(),
            final(self).spec_scouting() == old(self).spec_scouting(),
            final(self).spec_best() == old(self).spec_best(),
            Self::tasks_unchanged_or_stopped(*old(self), *final(self)),
            old(self).spec_tasks() matches Some(g) ==> final(self).spec_tasks() matches Some(g2)
                && TaskGenerator::stopped_version_of(g2, g),
    {
        self.stop_tasks();
        Ok(())
    }

    /// Attaches a sender: each new best candidate will be pushed to it.
    /// The current best is pushed immediately, so the receiving end always
    /// sees at least one candidate.
    pub fn set_sender(&mut self, sender: Sender<Candidate<Ctx::Solution>>)
        requires
            old(self).wf(),
        ensures
            final(self).wf(),
            final(self).spec_has_sender(),
            final(self).spec_working() == old(self).spec_working(),
            final(self).spec_scouting() == old(self).spec_scouting(),
            final(self).spec_best() == old(self).spec_best(),
            final(self).spec_tasks() == old(self).spec_tasks(),
            final(self).spec_workers() == old(self).spec_workers(),
            final(self).spec_observers() == old(self).spec_observers(),
            final(self).spec_retry_limit() == old(self).spec_retry_limit(),
            final(self).spec_threads() == old(self).spec_threads(),
            final(self).spec_scale() == old(self).spec_scale(),
            final(self).spec_context() == old(self).spec_context(),
    {
        let snapshot = Candidate::new(self.best.solution.clone(), self.best.fitness);
        let _ = send_candidate(&sender, snapshot);
        self.sender = Some(sender);
    }

    /// Returns the current round of a running hive, or `None` if no run is
    /// active.
    ///
    /// The round starts at 0 and increments each time every task in the
    /// round has been claimed.
    pub fn get_round(&self) -> (r: AbcResult<Option<usize>>)
        ensures
            r matches Ok(o) && o == (match self.spec_tasks() {
                Some(g) => Some(g.spec_round()),
                None => None::<usize>,
            }),
    {
        match &self.tasks {
            Some(generator) => Ok(Some(generator.round())),
            None => Ok(None),
        }
    }

    /// A reference to the hive's context.
    pub fn context(&self) -> (r: &Ctx)
        ensures
            *r == self.spec_context(),
    {
        &self.hive.context
    }

    /// Picks the slot an observer will work on: the fitness snapshot is
    /// scaled by the active policy, and a roulette draw picks among the
    /// eligible (non-scouting) slots. When every eligible slot has zero
    /// weight, one of them is picked uniformly; when every slot is
    /// scouting, the pick falls back to a uniformly random slot.
    fn select_index(&self, current: &Vec<Candidate<Ctx::Solution>>) -> (r: usize)
        requires
            self.wf(),
            current@.len() == self.spec_working().len(),
        ensures
            r < self.spec_working().len(),
            (exists|i: int|
                0 <= i < self.spec_scouting().len() && !self.spec_scouting()[i])
                ==> !self.spec_scouting()[r as int],
            // while any eligible weight of the scaled snapshot is positive,
            // the roulette picks a slot with positive scaled weight
            eligible_total(
                scaled_weights(self.spec_scale(), fitness_of(current@)),
                self.spec_scouting(),
            ) > 0 ==> {
                &&& !self.spec_scouting()[r as int]
                &&& scaled_weight(self.spec_scale(), fitness_of(current@), r as int) > 0
            },
    {
        let mut fitnesses: Vec<u64> = Vec::new();
        let mut i: usize = 0;
        while i < current.len()
            invariant
                i <= current@.len(),
                fitnesses@.len() == i,
                forall|j: int| 0 <= j < i ==> fitnesses@[j] == current@[j].fitness,
            decreases current@.len() - i,
        {
            fitnesses.push(current[i].fitness);
            i = i + 1;
        }
        proof {
            assert(fitnesses@ =~= fitness_of(current@));
        }
        let weights = self.hive.scale.apply(&fitnesses);
        proof {
            assert(weights@ =~= scaled_weights(self.spec_scale(), fitness_of(current@)));
        }
        let total = sum_eligible(&weights, &self.scouting);
        if total > 0 {
            let draw = draw_weight(total);
            let picked = roulette_pick(&weights, &self.scouting, draw);
            proof {
                // The cumulative eligible weight strictly grows across the
                // picked slot, so its own weight is positive.
                assert(eligible_prefix(weights@, self.spec_scouting(), picked as int + 1)
                    == eligible_prefix(weights@, self.spec_scouting(), picked as int)
                    + weights@[picked as int]);
            }
            picked
        } else {
            let eligible = count_eligible(&self.scouting);
            if eligible > 0 {
                let k = draw_index(eligible);
                kth_eligible(&self.scouting, k)
            } else {
                // Every slot is scouting: fall back to a uniform pick over
                // the whole population.
                proof {
                    if exists|j: int|
                        0 <= j < self.spec_scouting().len() && !self.spec_scouting()[j] {
                        let j = choose|j: int|
                            0 <= j < self.spec_scouting().len() && !self.spec_scouting()[j];
                        lemma_eligible_count_positive(self.spec_scouting(), j);
                        assert(false);
                    }
                }
                draw_index(self.working.len())
            }
        }
    }

    /// Works one exploration step on slot `n`: an improving variant
    /// replaces the slot (on a fresh retry budget) and is propagated to the
    /// best; otherwise the slot is depleted, and a slot that expires is
    /// marked scouting, regenerated from scratch, reinstalled and unmarked.
    fn work_on(&mut self, current: &Vec<Candidate<Ctx::Solution>>, n: usize)
        requires
            old(self).wf(),
            n < old(self).spec_working().len(),
            current@.len() == old(self).spec_working().len(),
        ensures
            final(self).wf(),
            Self::same_config(*old(self), *final(self)),
            final(self).spec_best().fitness >= old(self).spec_best().fitness,
            slot_worked(
                old(self).colony(),
                final(self).colony(),
                n as int,
                old(self).spec_retry_limit(),
            ),
            Self::tasks_unchanged_or_stopped(*old(self), *final(self)),
            // the scheduler is only touched on a streamed improvement
            final(self).spec_best() == old(self).spec_best() ==> final(self).spec_tasks()
                == old(self).spec_tasks(),
            // the scouting set is only ever cleared at `n`, never extended:
            // a slot is in it only during its own regeneration window
            !old(self).spec_scouting()[n as int] ==> !final(self).spec_scouting()[n as int],
            final(self).spec_scouting()[n as int] ==> old(self).spec_scouting()[n as int],
            forall|j: int|
                0 <= j < final(self).spec_scouting().len() && j != n
                    ==> final(self).spec_scouting()[j] == old(self).spec_scouting()[j],
    {
        let variant_solution = self.hive.context.explore(current, n);
        let variant_fitness = self.hive.context.evaluate_fitness(&variant_solution);
        let variant = Candidate::new(variant_solution, variant_fitness);
        if variant.fitness > self.working[n].candidate.fitness {
            let retries = self.hive.retries;
            self.consider_improvement(&variant);
            self.working[n] = WorkingCandidate::new(variant, retries);
        } else {
            self.working[n].deplete();
            let expired = self.working[n].expired();
            if expired {
                // Mark the slot as scouting while it is regenerated; a
                // concurrent driver would release the slot's lock during the
                // expensive regeneration.
                self.scouting[n] = true;
                let replacement = self.hive.new_candidate();
                let retries = self.hive.retries;
                self.consider_improvement(&replacement);
                self.working[n] = WorkingCandidate::new(replacement, retries);
                self.scouting[n] = false;
                proof {
                    assert(self.spec_scouting() =~= old(self).spec_scouting().update(
                        n as int,
                        false,
                    ));
                }
            }
        }
    }

    /// Executes one task: takes a population snapshot, guards workers
    /// against slots mid-regeneration, lets observers pick a slot, and
    /// works on the chosen slot.
    ///
    /// A worker task whose slot is in the scouting set is a silent no-op:
    /// the hive is left exactly as it was. An eligible worker task works
    /// its own slot; an observer task works some slot, eligible whenever
    /// any slot is.
    fn execute(&mut self, task: &Task)
        requires
            old(self).wf(),
            (*task) matches Task::Worker(n) ==> (n as int) < old(self).spec_working().len(),
        ensures
            final(self).wf(),
            Self::same_config(*old(self), *final(self)),
            final(self).spec_best().fitness >= old(self).spec_best().fitness,
            Self::tasks_unchanged_or_stopped(*old(self), *final(self)),
            final(self).spec_best() == old(self).spec_best() ==> final(self).spec_tasks()
                == old(self).spec_tasks(),
            (*task) matches Task::Worker(n) ==> (old(self).spec_scouting()[n as int]
                ==> *final(self) == *old(self)),
            (*task) matches Task::Worker(n) ==> (!old(self).spec_scouting()[n as int]
                ==> slot_worked(
                old(self).colony(),
                final(self).colony(),
                n as int,
                old(self).spec_retry_limit(),
            )),
            (*task) is Observer ==> (exists|n: int|
                {
                    &&& 0 <= n < old(self).spec_working().len()
                    &&& slot_worked(
                        old(self).colony(),
                        final(self).colony(),
                        n,
                        old(self).spec_retry_limit(),
                    )
                    &&& ((exists|i: int|
                        0 <= i < old(self).spec_scouting().len()
                            && !old(self).spec_scouting()[i]) ==> !old(self).spec_scouting()[n])
                }),
            task_affects(*task, old(self).colony(), final(self).colony(), old(self).spec_retry_limit()),
            colony_step(old(self).colony(), final(self).colony(), old(self).spec_retry_limit()),
            (forall|i: int|
                0 <= i < old(self).spec_scouting().len() ==> !old(self).spec_scouting()[i])
                ==> (forall|i: int|
                0 <= i < final(self).spec_scouting().len() ==> !final(self).spec_scouting()[i]),
    {
        let current = self.current_working();
        let index: usize;
        match task {
            Task::Worker(n) => {
                if self.scouting[*n] {
                    // The slot is being replaced elsewhere: skip this pull.
                    return;
                }
                index = *n;
            }
            Task::Observer(_) => {
                index = self.select_index(&current);
            }
        }
        self.work_on(&current, index);
        proof {
            assert(slot_worked(
                old(self).colony(),
                self.colony(),
                index as int,
                old(self).spec_retry_limit(),
            ));
        }
    }

    /// Installs the generator and drains it, executing every task it
    /// yields until it is exhausted; the generator slot is cleared
    /// afterwards so the hive can be run again. The final colony state
    /// arises from the initial one by the pull-and-execute steps of that
    /// drain.
    fn run(&mut self, tasks: TaskGenerator) -> (r: AbcResult<()>)
        requires
            old(self).wf(),
            tasks.wf(),
            tasks.spec_workers() == old(self).spec_workers(),
        ensures
            r is Ok,
            final(self).wf(),
            Self::same_config(*old(self), *final(self)),
            final(self).spec_best().fitness >= old(self).spec_best().fitness,
            final(self).spec_tasks() is None,
            exists|gend: TaskGenerator, k: nat|
                {
                    &&& drain_reachable(
                        tasks,
                        old(self).colony(),
                        gend,
                        final(self).colony(),
                        old(self).spec_retry_limit(),
                        k,
                    )
                    &&& gend.spec_stopped()
                },
            (forall|i: int|
                0 <= i < old(self).spec_scouting().len() ==> !old(self).spec_scouting()[i])
                ==> (forall|i: int|
                0 <= i < final(self).spec_scouting().len() ==> !final(self).spec_scouting()[i]),
    {
        self.tasks = Some(tasks);
        proof {
            assert(self.spec_tasks()->Some_0 == tasks);
            assert(drain_reachable(
                tasks,
                old(self).colony(),
                self.spec_tasks()->Some_0,
                self.colony(),
                old(self).spec_retry_limit(),
                0nat,
            ));
        }
        let mut running = true;
        while running
            invariant
                self.wf(),
                self.spec_tasks() is Some,
                Self::same_config(*old(self), *self),
                self.spec_best().fitness >= old(self).spec_best().fitness,
                exists|k: nat|
                    drain_reachable(
                        tasks,
                        old(self).colony(),
                        self.spec_tasks()->Some_0,
                        self.colony(),
                        old(self).spec_retry_limit(),
                        k,
                    ),
                !running ==> self.spec_tasks()->Some_0.spec_stopped(),
                (forall|i: int|
                    0 <= i < old(self).spec_scouting().len() ==> !old(self).spec_scouting()[i])
                    ==> (forall|i: int|
                    0 <= i < self.spec_scouting().len() ==> !self.spec_scouting()[i]),
            decreases (if running {
                1int
            } else {
                0int
            }), (match self.spec_tasks() {
                Some(g) => g.spec_remaining(),
                None => 0int,
            }),
        {
            proof {
                match self.spec_tasks() {
                    Some(g) => g.lemma_remaining_nonneg(),
                    None => {}
                }
            }
            let ghost gen_start = self.spec_tasks()->Some_0;
            let task_opt = match &mut self.tasks {
                Some(generator) => generator.next(),
                None => None,
            };
            let ghost gen_pulled = self.spec_tasks()->Some_0;
            match task_opt {
                Some(task) => {
                    proof {
                        match self.spec_tasks() {
                            Some(g) => g.lemma_remaining_nonneg(),
                            None => {}
                        }
                    }
                    let ghost before_step = self.colony();
                    self.execute(&task);
                    proof {
                        let k0 = choose|k: nat|
                            drain_reachable(
                                tasks,
                                old(self).colony(),
                                gen_start,
                                before_step,
                                old(self).spec_retry_limit(),
                                k,
                            );
                        assert(task_affects(
                            task,
                            before_step,
                            self.colony(),
                            old(self).spec_retry_limit(),
                        ));
                        assert(TaskGenerator::advances_to(gen_start, gen_pulled));
                        assert(drain_step(
                            gen_start,
                            before_step,
                            self.spec_tasks()->Some_0,
                            self.colony(),
                            old(self).spec_retry_limit(),
                        ));
                        assert(drain_reachable(
                            tasks,
                            old(self).colony(),
                            self.spec_tasks()->Some_0,
                            self.colony(),
                            old(self).spec_retry_limit(),
                            k0 + 1,
                        ));
                    }
                }
                None => {
                    running = false;
                }
            }
        }
        let ghost gen_done = self.spec_tasks()->Some_0;
        let ghost end_colony = self.colony();
        self.tasks = None;
        proof {
            let k0 = choose|k: nat|
                drain_reachable(
                    tasks,
                    old(self).colony(),
                    gen_done,
                    end_colony,
                    old(self).spec_retry_limit(),
                    k,
                );
            assert(drain_reachable(
                tasks,
                old(self).colony(),
                gen_done,
                self.colony(),
                old(self).spec_retry_limit(),
                k0,
            ));
        }
        Ok(())
    }

    /// Runs for a fixed number of rounds, then returns the best candidate
    /// found; the best fitness never decreases from run to run, and the
    /// final colony state arises from the initial one by draining a fresh
    /// generator bounded to `rounds` until it is exhausted.
    pub fn run_for_rounds(&mut self, rounds: usize) -> (r: AbcResult<Candidate<Ctx::Solution>>)
        requires
            old(self).wf(),
        ensures
            final(self).wf(),
            Self::same_config(*old(self), *final(self)),
            final(self).spec_best().fitness >= old(self).spec_best().fitness,
            r matches Ok(c) && c.fitness == final(self).spec_best().fitness,
            final(self).spec_tasks() is None,
            exists|g0: TaskGenerator, gend: TaskGenerator, k: nat|
                {
                    &&& g0.spec_workers() == old(self).spec_workers()
                    &&& g0.spec_observers() == old(self).spec_observers()
                    &&& g0.spec_max_rounds() == Some(rounds)
                    &&& g0.spec_round() == 0
                    &&& g0.spec_next() == Task::Worker(0usize)
                    &&& !g0.spec_stopped()
                    &&& drain_reachable(
                        g0,
                        old(self).colony(),
                        gend,
                        final(self).colony(),
                        old(self).spec_retry_limit(),
                        k,
                    )
                    &&& gend.spec_stopped()
                },
            (forall|i: int|
                0 <= i < old(self).spec_scouting().len() ==> !old(self).spec_scouting()[i])
                ==> (forall|i: int|
                0 <= i < final(self).spec_scouting().len() ==> !final(self).spec_scouting()[i]),
    {
        let tasks = TaskGenerator::new(self.hive.workers, self.hive.observers).max_rounds(rounds);
        let run_result = self.run(tasks);
        let result = match run_result {
            Ok(()) => self.get(),
            Err(e) => Err(e),
        };
        proof {
            let (gend, k) = choose|gend: TaskGenerator, k: nat|
                drain_reachable(
                    tasks,
                    old(self).colony(),
                    gend,
                    self.colony(),
                    old(self).spec_retry_limit(),
                    k,
                ) && gend.spec_stopped();
            assert(drain_reachable(
                tasks,
                old(self).colony(),
                gend,
                self.colony(),
                old(self).spec_retry_limit(),
                k,
            ) && gend.spec_stopped());
        }
        result
    }

    /// Runs until stopped: by [`Hive::stop`] from a cooperative caller, or
    /// by a disconnected streaming consumer. The final colony state arises
    /// from the initial one by draining a fresh unbounded generator until
    /// it stops.
    pub fn run_forever(&mut self) -> (r: AbcResult<()>)
        requires
            old(self).wf(),
        ensures
            r is Ok,
            final(self).wf(),
            Self::same_config(*old(self), *final(self)),
            final(self).spec_best().fitness >= old(self).spec_best().fitness,
            final(self).spec_tasks() is None,
            exists|g0: TaskGenerator, gend: TaskGenerator, k: nat|
                {
                    &&& g0.spec_workers() == old(self).spec_workers()
                    &&& g0.spec_observers() == old(self).spec_observers()
                    &&& g0.spec_max_rounds() is None
                    &&& g0.spec_round() == 0
                    &&& g0.spec_next() == Task::Worker(0usize)
                    &&& !g0.spec_stopped()
                    &&& drain_reachable(
                        g0,
                        old(self).colony(),
                        gend,
                        final(self).colony(),
                        old(self).spec_retry_limit(),
                        k,
                    )
                    &&& gend.spec_stopped()
                },
            (forall|i: int|
                0 <= i < old(self).spec_scouting().len() ==> !old(self).spec_scouting()[i])
                ==> (forall|i: int|
                0 <= i < final(self).spec_scouting().len() ==> !final(self).spec_scouting()[i]),
    {
        let tasks = TaskGenerator::new(self.hive.workers, self.hive.observers);
        let result = self.run(tasks);
        proof {
            let (gend, k) = choose|gend: TaskGenerator, k: nat|
                drain_reachable(
                    tasks,
                    old(self).colony(),
                    gend,
                    self.colony(),
                    old(self).spec_retry_limit(),
                    k,
                ) && gend.spec_stopped();
            assert(drain_reachable(
                tasks,
                old(self).colony(),
                gend,
                self.colony(),
                old(self).spec_retry_limit(),
                k,
            ) && gend.spec_stopped());
        }
        result
    }
}

/// The observable colony state of a hive: the population slots, the cached
/// best and the scouting set (the scheduler cursor aside).
pub struct Colony<S> {
    /// The population slots.
    pub working: Seq<WorkingCandidate<S>>,
    /// The best candidate seen so far.
    pub best: Candidate<S>,
    /// Which slots are mid-regeneration.
    pub scouting: Seq<bool>,
}

/// What one exploration attempt does to slot `n` of a colony: exactly one
/// of a retry spent in place, a strictly fitter variant installed, or an
/// expired slot regenerated from scratch; every other slot keeps its value,
/// and the best never decreases.
pub open spec fn slot_worked<S>(
    pre: Colony<S>,
    post: Colony<S>,
    n: int,
    retry_limit: usize,
) -> bool {
    &&& 0 <= n < pre.working.len()
    &&& post.working.len() == pre.working.len()
    &&& post.scouting.len() == pre.scouting.len()
    &&& forall|i: int|
        0 <= i < post.working.len() && i != n ==> post.working[i] == pre.working[i]
    &&& post.best.fitness >= pre.best.fitness
    &&& ({
        // One retry was spent on an unimproved, unexpired candidate, and
        // nothing else changed ...
        ||| {
            &&& post.working[n].candidate == pre.working[n].candidate
            &&& pre.working[n].retries >= 2
            &&& post.working[n].retries == pre.working[n].retries - 1
            &&& post.best == pre.best
            &&& post.scouting == pre.scouting
        }
        // ... or a strictly fitter variant replaced the slot on a fresh
        // retry budget ...
        ||| {
            &&& post.working[n].retries == retry_limit
            &&& post.working[n].candidate.fitness > pre.working[n].candidate.fitness
            &&& post.best.fitness == (if post.working[n].candidate.fitness > pre.best.fitness {
                post.working[n].candidate.fitness
            } else {
                pre.best.fitness
            })
            &&& post.scouting == pre.scouting
        }
        // ... or the slot expired and was regenerated from scratch on a
        // fresh retry budget, leaving the scouting set as it was found.
        ||| {
            &&& pre.working[n].retries <= 1
            &&& post.working[n].retries == retry_limit
            &&& post.best.fitness == (if post.working[n].candidate.fitness > pre.best.fitness {
                post.working[n].candidate.fitness
            } else {
                pre.best.fitness
            })
            &&& post.scouting == pre.scouting.update(n, false)
        }
    })
}

/// One task execution, as observable on the colony: either nothing happened
/// (a worker found its slot mid-regeneration) or exactly one slot was
/// worked.
pub open spec fn colony_step<S>(pre: Colony<S>, post: Colony<S>, retry_limit: usize) -> bool {
    ||| post == pre
    ||| exists|n: int| 0 <= n < pre.working.len() && slot_worked(pre, post, n, retry_limit)
}

/// What executing `task` does to a colony: a worker task on a scouting
/// slot is a silent no-op, an eligible worker task works its own slot, and
/// an observer task works some slot, eligible whenever any slot is.
pub open spec fn task_affects<S>(
    task: Task,
    pre: Colony<S>,
    post: Colony<S>,
    retry_limit: usize,
) -> bool {
    match task {
        Task::Worker(n) => {
            if n < pre.scouting.len() && pre.scouting[n as int] {
                post == pre
            } else {
                slot_worked(pre, post, n as int, retry_limit)
            }
        }
        Task::Observer(_) => exists|n: int|
            {
                &&& 0 <= n < pre.working.len()
                &&& slot_worked(pre, post, n, retry_limit)
                &&& ((exists|i: int| 0 <= i < pre.scouting.len() && !pre.scouting[i])
                    ==> !pre.scouting[n])
            },
    }
}

/// One pull-and-execute step of a run: the generator yields its current
/// task and advances, the colony takes that task's step, and executing the
/// task may additionally stop the generator (a streamed improvement whose
/// consumer disconnected).
pub open spec fn drain_step<S>(
    gen0: TaskGenerator,
    c0: Colony<S>,
    gen1: TaskGenerator,
    c1: Colony<S>,
    retry_limit: usize,
) -> bool {
    &&& !gen0.spec_stopped()
    &&& task_affects(gen0.spec_next(), c0, c1, retry_limit)
    &&& exists|mid: TaskGenerator|
        {
            &&& TaskGenerator::advances_to(gen0, mid)
            &&& (gen1 == mid || TaskGenerator::stopped_version_of(gen1, mid))
        }
}

/// Generator `gen1` and colony `c1` arise from `gen0` and `c0` by `k`
/// pull-and-execute steps of a run.
pub open spec fn drain_reachable<S>(
    gen0: TaskGenerator,
    c0: Colony<S>,
    gen1: TaskGenerator,
    c1: Colony<S>,
    retry_limit: usize,
    k: nat,
) -> bool
    decreases k,
{
    if k == 0 {
        gen1 == gen0 && c1 == c0
    } else {
        exists|gm: TaskGenerator, cm: Colony<S>|
            {
                &&& drain_reachable(gen0, c0, gm, cm, retry_limit, (k - 1) as nat)
                &&& drain_step(gm, cm, gen1, c1, retry_limit)
            }
    }
}

/// The fitness of each snapshot entry, in order.
pub open spec fn fitness_of<S>(current: Seq<Candidate<S>>) -> Seq<u64> {
    Seq::new(current.len(), |i: int| current[i].fitness)
}

/// Number of eligible (non-scouting) positions in the prefix of length `k`.
pub open spec fn eligible_count(scouting: Seq<bool>, k: int) -> int
    decreases k,
{
    if k <= 0 {
        0
    } else {
        eligible_count(scouting, k - 1) + if !scouting[k - 1] {
            1int
        } else {
            0int
        }
    }
}

/// Cumulative weight of the eligible (non-scouting) positions in the prefix
/// of length `k`.
pub open spec fn eligible_prefix(weights: Seq<u64>, scouting: Seq<bool>, k: int) -> int
    decreases k,
{
    if k <= 0 {
        0
    } else {
        eligible_prefix(weights, scouting, k - 1) + if !scouting[k - 1] {
            weights[k - 1] as int
        } else {
            0int
        }
    }
}

/// Total weight of all eligible positions.
pub open spec fn eligible_total(weights: Seq<u64>, scouting: Seq<bool>) -> int {
    eligible_prefix(weights, scouting, weights.len() as int)
}

proof fn lemma_eligible_prefix_bounds(weights: Seq<u64>, scouting: Seq<bool>, k: int)
    requires
        0 <= k <= weights.len(),
    ensures
        0 <= eligible_prefix(weights, scouting, k),
        eligible_prefix(weights, scouting, k) <= k * (u64::MAX as int),
    decreases k,
{
    if k <= 0 {
    } else {
        lemma_eligible_prefix_bounds(weights, scouting, k - 1);
        assert((k - 1) * (u64::MAX as int) + (u64::MAX as int) == k * (u64::MAX as int))
            by (nonlinear_arith);
    }
}

proof fn lemma_eligible_prefix_mono(weights: Seq<u64>, scouting: Seq<bool>, k1: int, k2: int)
    requires
        0 <= k1 <= k2 <= weights.len(),
    ensures
        eligible_prefix(weights, scouting, k1) <= eligible_prefix(weights, scouting, k2),
    decreases k2 - k1,
{
    if k1 < k2 {
        lemma_eligible_prefix_mono(weights, scouting, k1, k2 - 1);
    }
}

proof fn lemma_eligible_count_mono(scouting: Seq<bool>, k1: int, k2: int)
    requires
        0 <= k1 <= k2,
    ensures
        0 <= eligible_count(scouting, k1) <= eligible_count(scouting, k2),
    decreases k2 - k1,
{
    if k1 < k2 {
        lemma_eligible_count_mono(scouting, k1, k2 - 1);
    } else {
        lemma_eligible_count_nonneg(scouting, k1);
    }
}

proof fn lemma_eligible_count_nonneg(scouting: Seq<bool>, k: int)
    ensures
        0 <= eligible_count(scouting, k),
    decreases k,
{
    if k > 0 {
        lemma_eligible_count_nonneg(scouting, k - 1);
    }
}

proof fn lemma_eligible_count_positive(scouting: Seq<bool>, i: int)
    requires
        0 <= i < scouting.len(),
        !scouting[i],
    ensures
        eligible_count(scouting, scouting.len() as int) >= 1,
{
    lemma_eligible_count_nonneg(scouting, i);
    assert(eligible_count(scouting, i + 1) >= 1);
    lemma_eligible_count_mono(scouting, i + 1, scouting.len() as int);
}

/// Fitness-proportionate (roulette-wheel) selection restricted to eligible
/// (non-scouting) positions: returns the first position whose cumulative
/// eligible weight exceeds the draw.
pub fn roulette_pick(weights: &Vec<u64>, scouting: &Vec<bool>, draw: u128) -> (r: usize)
    requires
        weights@.len() == scouting@.len(),
        (draw as int) < eligible_total(weights@, scouting@),
    ensures
        r < weights@.len(),
        !scouting@[r as int],
        eligible_prefix(weights@, scouting@, r as int) <= draw as int,
        (draw as int) < eligible_prefix(weights@, scouting@, r as int + 1),
{
    let n = weights.len();
    let mut acc: u128 = 0;
    let mut j: usize = 0;
    while j < n
        invariant
            j <= n,
            acc as int == eligible_prefix(weights@, scouting@, j as int),
            acc <= draw,
        decreases n - j,
    {
        if !scouting[j] {
            proof {
                lemma_eligible_prefix_mono(weights@, scouting@, j as int + 1, weights@.len() as int);
                lemma_eligible_prefix_bounds(weights@, scouting@, weights@.len() as int);
            }
            let next: u128 = acc + (weights[j] as u128);
            if next > draw {
                return j;
            }
            acc = next;
        }
        j = j + 1;
    }
    proof {
        // The draw lies below the total, so some prefix must exceed it.
        assert(false);
    }
    vstd::pervasive::unreached()
}

/// The position of the `k`-th eligible (non-scouting) entry.
fn kth_eligible(scouting: &Vec<bool>, k: usize) -> (r: usize)
    requires
        (k as int) < eligible_count(scouting@, scouting@.len() as int),
    ensures
        r < scouting@.len(),
        !scouting@[r as int],
{
    let n = scouting.len();
    let mut seen: usize = 0;
    let mut j: usize = 0;
    while j < n
        invariant
            j <= n,
            seen as int == eligible_count(scouting@, j as int),
            seen <= k,
        decreases n - j,
    {
        if !scouting[j] {
            if seen == k {
                return j;
            }
            seen = seen + 1;
        }
        j = j + 1;
    }
    proof {
        // Fewer eligible entries than k were found, contradicting the bound.
        assert(false);
    }
    vstd::pervasive::unreached()
}

/// Number of eligible (non-scouting) entries.
fn count_eligible(scouting: &Vec<bool>) -> (r: usize)
    ensures
        r as int == eligible_count(scouting@, scouting@.len() as int),
{
    let n = scouting.len();
    let mut seen: usize = 0;
    let mut j: usize = 0;
    while j < n
        invariant
            j <= n,
            seen as int == eligible_count(scouting@, j as int),
            seen <= j,
        decreases n - j,
    {
        if !scouting[j] {
            seen = seen + 1;
        }
        j = j + 1;
    }
    seen
}

/// Total eligible weight, accumulated exactly (the sum of at most
/// `usize::MAX` values of at most `u64::MAX` fits a `u128`).
fn sum_eligible(weights: &Vec<u64>, scouting: &Vec<bool>) -> (r: u128)
    requires
        weights@.len() == scouting@.len(),
    ensures
        r as int == eligible_total(weights@, scouting@),
{
    let n = weights.len();
    let mut acc: u128 = 0;
    let mut j: usize = 0;
    while j < n
        invariant
            j <= n,
            acc as int == eligible_prefix(weights@, scouting@, j as int),
        decreases n - j,
    {
        proof {
            lemma_eligible_prefix_bounds(weights@, scouting@, j as int);
            assert((j as int) * (u64::MAX as int) + (u64::MAX as int)
                <= (u128::MAX as int)) by (nonlinear_arith)
                requires 0 <= j as int <= usize::MAX as int;
        }
        if !scouting[j] {
            acc = acc + (weights[j] as u128);
        }
        j = j + 1;
    }
    acc
}

} // verus!
