use vstd::prelude::*;

verus! {

/// Settings of one search run.
#[derive(Debug, Clone, Copy)]
pub struct Config {
    /// Whether the initial candidate and each accepted improvement are reported.
    pub verbose: bool,
}

impl Default for Config {
    fn default() -> (r: Config)
        ensures
            !r.verbose,
    {
        Config { verbose: false }
    }
}

/// A challenger replaces the incumbent only when it scores strictly higher.
pub open spec fn improves(best_score: u64, challenger_score: u64) -> bool {
    challenger_score > best_score
}

/// A search is done once its best score reaches the provider's maximum.
pub open spec fn solved(score: u64, max_fitness: nat) -> bool {
    score >= max_fitness
}

/// The acceptance rule: strict improvement only; ties keep the incumbent.
pub fn accepts(best_score: u64, challenger_score: u64) -> (r: bool)
    ensures
        r == improves(best_score, challenger_score),
{
    challenger_score > best_score
}

/// The termination rule: the best score has reached the maximum.
pub fn is_solved(score: u64, max_fitness: u64) -> (r: bool)
    ensures
        r == solved(score, max_fitness as nat),
{
    score >= max_fitness
}

/// Installs `challenger` as the incumbent when it scores strictly higher;
/// otherwise leaves the incumbent as it was. Returns whether it was installed.
pub fn keep_better<M>(best: &mut M, best_score: &mut u64, challenger: M, challenger_score: u64) -> (accepted: bool)
    ensures
        accepted == improves(*old(best_score), challenger_score),
        accepted ==> *final(best) == challenger && *final(best_score) == challenger_score,
        !accepted ==> *final(best) == *old(best) && *final(best_score) == *old(best_score),
{
    if accepts(*best_score, challenger_score) {
        *best = challenger;
        *best_score = challenger_score;
        true
    } else {
        false
    }
}

/// A score equal to the incumbent's never replaces it.
pub proof fn lemma_tie_keeps_incumbent(score: u64)
    ensures
        !improves(score, score),
{
}

/// The scores accepted during a climb, the first candidate's included: each
/// higher than the one before, none but the last at the maximum, and the last
/// the best score.
pub open spec fn accepted_run(scores: Seq<u64>, best_score: u64, max_fitness: nat) -> bool {
    &&& scores.len() >= 1
    &&& scores.last() == best_score
    &&& forall|i: int| 0 <= i < scores.len() - 1 ==> #[trigger] scores[i] < scores[i + 1]
    &&& forall|i: int| 0 <= i < scores.len() - 1 ==> !solved(#[trigger] scores[i], max_fitness)
}

/// The mutation counts at which a climb of `total_steps` mutations accepted
/// `count` scores: the first at zero, each later one at a higher count, and
/// none beyond `total_steps`.
pub open spec fn acceptance_steps(steps: Seq<u64>, count: nat, total_steps: u64) -> bool {
    &&& steps.len() == count
    &&& count >= 1
    &&& steps[0] == 0
    &&& forall|i: int| 0 <= i < steps.len() - 1 ==> #[trigger] steps[i] < steps[i + 1]
    &&& steps.last() <= total_steps
}

/// Along a climb, every accepted score is higher than each one accepted before it.
pub proof fn lemma_accepted_scores_increase(
    scores: Seq<u64>,
    best_score: u64,
    max_fitness: nat,
    i: int,
    j: int,
)
    requires
        accepted_run(scores, best_score, max_fitness),
        0 <= i < j < scores.len(),
    ensures
        scores[i] < scores[j],
    decreases j - i,
{
    if j > i + 1 {
        lemma_accepted_scores_increase(scores, best_score, max_fitness, i, j - 1);
    }
    assert(scores[j - 1] < scores[j]);
}

/// The outcome of a climb.
pub struct Run<M> {
    /// The best candidate found.
    pub best: M,
    /// Its score.
    pub best_score: u64,
    /// The number of mutations made.
    pub steps: u64,
    /// The score of the first candidate, then of each accepted challenger.
    pub accepted_scores: Vec<u64>,
    /// For each entry of `accepted_scores`, the number of mutations made when
    /// it was reached: zero for the first candidate.
    pub accepted_steps: Vec<u64>,
}

/// A search space explored by mutation-only hill climbing.
///
/// A provider generates candidates, scores them with an integer fitness in
/// `0..=max_fitness`, and derives neighbours by a small mutation. The engine
/// methods (`climb_step`, `evolve_within`, `evolve`) are written once here.
pub trait Evolution {
    type Member;

    type Gene;

    /// The provider's own configuration is usable for a search.
    spec fn well_formed(&self) -> bool;

    /// `m` is a candidate of this search space.
    spec fn valid(&self, m: Self::Member) -> bool;

    /// The score of a candidate.
    spec fn fitness(&self, m: Self::Member) -> nat;

    /// The score at which the search space is solved.
    spec fn max_fitness_spec(&self) -> nat;

    /// `n` is one mutation away from `m`.
    spec fn neighbour(&self, m: Self::Member, n: Self::Member) -> bool;

    /// Scores stay within `0..=max_fitness`, and the maximum fits a `u64`.
    proof fn lemma_fitness_bounded(&self, m: Self::Member)
        requires
            self.well_formed(),
            self.valid(m),
        ensures
            self.fitness(m) <= self.max_fitness_spec(),
            self.max_fitness_spec() <= u64::MAX,
    ;

    /// Whether a search can run: `well_formed`, tested on the values.
    fn is_ready(&self) -> (r: bool)
        ensures
            r == self.well_formed(),
    ;

    fn max_fitness(&self) -> (r: u64)
        requires
            self.well_formed(),
        ensures
            r as nat == self.max_fitness_spec(),
    ;

    fn generate_member(&self) -> (m: Self::Member)
        requires
            self.well_formed(),
        ensures
            self.valid(m),
    ;

    fn get_fitness(&self, member: &Self::Member) -> (r: u64)
        requires
            self.well_formed(),
            self.valid(*member),
        ensures
            r as nat == self.fitness(*member),
    ;

    /// Derives a new candidate; `member` itself is left as it was.
    fn mutate(&self, member: &Self::Member) -> (m: Self::Member)
        requires
            self.well_formed(),
            self.valid(*member),
        ensures
            self.valid(m),
            self.neighbour(*member, m),
    ;

    /// One round of the climb: mutate the incumbent, score the challenger, and
    /// keep it only if it scores strictly higher. Returns whether it was kept.
    fn climb_step(&self, best: &mut Self::Member, best_score: &mut u64) -> (accepted: bool)
        requires
            self.well_formed(),
            self.valid(*old(best)),
            *old(best_score) as nat == self.fitness(*old(best)),
        ensures
            self.valid(*final(best)),
            *final(best_score) as nat == self.fitness(*final(best)),
            *final(best_score) >= *old(best_score),
            accepted == improves(*old(best_score), *final(best_score)),
            accepted ==> self.neighbour(*old(best), *final(best)),
            !accepted ==> *final(best) == *old(best) && *final(best_score) == *old(best_score),
    {
        let challenger = self.mutate(best);
        let challenger_score = self.get_fitness(&challenger);
        keep_better(best, best_score, challenger, challenger_score)
    }

    /// Climbs from a generated candidate for at most `max_steps` mutations,
    /// stopping as soon as the best score reaches the maximum.
    fn evolve_within(&self, max_steps: u64) -> (r: Run<Self::Member>)
        requires
            self.well_formed(),
        ensures
            self.valid(r.best),
            r.best_score as nat == self.fitness(r.best),
            r.steps <= max_steps,
            solved(r.best_score, self.max_fitness_spec()) || r.steps == max_steps,
            accepted_run(r.accepted_scores@, r.best_score, self.max_fitness_spec()),
            acceptance_steps(r.accepted_steps@, r.accepted_scores@.len(), r.steps),
            solved(r.best_score, self.max_fitness_spec()) ==> r.accepted_steps@.last() == r.steps,
            solved(r.accepted_scores@[0], self.max_fitness_spec()) ==> r.steps == 0,
    {
        let max = self.max_fitness();
        let mut best = self.generate_member();
        let mut best_score = self.get_fitness(&best);
        let mut accepted_scores: Vec<u64> = Vec::new();
        accepted_scores.push(best_score);
        let mut accepted_steps: Vec<u64> = Vec::new();
        accepted_steps.push(0);
        let mut steps: u64 = 0;
        while steps < max_steps && !is_solved(best_score, max)
            invariant
                self.well_formed(),
                self.valid(best),
                best_score as nat == self.fitness(best),
                max as nat == self.max_fitness_spec(),
                steps <= max_steps,
                accepted_run(accepted_scores@, best_score, max as nat),
                acceptance_steps(accepted_steps@, accepted_scores@.len(), steps),
                solved(best_score, max as nat) ==> accepted_steps@.last() == steps,
                steps > 0 ==> !solved(accepted_scores@[0], max as nat),
            decreases max_steps - steps,
        {
            let ghost before = accepted_scores@;
            let ghost before_steps = accepted_steps@;
            let next = steps + 1;
            if self.climb_step(&mut best, &mut best_score) {
                accepted_scores.push(best_score);
                accepted_steps.push(next);
                assert(accepted_scores@[0] == before[0]);
                assert(accepted_steps@[0] == before_steps[0]);
            }
            steps = next;
        }
        Run { best, best_score, steps, accepted_scores, accepted_steps }
    }

    /// Climbs from a generated candidate until its score reaches the maximum
    /// (with a budget of `u64::MAX` mutations). Returns the best candidate and
    /// its score.
    fn evolve(&self) -> (r: (Self::Member, u64))
        requires
            self.well_formed(),
        ensures
            self.valid(r.0),
            r.1 as nat == self.fitness(r.0),
    {
        let run = self.evolve_within(u64::MAX);
        (run.best, run.best_score)
    }
}

} // verus!
