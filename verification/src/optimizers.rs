//! Prompt optimisation: candidates, the seeded random-number stream, single-point crossover of
//! prompt text, population upkeep through a caller's candidate generator, and trial planning.
use vstd::prelude::*;

use crate::dataset::metadata_view;
use crate::overlap::views;
use crate::string_map::StringMap;
use crate::text::{chars_of, push_str, string_of, to_owned_string, words, CharClass};
use crate::traditional::{join_range, join_tokens};

verus! {

/// A prompt candidate: an id, the prompt text, an optional model and string parameters.
#[derive(Debug)]
pub struct OptimizationCandidate {
    pub id: String,
    pub prompt: String,
    pub model: Option<String>,
    pub parameters: StringMap<String>,
}

/// The contents of a candidate.
pub struct CandidateView {
    pub id: Seq<char>,
    pub prompt: Seq<char>,
    pub model: Option<Seq<char>>,
    pub parameters: Map<Seq<char>, Seq<char>>,
}

impl View for OptimizationCandidate {
    type V = CandidateView;

    open spec fn view(&self) -> CandidateView {
        CandidateView {
            id: self.id@,
            prompt: self.prompt@,
            model: crate::dataset::opt_string_view(self.model),
            parameters: metadata_view(self.parameters@),
        }
    }
}

impl Clone for OptimizationCandidate {
    fn clone(&self) -> (out: Self)
        ensures
            out@ == self@,
    {
        let parameters = self.parameters.clone();
        proof {
            crate::string_map::lemma_cloned_strings(self.parameters@, parameters@);
        }
        OptimizationCandidate {
            id: self.id.clone(),
            prompt: self.prompt.clone(),
            model: match &self.model {
                Some(m) => Some(m.clone()),
                None => None,
            },
            parameters,
        }
    }
}

impl OptimizationCandidate {
    /// A candidate with no model and no parameters.
    pub fn new(id: &str, prompt: &str) -> (c: Self)
        ensures
            c@ == (CandidateView {
                id: id@,
                prompt: prompt@,
                model: None,
                parameters: Map::empty(),
            }),
    {
        let c = OptimizationCandidate {
            id: to_owned_string(id),
            prompt: to_owned_string(prompt),
            model: None,
            parameters: StringMap::new(),
        };
        assert(c@.parameters =~= Map::<Seq<char>, Seq<char>>::empty());
        c
    }

    /// The same candidate with its model set.
    pub fn with_model(self, model: &str) -> (c: Self)
        ensures
            c@ == (CandidateView { model: Some(model@), ..self@ }),
    {
        let mut c = self;
        c.model = Some(to_owned_string(model));
        c
    }

    /// The same candidate with one parameter set (an existing value for the key is replaced).
    pub fn with_parameter(self, key: &str, value: &str) -> (c: Self)
        ensures
            c@ == (CandidateView { parameters: self@.parameters.insert(key@, value@), ..self@ }),
    {
        let mut c = self;
        let v = to_owned_string(value);
        c.parameters.insert(to_owned_string(key), v);
        assert(c@.parameters =~= self@.parameters.insert(key@, value@));
        c
    }
}

/// A source of prompt candidates: the starting population, and a seeded mutation of a
/// candidate. Callers of the optimiser implement it.
pub trait CandidateGenerator {
    fn initial_candidates(&self) -> Vec<OptimizationCandidate>;

    fn mutate(&self, candidate: &OptimizationCandidate, seed: u64) -> OptimizationCandidate;
}

/// The settings of the genetic optimiser.
#[derive(Debug, Clone, Copy, PartialEq, Eq)]
pub struct GeneticOptimizerConfig {
    pub seed: u64,
    pub generations: usize,
    pub population_size: usize,
}

/// The optimiser families.
#[derive(Debug, Clone, Copy, PartialEq, Eq, Hash, PartialOrd, Ord, Structural)]
pub enum OptimizerFamily {
    Genetic,
    Dspy,
    MiproV2,
}

/// Where an optimiser runs.
#[derive(Debug, Clone, Copy, PartialEq, Eq, Hash, PartialOrd, Ord, Structural)]
pub enum OptimizerRuntime {
    RustNative,
    PythonRuntime,
}

/// One planned MIPROv2 trial.
#[derive(Debug, Clone, PartialEq, Eq)]
pub struct MiproV2Trial {
    pub index: usize,
    pub seed: u64,
    pub candidate_limit: usize,
}

/// One step of the seeded linear congruential generator:
/// `state * 6364136223846793005 + 1442695040888963407`, wrapping modulo 2^64.
pub open spec fn next_state(s: u64) -> u64 {
    vstd::wrapping::u64_specs::wrapping_add(
        vstd::wrapping::u64_specs::wrapping_mul(s, 6364136223846793005u64),
        1442695040888963407u64,
    )
}

/// The generator's state after `n` steps from `seed`.
pub open spec fn seed_after(seed: u64, n: nat) -> u64
    decreases n,
{
    if n == 0 {
        seed
    } else {
        next_state(seed_after(seed, (n - 1) as nat))
    }
}

/// Advances the generator one step and returns the new state.
pub fn next_seed(state: &mut u64) -> (r: u64)
    ensures
        *final(state) == next_state(*old(state)),
        r == *final(state),
{
    *state = state.wrapping_mul(6364136223846793005u64).wrapping_add(1442695040888963407u64);
    *state
}

/// The MIPROv2 trial plan: `trials` trials, trial `i` with the generator state after `i` steps
/// from `seed` and a candidate limit of `4 * (i + 1)`.
pub fn plan_mipro_v2_trials(seed: u64, trials: usize) -> (r: Vec<MiproV2Trial>)
    requires
        trials * 4 <= usize::MAX,
    ensures
        r@.len() == trials,
        forall|i: int|
            0 <= i < trials ==> {
                &&& (#[trigger] r@[i]).index == i
                &&& r@[i].seed == seed_after(seed, i as nat)
                &&& r@[i].candidate_limit == 4 * (i + 1)
            },
{
    let mut state = seed;
    let mut r: Vec<MiproV2Trial> = Vec::new();
    let mut index: usize = 0;
    while index < trials
        invariant
            trials * 4 <= usize::MAX,
            index <= trials,
            r@.len() == index,
            index > 0 ==> state == seed_after(seed, (index - 1) as nat),
            index == 0 ==> state == seed,
            forall|i: int|
                0 <= i < index ==> {
                    &&& (#[trigger] r@[i]).index == i
                    &&& r@[i].seed == seed_after(seed, i as nat)
                    &&& r@[i].candidate_limit == 4 * (i + 1)
                },
        decreases trials - index,
    {
        let trial_seed = if index == 0 {
            state
        } else {
            next_seed(&mut state)
        };
        assert(trial_seed == seed_after(seed, index as nat));
        r.push(MiproV2Trial { index, seed: trial_seed, candidate_limit: (index + 1) * 4 });
        index = index + 1;
    }
    r
}

/// The prompt of a crossover child: the whitespace-separated words of both parents, cut at
/// `seed mod (span + 1)` where `span` is the longer parent's word count; the child has the left
/// parent's words before the cut and the right parent's words from the cut on, joined by single
/// spaces. Empty when both parents have no words.
pub open spec fn crossover_prompt(left: Seq<char>, right: Seq<char>, seed: u64) -> Seq<char> {
    let lw = words(left);
    let rw = words(right);
    let span = if lw.len() >= rw.len() { lw.len() } else { rw.len() };
    if span == 0 {
        Seq::empty()
    } else {
        let cut = (seed as nat) % (span + 1);
        let lcut = if cut <= lw.len() { cut as int } else { lw.len() as int };
        let rcut = if cut <= rw.len() { cut as int } else { rw.len() as int };
        join_tokens(lw.take(lcut) + rw.skip(rcut))
    }
}

/// The crossover child of two candidates (see `crossover_prompt_text`).
pub open spec fn crossover_child(left: CandidateView, right: CandidateView, seed: u64) -> CandidateView {
    CandidateView {
        id: left.id + "x"@ + right.id,
        prompt: crossover_prompt(left.prompt, right.prompt, seed),
        model: left.model,
        parameters: left.parameters,
    }
}

/// The child of a single-point crossover of two candidates' prompt text: its prompt is
/// `crossover_prompt`, its id is `<left id>x<right id>`, and it keeps the left parent's model and
/// parameters. The cut point depends on `seed` alone, so one seed always gives one child.
pub fn crossover_prompt_text(left: &OptimizationCandidate, right: &OptimizationCandidate, seed: u64) -> (child: OptimizationCandidate)
    ensures
        child@ == crossover_child(left@, right@, seed),
{
    let left_chars = chars_of(left.prompt.as_str());
    let right_chars = chars_of(right.prompt.as_str());
    let left_tokens = crate::text::split_pieces(&left_chars, CharClass::Whitespace);
    let right_tokens = crate::text::split_pieces(&right_chars, CharClass::Whitespace);
    let ghost lw = words(left@.prompt);
    let ghost rw = words(right@.prompt);
    assert(views(left_tokens@) == lw);
    assert(views(right_tokens@) == rw);
    let span = if left_tokens.len() >= right_tokens.len() {
        left_tokens.len()
    } else {
        right_tokens.len()
    };
    let prompt = if span == 0 {
        String::new()
    } else {
        let wide: u128 = (seed as u128) % (span as u128 + 1);
        assert(wide <= span);
        let cut = wide as usize;
        let lcut = if cut <= left_tokens.len() { cut } else { left_tokens.len() };
        let rcut = if cut <= right_tokens.len() { cut } else { right_tokens.len() };
        let mut joined: Vec<Vec<char>> = Vec::new();
        let mut i: usize = 0;
        while i < lcut
            invariant
                lcut <= left_tokens@.len(),
                i <= lcut,
                views(joined@) == views(left_tokens@).take(i as int),
            decreases lcut - i,
        {
            let ghost before = views(joined@);
            joined.push(left_tokens[i].clone());
            assert(views(joined@) =~= before.push(left_tokens@[i as int]@));
            assert(views(left_tokens@).take(i + 1) =~= views(left_tokens@).take(i as int).push(left_tokens@[i as int]@));
            i = i + 1;
        }
        let mut j: usize = rcut;
        while j < right_tokens.len()
            invariant
                rcut <= j <= right_tokens@.len(),
                views(joined@) == lw.take(lcut as int) + rw.subrange(rcut as int, j as int),
                lw == views(left_tokens@),
                rw == views(right_tokens@),
                lcut <= lw.len(),
            decreases right_tokens@.len() - j,
        {
            let ghost before = views(joined@);
            joined.push(right_tokens[j].clone());
            assert(views(joined@) =~= before.push(right_tokens@[j as int]@));
            assert(rw.subrange(rcut as int, j + 1) =~= rw.subrange(rcut as int, j as int).push(rw[j as int]));
            assert(lw.take(lcut as int) + rw.subrange(rcut as int, j + 1) =~= (lw.take(lcut as int) + rw.subrange(rcut as int, j as int)).push(rw[j as int]));
            j = j + 1;
        }
        assert(rw.subrange(rcut as int, rw.len() as int) =~= rw.skip(rcut as int));
        assert(views(joined@) == lw.take(lcut as int) + rw.skip(rcut as int));
        if joined.len() == 0 {
            assert(views(joined@) =~= Seq::<Seq<char>>::empty());
            String::new()
        } else {
            let out = join_range(&joined, 0, joined.len());
            assert(views(joined@).subrange(0, joined@.len() as int) =~= views(joined@));
            string_of(&out)
        }
    };
    let mut id = left.id.clone();
    push_str(&mut id, "x");
    push_str(&mut id, right.id.as_str());
    let parameters = left.parameters.clone();
    proof {
        crate::string_map::lemma_cloned_strings(left.parameters@, parameters@);
    }
    OptimizationCandidate {
        id,
        prompt,
        model: match &left.model {
            Some(m) => Some(m.clone()),
            None => None,
        },
        parameters,
    }
}

/// The number of candidates that `normalize_population` makes by mutation: a population of
/// `given` candidates (one when there are none) is filled up to `population_size`.
pub open spec fn fill_steps(given: nat, population_size: nat) -> nat {
    let start: nat = if given == 0 { 1 } else { given };
    if start < population_size { (population_size - start) as nat } else { 0 }
}

/// Whether candidate `i` of a population is the generator's mutation of candidate `i - 1`
/// with the generator's state after `i - start + 1` steps from `s0`.
pub open spec fn filled_by<G: CandidateGenerator>(
    generator: &G,
    pop: Seq<OptimizationCandidate>,
    s0: u64,
    start: int,
    i: int,
) -> bool {
    call_ensures(G::mutate, (generator, &pop[i - 1], seed_after(s0, (i - start + 1) as nat)), pop[i])
}

/// The size of the starting population: the given candidates, or the one stand-in when there
/// are none.
pub open spec fn start_size(given: nat) -> nat {
    if given == 0 { 1 } else { given }
}

/// The candidate that stands in for an empty starting population.
pub open spec fn seed_candidate() -> CandidateView {
    CandidateView { id: "seed"@, prompt: Seq::empty(), model: None, parameters: Map::empty() }
}

/// The population that the optimiser starts from: the given candidates (a single empty
/// `seed` candidate when there are none), extended by mutating the last member until there are
/// `population_size`, then cut to `population_size`. Each mutation takes one step of the
/// generator.
pub fn normalize_population<G: CandidateGenerator>(
    candidates: Vec<OptimizationCandidate>,
    population_size: usize,
    generator: &G,
    rng_state: &mut u64,
) -> (out: Vec<OptimizationCandidate>)
    ensures
        out@.len() == population_size,
        candidates@.len() == 0 && population_size > 0 ==> out@[0]@ == seed_candidate(),
        forall|i: int|
            0 <= i < candidates@.len() && i < population_size ==> (#[trigger] out@[i])@ == candidates@[i]@,
        forall|i: int|
            start_size(candidates@.len()) <= i < population_size ==> #[trigger] filled_by(
                generator,
                out@,
                *old(rng_state),
                start_size(candidates@.len()) as int,
                i,
            ),
        *final(rng_state) == seed_after(*old(rng_state), fill_steps(candidates@.len(), population_size as nat)),
{
    let mut pop = candidates;
    let ghost given = pop@;
    if pop.len() == 0 {
        let c = OptimizationCandidate::new("seed", "");
        assert(c@.prompt == Seq::<char>::empty()) by {
            reveal_strlit("");
        }
        pop.push(c);
    }
    let ghost start: nat = pop@.len();
    let ghost s0 = *rng_state;
    let ghost first = pop@[0];
    while pop.len() < population_size
        invariant
            start <= pop@.len(),
            start == (if given.len() == 0 { 1nat } else { given.len() }),
            start < population_size ==> pop@.len() <= population_size,
            start >= population_size ==> pop@.len() == start,
            pop@[0] == first,
            forall|i: int| 0 <= i < given.len() ==> (#[trigger] pop@[i]) == given[i],
            forall|i: int| start <= i < pop@.len() ==> #[trigger] filled_by(generator, pop@, s0, start as int, i),
            *rng_state == seed_after(s0, (pop@.len() - start) as nat),
        decreases population_size - pop@.len(),
    {
        let last = pop.len() - 1;
        let s = next_seed(rng_state);
        let child = generator.mutate(&pop[last], s);
        let ghost before = pop@;
        pop.push(child);
        proof {
            assert forall|i: int| start <= i < pop@.len() implies #[trigger] filled_by(generator, pop@, s0, start as int, i) by {
                if i < before.len() {
                    assert(filled_by(generator, before, s0, start as int, i));
                    assert(pop@[i] == before[i] && pop@[i - 1] == before[i - 1]);
                } else {
                    assert(pop@[i - 1] == before[last as int]);
                }
            }
        }
    }
    assert(*rng_state == seed_after(s0, fill_steps(given.len(), population_size as nat)));
    let ghost full = pop@;
    pop.truncate(population_size);
    proof {
        assert forall|i: int| start <= i < population_size implies #[trigger] filled_by(generator, pop@, s0, start as int, i) by {
            assert(filled_by(generator, full, s0, start as int, i));
            assert(pop@[i] == full[i] && pop@[i - 1] == full[i - 1]);
        }
    }
    pop
}

/// Whether `child` is the generator's mutation, with the generator's state after `2k + 2` steps
/// from `s0`, of a candidate equal to the crossover of the two elites cut with the state after
/// `2k + 1` steps.
pub open spec fn bred_from<G: CandidateGenerator>(
    generator: &G,
    primary: OptimizationCandidate,
    secondary: OptimizationCandidate,
    s0: u64,
    k: int,
    child: OptimizationCandidate,
) -> bool {
    exists|crossed: OptimizationCandidate| {
        &&& crossed@ == crossover_child(primary@, secondary@, seed_after(s0, (2 * k + 1) as nat))
        &&& #[trigger] call_ensures(G::mutate, (generator, &crossed, seed_after(s0, (2 * k + 2) as nat)), child)
    }
}

/// The parents and seeds of the next generation: for child `k`, the crossover of the two elites
/// cut with the generator's state after `2k + 1` steps, and the state after `2k + 2` steps to
/// mutate it with. The generator advances two steps per child.
pub fn breeding_plan(
    primary: &OptimizationCandidate,
    secondary: &OptimizationCandidate,
    population_size: usize,
    rng_state: &mut u64,
) -> (plan: Vec<(OptimizationCandidate, u64)>)
    ensures
        plan@.len() == population_size,
        forall|k: int| 0 <= k < population_size ==> {
            &&& (#[trigger] plan@[k]).0@ == crossover_child(primary@, secondary@, seed_after(*old(rng_state), (2 * k + 1) as nat))
            &&& plan@[k].1 == seed_after(*old(rng_state), (2 * k + 2) as nat)
        },
        *final(rng_state) == seed_after(*old(rng_state), 2 * population_size as nat),
{
    let ghost s0 = *rng_state;
    let mut plan: Vec<(OptimizationCandidate, u64)> = Vec::new();
    let mut k: usize = 0;
    while k < population_size
        invariant
            k <= population_size,
            plan@.len() == k,
            *rng_state == seed_after(s0, 2 * k as nat),
            forall|j: int| 0 <= j < k ==> {
                &&& (#[trigger] plan@[j]).0@ == crossover_child(primary@, secondary@, seed_after(s0, (2 * j + 1) as nat))
                &&& plan@[j].1 == seed_after(s0, (2 * j + 2) as nat)
            },
        decreases population_size - k,
    {
        let cut_seed = next_seed(rng_state);
        assert(cut_seed == seed_after(s0, (2 * k + 1) as nat));
        let crossed = crossover_prompt_text(primary, secondary, cut_seed);
        let mutation_seed = next_seed(rng_state);
        assert(mutation_seed == seed_after(s0, (2 * k + 2) as nat));
        plan.push((crossed, mutation_seed));
        k = k + 1;
    }
    plan
}

/// The next generation: `population_size` children, child `k` the generator's mutation of the
/// crossover of the two elites, with the seeds of `breeding_plan`.
pub fn breed_population<G: CandidateGenerator>(
    primary: &OptimizationCandidate,
    secondary: &OptimizationCandidate,
    population_size: usize,
    generator: &G,
    rng_state: &mut u64,
) -> (out: Vec<OptimizationCandidate>)
    ensures
        out@.len() == population_size,
        forall|k: int| 0 <= k < population_size ==> #[trigger] bred_from(generator, *primary, *secondary, *old(rng_state), k, out@[k]),
        *final(rng_state) == seed_after(*old(rng_state), 2 * population_size as nat),
{
    let ghost s0 = *rng_state;
    let plan = breeding_plan(primary, secondary, population_size, rng_state);
    let mut out: Vec<OptimizationCandidate> = Vec::new();
    let mut k: usize = 0;
    while k < plan.len()
        invariant
            plan@.len() == population_size,
            k <= population_size,
            out@.len() == k,
            forall|j: int| 0 <= j < population_size ==> {
                &&& (#[trigger] plan@[j]).0@ == crossover_child(primary@, secondary@, seed_after(s0, (2 * j + 1) as nat))
                &&& plan@[j].1 == seed_after(s0, (2 * j + 2) as nat)
            },
            forall|j: int| 0 <= j < k ==> call_ensures(G::mutate, (generator, &plan@[j].0, plan@[j].1), #[trigger] out@[j]),
        decreases population_size - k,
    {
        let step = &plan[k];
        out.push(generator.mutate(&step.0, step.1));
        k = k + 1;
    }
    assert forall|j: int| 0 <= j < population_size implies #[trigger] bred_from(generator, *primary, *secondary, s0, j, out@[j]) by {
        let crossed = plan@[j].0;
        assert(call_ensures(G::mutate, (generator, &crossed, plan@[j].1), out@[j]));
    }
    out
}


} // verus!
