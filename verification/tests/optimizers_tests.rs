use ragas::optimizers::{
    breed_population, breeding_plan, crossover_prompt_text, next_seed, normalize_population,
    plan_mipro_v2_trials, CandidateGenerator, MiproV2Trial, OptimizationCandidate,
};

#[test]
fn test_crossover_prompt_text_recombines_words() {
    let left = OptimizationCandidate::new("L", "alpha beta gamma");
    let right = OptimizationCandidate::new("R", "one two three");

    let child = crossover_prompt_text(&left, &right, 2);
    assert_eq!(child.prompt, "alpha beta three");
    assert_eq!(child.id, "LxR");

    assert_eq!(crossover_prompt_text(&left, &right, 0).prompt, "one two three");
    assert_eq!(
        crossover_prompt_text(&left, &right, 3).prompt,
        "alpha beta gamma"
    );
}

#[test]
fn test_crossover_prompt_text_handles_empty_prompts() {
    let empty_left = OptimizationCandidate::new("L", "");
    let empty_right = OptimizationCandidate::new("R", "");
    assert_eq!(crossover_prompt_text(&empty_left, &empty_right, 0).prompt, "");
    assert_eq!(crossover_prompt_text(&empty_left, &empty_right, 5).prompt, "");

    let filled = OptimizationCandidate::new("F", "keep this");
    let crossed = crossover_prompt_text(&empty_left, &filled, 0);
    assert_eq!(crossed.prompt, "keep this");
}

#[test]
fn crossover_keeps_left_model_and_parameters() {
    let left = OptimizationCandidate::new("L", "a b")
        .with_model("gpt-a")
        .with_parameter("k", "v");
    let right = OptimizationCandidate::new("R", "x y z");
    let child = crossover_prompt_text(&left, &right, 5);
    assert_eq!(child.model.as_deref(), Some("gpt-a"));
    assert_eq!(child.parameters.get("k").map(String::as_str), Some("v"));
    // span 3, cut 5 % 4 = 1: "a" then "y z".
    assert_eq!(child.prompt, "a y z");
}

#[test]
fn mipro_trials_follow_the_seeded_generator() {
    let trials = plan_mipro_v2_trials(9, 3);
    assert_eq!(
        trials,
        vec![
            MiproV2Trial { index: 0, seed: 9, candidate_limit: 4 },
            MiproV2Trial {
                index: 1,
                seed: 9_u64
                    .wrapping_mul(6364136223846793005)
                    .wrapping_add(1442695040888963407),
                candidate_limit: 8,
            },
            MiproV2Trial {
                index: 2,
                seed: 9_u64
                    .wrapping_mul(6364136223846793005)
                    .wrapping_add(1442695040888963407)
                    .wrapping_mul(6364136223846793005)
                    .wrapping_add(1442695040888963407),
                candidate_limit: 12,
            },
        ]
    );
    let mut state = 9_u64;
    assert_eq!(next_seed(&mut state), trials[1].seed);
    assert_eq!(state, trials[1].seed);
}

struct Suffixer;

impl CandidateGenerator for Suffixer {
    fn initial_candidates(&self) -> Vec<OptimizationCandidate> {
        vec![OptimizationCandidate::new("p0", "start")]
    }

    fn mutate(&self, candidate: &OptimizationCandidate, seed: u64) -> OptimizationCandidate {
        OptimizationCandidate::new(
            &format!("{}-{}", candidate.id, seed % 10),
            &format!("{} more", candidate.prompt),
        )
    }
}

#[test]
fn population_upkeep_fills_truncates_and_advances_the_generator() {
    let generator = Suffixer;
    let mut state = 1_u64;
    let population = normalize_population(generator.initial_candidates(), 3, &generator, &mut state);
    assert_eq!(population.len(), 3);
    assert_eq!(population[0].id, "p0");
    assert_eq!(population[2].prompt, "start more more");
    let mut expected = 1_u64;
    next_seed(&mut expected);
    next_seed(&mut expected);
    assert_eq!(state, expected);

    let mut state = 5_u64;
    let seeded = normalize_population(Vec::new(), 1, &generator, &mut state);
    assert_eq!(seeded[0].id, "seed");
    assert_eq!(seeded[0].prompt, "");
    assert_eq!(state, 5);

    let cut = normalize_population(population, 2, &generator, &mut state);
    assert_eq!(cut.len(), 2);

    let mut state = 7_u64;
    let next = breed_population(&cut[0], &cut[1], 4, &generator, &mut state);
    assert_eq!(next.len(), 4);
    let mut expected = 7_u64;
    for _ in 0..8 {
        next_seed(&mut expected);
    }
    assert_eq!(state, expected);
}

#[test]
fn breeding_crosses_the_elites_then_mutates_with_the_next_seed() {
    let generator = Suffixer;
    let primary = OptimizationCandidate::new("a", "alpha beta gamma");
    let secondary = OptimizationCandidate::new("b", "one two three");
    let mut state = 11_u64;
    let children = breed_population(&primary, &secondary, 2, &generator, &mut state);

    let mut seeds = 11_u64;
    for child in &children {
        let cut_seed = next_seed(&mut seeds);
        let mutation_seed = next_seed(&mut seeds);
        let crossed = crossover_prompt_text(&primary, &secondary, cut_seed);
        let expected = generator.mutate(&crossed, mutation_seed);
        assert_eq!(child.id, expected.id);
        assert_eq!(child.prompt, expected.prompt);
        assert!(child.id.starts_with("axb-"));
    }
    assert_eq!(state, seeds);

    let mut state = 11_u64;
    let plan = breeding_plan(&primary, &secondary, 2, &mut state);
    assert_eq!(plan.len(), 2);
    assert_eq!(plan[0].0.id, "axb");
    assert_eq!(state, seeds);
}
