use genetic::engine::{accepts, is_solved, keep_better};
use genetic::{Config, Evolution, Genes, OneMaximizer};

#[test]
fn guess_size_10() {
    let target = 10;
    let guesser = OneMaximizer::new(target);
    let (best_guess, _) = guesser.evolve();
    assert_eq!(target, best_guess.iter().filter(|&x| *x == true).count());
}

#[test]
fn guess_size_1000() {
    let target = 1000;
    let guesser = OneMaximizer::new(target);
    let (best_guess, _) = guesser.evolve();
    assert_eq!(target, best_guess.iter().filter(|&x| *x == true).count());
}

#[test]
fn size_10_reaches_full_score() {
    let guesser = OneMaximizer::new(10);
    let (best_guess, best_score) = guesser.evolve();
    assert_eq!(best_score, 10);
    assert_eq!(best_guess.len(), 10);
    assert_eq!(best_guess.to_text(), "1111111111");
}

#[test]
fn fitness_counts_set_bits() {
    let guesser = OneMaximizer::new(4);
    assert_eq!(guesser.get_fitness(&Genes(vec![true, false, true, true])), 3);
    assert_eq!(guesser.get_fitness(&Genes(vec![false, false, false, false])), 0);
    assert_eq!(guesser.max_fitness(), 4);
}

#[test]
fn flipped_inverts_one_bit_only() {
    let genes = Genes(vec![true, false, true]);
    let child = genes.flipped(1);
    assert_eq!(child.0, vec![true, true, true]);
    assert_eq!(genes.0, vec![true, false, true]);
    assert_eq!(genes.flipped(0).0, vec![false, false, true]);
}

#[test]
fn text_of_bits_in_index_order() {
    assert_eq!(Genes(vec![true, false, false, true]).to_text(), "1001");
    assert_eq!(Genes(vec![]).to_text(), "");
}

#[test]
fn mutate_flips_exactly_one_bit_of_a_copy() {
    let guesser = OneMaximizer::new(8);
    let member = Genes(vec![false; 8]);
    let child = guesser.mutate(&member);
    assert_eq!(member.0, vec![false; 8]);
    assert_eq!(guesser.get_fitness(&child), 1);
}

#[test]
fn generated_member_has_target_length() {
    let guesser = OneMaximizer::new(37);
    assert_eq!(guesser.generate_member().len(), 37);
}

#[test]
fn default_maximizer_has_target_100() {
    assert_eq!(OneMaximizer::default().target, 100);
}

#[test]
fn equal_score_is_not_accepted() {
    assert!(!accepts(5, 5));
    assert!(!accepts(5, 4));
    assert!(accepts(5, 6));
    assert!(accepts(0, 1));
}

#[test]
fn solved_at_or_above_maximum() {
    assert!(is_solved(10, 10));
    assert!(is_solved(11, 10));
    assert!(!is_solved(9, 10));
}

#[test]
fn default_config_is_quiet() {
    assert!(!Config::default().verbose);
}

#[test]
fn scores_rise_strictly_at_each_acceptance() {
    let guesser = OneMaximizer::new(50);
    let mut best = guesser.generate_member();
    let mut best_score = guesser.get_fitness(&best);
    let mut accepted_scores = vec![best_score];
    while !is_solved(best_score, guesser.max_fitness()) {
        if guesser.climb_step(&mut best, &mut best_score) {
            accepted_scores.push(best_score);
        }
    }
    for pair in accepted_scores.windows(2) {
        assert_eq!(pair[1], pair[0] + 1);
    }
    assert_eq!(best_score, 50);
}

#[test]
fn zero_target_is_not_ready() {
    assert!(OneMaximizer::new(1).is_ready());
    assert!(!OneMaximizer::new(0).is_ready());
}

#[test]
fn accepted_scores_of_a_run_rise_to_the_maximum() {
    let guesser = OneMaximizer::new(64);
    let run = guesser.evolve_within(u64::MAX);
    assert_eq!(run.best_score, 64);
    assert_eq!(run.best.to_text(), "1".repeat(64));
    assert!(run.accepted_scores.len() as u64 <= run.steps + 1);
    for pair in run.accepted_scores.windows(2) {
        assert!(pair[0] < pair[1]);
        assert!(pair[0] < 64);
    }
    assert_eq!(*run.accepted_scores.last().unwrap(), 64);
}

#[test]
fn exhausted_budget_leaves_score_below_maximum() {
    let guesser = OneMaximizer::new(1000);
    let run = guesser.evolve_within(3);
    assert!(run.steps <= 3);
    assert!(run.best_score < 1000);
    assert_eq!(run.steps, 3);
}

#[test]
fn keep_better_installs_only_a_strictly_better_challenger() {
    let mut best = String::from("old");
    let mut best_score = 3;
    assert!(!keep_better(&mut best, &mut best_score, String::from("tie"), 3));
    assert_eq!((best.as_str(), best_score), ("old", 3));
    assert!(!keep_better(&mut best, &mut best_score, String::from("low"), 2));
    assert_eq!((best.as_str(), best_score), ("old", 3));
    assert!(keep_better(&mut best, &mut best_score, String::from("new"), 4));
    assert_eq!((best.as_str(), best_score), ("new", 4));
}

#[test]
fn no_mutation_follows_the_solving_acceptance() {
    let guesser = OneMaximizer::new(40);
    let run = guesser.evolve_within(u64::MAX);
    assert_eq!(run.best_score, 40);
    assert_eq!(run.accepted_steps.len(), run.accepted_scores.len());
    assert_eq!(run.accepted_steps[0], 0);
    assert_eq!(*run.accepted_steps.last().unwrap(), run.steps);
    for pair in run.accepted_steps.windows(2) {
        assert!(pair[0] < pair[1]);
    }
}
