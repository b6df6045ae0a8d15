use hackathon::config::{Args, ConfigError};
use hackathon::partition::{partition, per_thread_amount};

#[test]
fn amounts_follow_quotient_and_remainder() {
    assert_eq!(per_thread_amount(0, 10, 4), 3);
    assert_eq!(per_thread_amount(1, 10, 4), 3);
    assert_eq!(per_thread_amount(2, 10, 4), 2);
    assert_eq!(per_thread_amount(3, 10, 4), 2);
}

#[test]
fn amount_of_an_even_split() {
    assert_eq!(per_thread_amount(0, 4000, 6), 667);
    assert_eq!(per_thread_amount(3, 4000, 6), 667);
    assert_eq!(per_thread_amount(4, 4000, 6), 666);
    assert_eq!(per_thread_amount(5, 4000, 6), 666);
    assert_eq!(per_thread_amount(1, 80, 2), 40);
}

#[test]
fn amount_with_one_worker_is_the_total() {
    assert_eq!(per_thread_amount(0, usize::MAX, 1), usize::MAX);
    assert_eq!(per_thread_amount(0, 0, 1), 0);
}

#[test]
fn amount_at_the_machine_limit() {
    assert_eq!(per_thread_amount(0, usize::MAX, 2), usize::MAX / 2 + 1);
    assert_eq!(per_thread_amount(1, usize::MAX, 2), usize::MAX / 2);
}

#[test]
fn partition_gives_remainder_to_the_lowest_indices() {
    assert_eq!(partition(10, 4), Ok(vec![3, 3, 2, 2]));
    assert_eq!(partition(7, 3), Ok(vec![3, 2, 2]));
    assert_eq!(partition(6, 3), Ok(vec![2, 2, 2]));
}

#[test]
fn partition_of_zero_is_all_zero() {
    assert_eq!(partition(0, 3), Ok(vec![0, 0, 0]));
}

#[test]
fn partition_with_more_workers_than_units() {
    assert_eq!(partition(2, 5), Ok(vec![1, 1, 0, 0, 0]));
}

#[test]
fn partition_among_zero_workers_is_refused() {
    assert_eq!(partition(10, 0), Err(ConfigError::NoWorkers));
    assert_eq!(partition(0, 0), Err(ConfigError::NoWorkers));
}

#[test]
fn partition_sums_to_total_and_is_balanced() {
    for total in 0..40usize {
        for workers in 1..9usize {
            let counts = partition(total, workers).unwrap();
            assert_eq!(counts.len(), workers);
            assert_eq!(counts.iter().sum::<usize>(), total);
            let most = *counts.iter().max().unwrap();
            let least = *counts.iter().min().unwrap();
            assert!(most - least <= 1);
        }
    }
}

#[test]
fn validate_accepts_positive_values() {
    let args = Args { num_ideas: 80, num_idea_gen: 2, num_pkgs: 4000, num_pkg_gen: 6, num_students: 6 };
    assert_eq!(args.validate(), Ok(()));
}

#[test]
fn validate_names_the_first_zero_value() {
    let good = Args { num_ideas: 4, num_idea_gen: 1, num_pkgs: 10, num_pkg_gen: 1, num_students: 2 };
    assert_eq!(Args { num_ideas: 0, ..good }.validate(), Err(ConfigError::NoIdeas));
    assert_eq!(Args { num_idea_gen: 0, ..good }.validate(), Err(ConfigError::NoIdeaGenerators));
    assert_eq!(Args { num_pkgs: 0, ..good }.validate(), Err(ConfigError::NoPackages));
    assert_eq!(Args { num_pkg_gen: 0, ..good }.validate(), Err(ConfigError::NoPackageGenerators));
    assert_eq!(Args { num_students: 0, ..good }.validate(), Err(ConfigError::NoStudents));
    assert_eq!(
        Args { num_ideas: 0, num_idea_gen: 0, num_pkgs: 0, num_pkg_gen: 0, num_students: 0 }.validate(),
        Err(ConfigError::NoIdeas)
    );
    assert_eq!(Args { num_pkgs: 0, num_students: 0, ..good }.validate(), Err(ConfigError::NoPackages));
    assert_eq!(
        Args { num_idea_gen: 5, ..good }.validate(),
        Err(ConfigError::IdleIdeaGenerator)
    );
    assert_eq!(Args { num_idea_gen: 4, ..good }.validate(), Ok(()));
}
