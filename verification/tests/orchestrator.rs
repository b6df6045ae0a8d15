use hackathon::checksum::Checksum;
use hackathon::config::{Args, ConfigError};
use hackathon::orchestrator::{cross_product, DataSourceError, Hackathon, Report, SetupError};
use hackathon::student::Phase;

fn names(list: &[&str]) -> Vec<String> {
    list.iter().map(|name| name.to_string()).collect()
}

fn fault_of(outcome: Result<Hackathon, SetupError>) -> Option<SetupError> {
    match outcome {
        Ok(_) => None,
        Err(fault) => Some(fault),
    }
}

#[test]
fn cross_product_pairs_each_product_with_each_customer() {
    let pairs = cross_product(&names(&["app", "bot"]), &names(&["cats", "dogs", "owls"]));
    let expected: Vec<(String, String)> = [
        ("app", "cats"),
        ("app", "dogs"),
        ("app", "owls"),
        ("bot", "cats"),
        ("bot", "dogs"),
        ("bot", "owls"),
    ]
    .iter()
    .map(|(p, c)| (p.to_string(), c.to_string()))
    .collect();
    assert_eq!(pairs, expected);
}

#[test]
fn cross_product_with_an_empty_side_is_empty() {
    assert!(cross_product(&names(&[]), &names(&["cats"])).is_empty());
    assert!(cross_product(&names(&["app"]), &names(&[])).is_empty());
}

#[test]
fn workers_get_their_shares_and_starts() {
    let args = Args { num_ideas: 80, num_idea_gen: 2, num_pkgs: 4000, num_pkg_gen: 6, num_students: 6 };
    let run = Hackathon::new(&args, &names(&["app"]), &names(&["cats"]), names(&["gcc"])).ok().unwrap();
    assert_eq!(run.students.len(), 6);
    for (i, student) in run.students.iter().enumerate() {
        assert_eq!(student.id(), i);
        assert_eq!(student.phase(), Phase::Idle);
    }
    let downloads: Vec<(usize, usize)> =
        run.downloaders.iter().map(|d| (d.pkg_start_idx(), d.num_pkgs())).collect();
    assert_eq!(
        downloads,
        vec![(0, 667), (667, 667), (1334, 667), (2001, 667), (2668, 666), (3334, 666)]
    );
    let generators: Vec<(usize, usize, usize, usize)> = run
        .generators
        .iter()
        .map(|g| (g.idea_start_idx(), g.num_ideas(), g.num_pkgs(), g.num_students()))
        .collect();
    assert_eq!(generators, vec![(0, 40, 2000, 3), (40, 40, 2000, 3)]);
}

#[test]
fn uneven_totals_give_the_remainder_to_the_first_workers() {
    let args = Args { num_ideas: 7, num_idea_gen: 3, num_pkgs: 11, num_pkg_gen: 2, num_students: 4 };
    let run = Hackathon::new(&args, &names(&["app"]), &names(&["cats"]), names(&["gcc"])).ok().unwrap();
    let generators: Vec<(usize, usize, usize, usize)> = run
        .generators
        .iter()
        .map(|g| (g.idea_start_idx(), g.num_ideas(), g.num_pkgs(), g.num_students()))
        .collect();
    assert_eq!(generators, vec![(0, 3, 4, 2), (3, 2, 4, 1), (5, 2, 3, 1)]);
    let downloads: Vec<(usize, usize)> =
        run.downloaders.iter().map(|d| (d.pkg_start_idx(), d.num_pkgs())).collect();
    assert_eq!(downloads, vec![(0, 6), (6, 5)]);
}

#[test]
fn invalid_configurations_are_refused() {
    let good = Args { num_ideas: 4, num_idea_gen: 1, num_pkgs: 10, num_pkg_gen: 1, num_students: 2 };
    let cases = [
        (Args { num_ideas: 0, ..good }, ConfigError::NoIdeas),
        (Args { num_idea_gen: 0, ..good }, ConfigError::NoIdeaGenerators),
        (Args { num_pkgs: 0, ..good }, ConfigError::NoPackages),
        (Args { num_pkg_gen: 0, ..good }, ConfigError::NoPackageGenerators),
        (Args { num_students: 0, ..good }, ConfigError::NoStudents),
    ];
    for (args, fault) in cases.iter() {
        let outcome = Hackathon::new(args, &names(&["app"]), &names(&["cats"]), names(&["gcc"]));
        assert_eq!(fault_of(outcome), Some(SetupError::Config(*fault)));
    }
}

#[test]
fn configuration_is_checked_before_the_names() {
    let args = Args { num_ideas: 4, num_idea_gen: 1, num_pkgs: 10, num_pkg_gen: 1, num_students: 0 };
    let outcome = Hackathon::new(&args, &names(&[]), &names(&[]), names(&[]));
    assert_eq!(fault_of(outcome), Some(SetupError::Config(ConfigError::NoStudents)));
}

#[test]
fn empty_name_lists_are_refused() {
    let args = Args { num_ideas: 4, num_idea_gen: 1, num_pkgs: 10, num_pkg_gen: 1, num_students: 2 };
    let outcome = Hackathon::new(&args, &names(&["app"]), &names(&["cats"]), names(&[]));
    assert_eq!(fault_of(outcome), Some(SetupError::DataSource(DataSourceError::NoPackageNames)));
    let outcome = Hackathon::new(&args, &names(&[]), &names(&["cats"]), names(&["gcc"]));
    assert_eq!(fault_of(outcome), Some(SetupError::DataSource(DataSourceError::NoProducts)));
    let outcome = Hackathon::new(&args, &names(&["app"]), &names(&[]), names(&["gcc"]));
    assert_eq!(fault_of(outcome), Some(SetupError::DataSource(DataSourceError::NoCustomers)));
    let outcome = Hackathon::new(&args, &names(&[]), &names(&[]), names(&[]));
    assert_eq!(fault_of(outcome), Some(SetupError::DataSource(DataSourceError::NoPackageNames)));
}

#[test]
fn a_fresh_run_reports_neutral_checksums() {
    let args = Args { num_ideas: 4, num_idea_gen: 1, num_pkgs: 10, num_pkg_gen: 1, num_students: 2 };
    let run = Hackathon::new(&args, &names(&["app"]), &names(&["cats"]), names(&["gcc"])).ok().unwrap();
    let report = run.report();
    assert_eq!(report.idea, Checksum::default());
    assert_eq!(report.student_idea, Checksum::default());
    assert_eq!(report.pkg, Checksum::default());
    assert_eq!(report.student_pkg, Checksum::default());
    assert!(report.consistent());
}

#[test]
fn report_is_consistent_only_when_both_pairs_match() {
    let a = Checksum::with_sha256("a");
    let b = Checksum::with_sha256("b");
    assert!(Report { idea: a, student_idea: a, pkg: b, student_pkg: b }.consistent());
    assert!(!Report { idea: a, student_idea: b, pkg: b, student_pkg: b }.consistent());
    assert!(!Report { idea: a, student_idea: a, pkg: b, student_pkg: a }.consistent());
}

fn run_in_turn(args: &Args) -> Report {
    let products = names(&["app", "bot", "car"]);
    let customers = names(&["cats", "dogs", "owls", "pigs"]);
    let lines = names(&["gcc", "vim", "zsh", "git", "awk"]);
    let mut run = Hackathon::new(args, &products, &customers, lines).ok().unwrap();
    for downloader in run.downloaders.iter_mut() {
        assert_eq!(downloader.run(&mut run.pkg_checksum), Ok(()));
    }
    for generator in run.generators.iter_mut() {
        assert_eq!(generator.run(&mut run.idea_checksum), Ok(()));
    }
    for student in run.students.iter_mut() {
        let outcome = student.run(&mut run.student_idea_checksum, &mut run.student_pkg_checksum, 1_000_000);
        assert_eq!(outcome, Ok(Phase::Terminated));
    }
    run.report()
}

#[test]
fn a_run_in_turn_consumes_what_it_produces() {
    let args = Args { num_ideas: 80, num_idea_gen: 2, num_pkgs: 4000, num_pkg_gen: 6, num_students: 6 };
    let report = run_in_turn(&args);
    assert!(report.consistent());
    assert_ne!(report.idea, Checksum::default());
}

#[test]
fn a_small_run_in_turn_consumes_what_it_produces() {
    let args = Args { num_ideas: 4, num_idea_gen: 1, num_pkgs: 10, num_pkg_gen: 1, num_students: 2 };
    let report = run_in_turn(&args);
    assert!(report.consistent());
    assert_eq!(report.idea, report.student_idea);
    assert_eq!(report.pkg, report.student_pkg);
}

#[test]
fn fewer_ideas_than_idea_producers_are_refused() {
    let args = Args { num_ideas: 1, num_idea_gen: 2, num_pkgs: 10, num_pkg_gen: 1, num_students: 2 };
    assert_eq!(args.validate(), Err(ConfigError::IdleIdeaGenerator));
    let outcome = Hackathon::new(&args, &names(&["app"]), &names(&["cats"]), names(&["gcc"]));
    assert_eq!(fault_of(outcome), Some(SetupError::Config(ConfigError::IdleIdeaGenerator)));
    let args = Args { num_ideas: 2, num_idea_gen: 2, num_pkgs: 1, num_pkg_gen: 1, num_students: 1 };
    assert_eq!(args.validate(), Ok(()));
}

#[test]
fn zero_values_are_named_before_idle_producers() {
    let args = Args { num_ideas: 1, num_idea_gen: 2, num_pkgs: 0, num_pkg_gen: 1, num_students: 2 };
    assert_eq!(args.validate(), Err(ConfigError::NoPackages));
}

#[test]
fn every_idea_producer_of_a_valid_run_requires_its_packages() {
    let args = Args { num_ideas: 7, num_idea_gen: 3, num_pkgs: 11, num_pkg_gen: 2, num_students: 4 };
    let run = Hackathon::new(&args, &names(&["app"]), &names(&["cats"]), names(&["gcc"])).ok().unwrap();
    let mut required = 0;
    for generator in run.generators.iter() {
        assert!(generator.num_ideas() > 0);
        for i in 0..generator.num_ideas() {
            required += generator.idea_at(i).num_pkg_required;
        }
    }
    assert_eq!(required, 11);
}
