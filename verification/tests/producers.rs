use crossbeam::channel::unbounded;
use hackathon::accumulator::Accumulator;
use hackathon::checksum::Checksum;
use hackathon::idea::{Idea, IdeaGenerator};
use hackathon::package::{Package, PackageDownloader};
use hackathon::queue::{ChannelUnavailableError, Queue};
use std::sync::Arc;

fn cross(products: &[&str], customers: &[&str]) -> Arc<Vec<(String, String)>> {
    let mut pairs = Vec::new();
    for p in products {
        for c in customers {
            pairs.push((p.to_string(), c.to_string()));
        }
    }
    Arc::new(pairs)
}

fn sum_of(names: &[&str]) -> Checksum {
    let mut sum = Checksum::default();
    for name in names {
        sum.update(Checksum::with_sha256(name));
    }
    sum
}

#[test]
fn four_ideas_share_ten_packages_and_two_tokens_follow() {
    let (idea_send, idea_recv) = unbounded::<Idea>();
    let (token_send, token_recv) = unbounded::<bool>();
    let names = cross(&["app", "bot"], &["cats", "dogs", "owls"]);
    let mut shared = Accumulator::new();
    let mut generator = IdeaGenerator::new(0, 4, 2, 10, idea_send, token_send, names);
    assert_eq!(generator.run(&mut shared), Ok(()));
    let ideas: Vec<Idea> = idea_recv.try_iter().collect();
    let required: Vec<usize> = ideas.iter().map(|idea| idea.num_pkg_required).collect();
    assert_eq!(required, vec![3, 3, 2, 2]);
    assert_eq!(required.iter().sum::<usize>(), 10);
    let tokens: Vec<bool> = token_recv.try_iter().collect();
    assert_eq!(tokens, vec![true, true]);
}

#[test]
fn idea_names_pair_product_and_customer_in_order() {
    let (idea_send, idea_recv) = unbounded::<Idea>();
    let (token_send, _token_recv) = unbounded::<bool>();
    let names = cross(&["app", "bot"], &["cats", "dogs", "owls"]);
    let mut shared = Accumulator::new();
    let mut generator = IdeaGenerator::new(0, 6, 0, 6, idea_send, token_send, names);
    assert_eq!(generator.run(&mut shared), Ok(()));
    let got: Vec<String> = idea_recv.try_iter().map(|idea| idea.name).collect();
    assert_eq!(
        got,
        vec![
            "app for cats",
            "app for dogs",
            "app for owls",
            "bot for cats",
            "bot for dogs",
            "bot for owls"
        ]
    );
}

#[test]
fn idea_names_cycle_through_the_name_space() {
    let (idea_send, idea_recv) = unbounded::<Idea>();
    let (token_send, _token_recv) = unbounded::<bool>();
    let names = cross(&["app"], &["cats", "dogs"]);
    let mut shared = Accumulator::new();
    let mut generator = IdeaGenerator::new(3, 4, 0, 4, idea_send, token_send, names);
    assert_eq!(generator.run(&mut shared), Ok(()));
    let got: Vec<String> = idea_recv.try_iter().map(|idea| idea.name).collect();
    assert_eq!(got, vec!["app for dogs", "app for cats", "app for dogs", "app for cats"]);
}

#[test]
fn get_next_idea_name_joins_with_for() {
    let (idea_send, _idea_recv) = unbounded::<Idea>();
    let (token_send, _token_recv) = unbounded::<bool>();
    let names = cross(&["a", "b"], &["x", "y"]);
    let generator = IdeaGenerator::new(0, 1, 0, 0, idea_send, token_send, names);
    assert_eq!(generator.get_next_idea_name(0), "a for x");
    assert_eq!(generator.get_next_idea_name(1), "a for y");
    assert_eq!(generator.get_next_idea_name(2), "b for x");
    assert_eq!(generator.get_next_idea_name(3), "b for y");
    assert_eq!(generator.get_next_idea_name(4), "a for x");
    assert_eq!(generator.get_next_idea_name(usize::MAX), "b for y");
}

#[test]
fn idea_at_gives_name_and_requirement() {
    let (idea_send, _idea_recv) = unbounded::<Idea>();
    let (token_send, _token_recv) = unbounded::<bool>();
    let names = cross(&["a", "b"], &["x", "y"]);
    let generator = IdeaGenerator::new(1, 3, 0, 7, idea_send, token_send, names);
    let first = generator.idea_at(0);
    assert_eq!(first.name, "a for y");
    assert_eq!(first.num_pkg_required, 3);
    let last = generator.idea_at(2);
    assert_eq!(last.name, "b for y");
    assert_eq!(last.num_pkg_required, 2);
}

#[test]
fn idea_producer_merges_the_checksum_of_its_names() {
    let (idea_send, _idea_recv) = unbounded::<Idea>();
    let (token_send, _token_recv) = unbounded::<bool>();
    let names = cross(&["app", "bot"], &["cats", "dogs"]);
    let mut shared = Accumulator::new();
    let mut generator = IdeaGenerator::new(1, 3, 1, 5, idea_send, token_send, names);
    assert_eq!(generator.run(&mut shared), Ok(()));
    assert_eq!(shared.value(), sum_of(&["app for dogs", "bot for cats", "bot for dogs"]));
}

#[test]
fn idea_producer_without_ideas_sends_only_tokens() {
    let (idea_send, idea_recv) = unbounded::<Idea>();
    let (token_send, token_recv) = unbounded::<bool>();
    let mut shared = Accumulator::new();
    let mut generator = IdeaGenerator::new(0, 0, 3, 0, idea_send, token_send, Arc::new(Vec::new()));
    assert_eq!(generator.run(&mut shared), Ok(()));
    assert_eq!(idea_recv.try_iter().count(), 0);
    assert_eq!(token_recv.try_iter().count(), 3);
    assert_eq!(shared.value(), Checksum::default());
}

#[test]
fn idea_producer_fails_on_a_disconnected_idea_queue() {
    let (idea_send, idea_recv) = unbounded::<Idea>();
    let (token_send, token_recv) = unbounded::<bool>();
    drop(idea_recv);
    let mut shared = Accumulator::new();
    let mut generator =
        IdeaGenerator::new(0, 2, 2, 4, idea_send, token_send, cross(&["app"], &["cats"]));
    assert_eq!(generator.run(&mut shared), Err(ChannelUnavailableError { queue: Queue::Ideas }));
    assert_eq!(token_recv.try_iter().count(), 0);
    assert_eq!(shared.value(), Checksum::default());
}

#[test]
fn idea_producer_fails_on_a_disconnected_token_queue() {
    let (idea_send, idea_recv) = unbounded::<Idea>();
    let (token_send, token_recv) = unbounded::<bool>();
    drop(token_recv);
    let mut shared = Accumulator::new();
    let mut generator =
        IdeaGenerator::new(0, 2, 2, 4, idea_send, token_send, cross(&["app"], &["cats"]));
    assert_eq!(generator.run(&mut shared), Err(ChannelUnavailableError { queue: Queue::Tokens }));
    assert_eq!(idea_recv.try_iter().count(), 2);
    assert_eq!(shared.value(), sum_of(&["app for cats", "app for cats"]));
}

#[test]
fn producers_with_disjoint_ranges_give_distinct_names() {
    let (idea_send, idea_recv) = unbounded::<Idea>();
    let (token_send, _token_recv) = unbounded::<bool>();
    let names = cross(&["app", "bot", "car"], &["cats", "dogs", "owls", "pigs"]);
    let mut shared = Accumulator::new();
    let mut first = IdeaGenerator::new(0, 5, 0, 5, idea_send.clone(), token_send.clone(), names.clone());
    let mut second = IdeaGenerator::new(5, 7, 0, 7, idea_send, token_send, names);
    assert_eq!(first.run(&mut shared), Ok(()));
    let from_first: Vec<String> = idea_recv.try_iter().map(|idea| idea.name).collect();
    assert_eq!(second.run(&mut shared), Ok(()));
    let from_second: Vec<String> = idea_recv.try_iter().map(|idea| idea.name).collect();
    assert_eq!(from_first.len(), 5);
    assert_eq!(from_second.len(), 7);
    for name in from_first.iter() {
        assert!(!from_second.contains(name));
    }
    let mut all: Vec<String> = from_first.into_iter().chain(from_second).collect();
    all.sort();
    all.dedup();
    assert_eq!(all.len(), 12);
}

#[test]
fn package_names_cycle_through_the_candidates() {
    let (pkg_send, pkg_recv) = unbounded::<Package>();
    let lines = Arc::new(vec!["gcc".to_string(), "vim".to_string(), "zsh".to_string()]);
    let mut shared = Accumulator::new();
    let mut downloader = PackageDownloader::new(2, 5, pkg_send, lines);
    assert_eq!(downloader.run(&mut shared), Ok(()));
    let got: Vec<String> = pkg_recv.try_iter().map(|pkg| pkg.name).collect();
    assert_eq!(got, vec!["zsh", "gcc", "vim", "zsh", "gcc"]);
    assert_eq!(shared.value(), sum_of(&["zsh", "gcc", "vim", "zsh", "gcc"]));
}

#[test]
fn package_at_reads_the_candidate_at_the_global_index() {
    let (pkg_send, _pkg_recv) = unbounded::<Package>();
    let lines = Arc::new(vec!["gcc".to_string(), "vim".to_string(), "zsh".to_string()]);
    let downloader = PackageDownloader::new(4, 3, pkg_send, lines);
    assert_eq!(downloader.package_at(0).name, "vim");
    assert_eq!(downloader.package_at(1).name, "zsh");
    assert_eq!(downloader.package_at(2).name, "gcc");
}

#[test]
fn package_producer_without_packages_sends_nothing() {
    let (pkg_send, pkg_recv) = unbounded::<Package>();
    let mut shared = Accumulator::new();
    let mut downloader = PackageDownloader::new(0, 0, pkg_send, Arc::new(Vec::new()));
    assert_eq!(downloader.run(&mut shared), Ok(()));
    assert_eq!(pkg_recv.try_iter().count(), 0);
    assert_eq!(shared.value(), Checksum::default());
}

#[test]
fn package_producer_fails_on_a_disconnected_queue() {
    let (pkg_send, pkg_recv) = unbounded::<Package>();
    drop(pkg_recv);
    let mut shared = Accumulator::new();
    let mut downloader = PackageDownloader::new(0, 2, pkg_send, Arc::new(vec!["gcc".to_string()]));
    assert_eq!(downloader.run(&mut shared), Err(ChannelUnavailableError { queue: Queue::Packages }));
    assert_eq!(shared.value(), Checksum::default());
}

#[test]
fn two_producers_accumulate_into_one_shared_checksum() {
    let (pkg_send, _pkg_recv) = unbounded::<Package>();
    let lines = Arc::new(vec!["gcc".to_string(), "vim".to_string(), "zsh".to_string()]);
    let mut shared = Accumulator::new();
    let mut first = PackageDownloader::new(0, 2, pkg_send.clone(), lines.clone());
    let mut second = PackageDownloader::new(2, 2, pkg_send, lines);
    assert_eq!(second.run(&mut shared.share()), Ok(()));
    assert_eq!(first.run(&mut shared.share()), Ok(()));
    assert_eq!(shared.value(), sum_of(&["gcc", "vim", "zsh", "gcc"]));
}
