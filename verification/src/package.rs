//! Packages and the workers that produce them.

use crate::accumulator::Accumulator;
use crate::checksum::accumulate;
use crate::checksum::lemma_accumulate_push;
use crate::checksum::lemma_settled_after_batch;
use crate::checksum::settled;
use crate::checksum::Batch;
use crate::queue::ChannelUnavailableError;
use crate::queue::Queue;
use crate::queue::SendingEnd;
use crossbeam::channel::Sender;
use std::sync::Arc;
use vstd::prelude::*;

verus! {

/// An atomic unit that students consume to build ideas.
pub struct Package {
    /// The package's name.
    pub name: String,
}

impl View for Package {
    type V = Seq<char>;

    open spec fn view(&self) -> Seq<char> {
        self.name@
    }
}

/// The name of each package of a sequence, in order.
pub open spec fn package_names(packages: Seq<Package>) -> Seq<Seq<char>> {
    Seq::new(packages.len(), |k: int| packages[k]@)
}

/// The candidate names, as texts, in the order of the list.
pub open spec fn candidates(lines: Seq<String>) -> Seq<Seq<char>> {
    Seq::new(lines.len(), |k: int| lines[k]@)
}

/// The names of the packages that a producer generates from global index
/// `start` on, in the order in which it sends them. The candidate names are
/// used cyclically.
pub open spec fn planned_packages(names: Seq<Seq<char>>, start: nat, count: nat) -> Seq<
    Seq<char>,
> {
    Seq::new(count, |j: int| names[((start + j) % names.len() as int)])
}

/// A producer of packages. It sends its packages to the package queue in
/// order, then merges the checksum of the batch into the shared accumulator.
pub struct PackageDownloader {
    pkg_start_idx: usize,
    num_pkgs: usize,
    pkg_send: SendingEnd<Package>,
    package_lines: Arc<Vec<String>>,
}

impl PackageDownloader {
    /// The global index of this producer's first package.
    pub closed spec fn start(&self) -> nat {
        self.pkg_start_idx as nat
    }

    /// The number of packages that one run generates.
    pub closed spec fn count(&self) -> nat {
        self.num_pkgs as nat
    }

    /// The candidate names.
    pub closed spec fn names(&self) -> Seq<Seq<char>> {
        candidates(self.package_lines@)
    }

    /// This producer's end of the package queue.
    pub closed spec fn package_end(&self) -> SendingEnd<Package> {
        self.pkg_send
    }

    /// The names of the packages that the package queue has accepted from
    /// this producer so far, in order.
    pub open spec fn sent_packages(&self) -> Seq<Seq<char>> {
        package_names(self.package_end().handed())
    }

    /// The names of the packages of one run, in order.
    pub open spec fn batch(&self) -> Seq<Seq<char>> {
        planned_packages(self.names(), self.start(), self.count())
    }

    /// A producer can run when it has a candidate name, unless it has no
    /// package to name, and when its global indices fit the machine.
    pub open spec fn wf(&self) -> bool {
        &&& self.count() > 0 ==> self.names().len() > 0
        &&& self.start() + self.count() <= usize::MAX
    }

    /// Whether everything that this producer has sent is accounted for in what
    /// was merged through `handle`: the checksums merged combine to the
    /// checksum of the names of the packages sent.
    pub open spec fn settled_with(&self, handle: &Accumulator) -> bool {
        settled(self.sent_packages(), handle.merged())
    }

    /// Whether two states belong to the same producer with the same
    /// assignment and the same queue.
    pub open spec fn same_assignment(&self, other: &Self) -> bool {
        &&& self.start() == other.start()
        &&& self.count() == other.count()
        &&& self.names() == other.names()
        &&& self.package_end().sender() == other.package_end().sender()
    }

    /// A producer of `num_pkgs` packages from global index `pkg_start_idx` on,
    /// which sends them through `pkg_send` and has sent nothing yet.
    pub fn new(
        pkg_start_idx: usize,
        num_pkgs: usize,
        pkg_send: Sender<Package>,
        package_lines: Arc<Vec<String>>,
    ) -> (downloader: Self)
        requires
            num_pkgs > 0 ==> package_lines@.len() > 0,
            pkg_start_idx + num_pkgs <= usize::MAX,
        ensures
            downloader.wf(),
            downloader.start() == pkg_start_idx,
            downloader.count() == num_pkgs,
            downloader.names() == candidates(package_lines@),
            downloader.package_end().sender() == pkg_send,
            downloader.sent_packages() == Seq::<Seq<char>>::empty(),
    {
        let downloader = Self {
            pkg_start_idx,
            num_pkgs,
            pkg_send: SendingEnd::new(pkg_send),
            package_lines,
        };
        assert(downloader.sent_packages() =~= Seq::<Seq<char>>::empty());
        downloader
    }

    /// The global index of this producer's first package.
    pub fn pkg_start_idx(&self) -> (start: usize)
        ensures
            start == self.start(),
    {
        self.pkg_start_idx
    }

    /// The number of packages that one run generates.
    pub fn num_pkgs(&self) -> (count: usize)
        ensures
            count == self.count(),
    {
        self.num_pkgs
    }

    /// The package at local index `j` of a run.
    pub fn package_at(&self, j: usize) -> (package: Package)
        requires
            self.wf(),
            j < self.count(),
        ensures
            package@ == self.batch()[j as int],
    {
        let lines: &Vec<String> = &self.package_lines;
        let number_of_lines = lines.len();
        let name = lines[(self.pkg_start_idx + j) % number_of_lines].clone();
        Package { name }
    }

    /// Generates the packages of this producer and sends them, then merges
    /// the checksum of their names into `pkg_checksum`. Stops when the package
    /// queue is found disconnected.
    ///
    /// When it succeeds, the package queue has accepted exactly the packages
    /// of the batch, in order, and the checksum of their names was merged in
    /// one step. When it fails, a part of the packages went out, in order,
    /// and nothing was merged.
    pub fn run(&mut self, pkg_checksum: &mut Accumulator) -> (outcome: Result<
        (),
        ChannelUnavailableError,
    >)
        requires
            old(self).wf(),
        ensures
            final(self).wf(),
            final(self).same_assignment(old(self)),
            final(pkg_checksum).same_as(old(pkg_checksum)),
            outcome is Ok && old(self).settled_with(old(pkg_checksum)) ==> final(self).settled_with(
                final(pkg_checksum),
            ),
            outcome is Ok ==> {
                &&& final(self).sent_packages() == old(self).sent_packages() + old(self).batch()
                &&& final(pkg_checksum).merged() == old(pkg_checksum).merged().push(
                    accumulate(old(self).batch()),
                )
            },
            outcome matches Err(fault) ==> {
                let packages = final(self).sent_packages().len() - old(self).sent_packages().len();
                &&& fault.queue == Queue::Packages
                &&& 0 <= packages < old(self).count()
                &&& final(self).sent_packages() == old(self).sent_packages() + old(
                    self,
                ).batch().take(packages)
                &&& final(pkg_checksum).merged() == old(pkg_checksum).merged()
            },
    {
        let ghost before = *self;
        let ghost batch = self.batch();
        proof {
            if self.settled_with(pkg_checksum) {
                lemma_settled_after_batch(self.sent_packages(), pkg_checksum.merged(), batch);
            }
            pkg_checksum.lemma_same_as_itself();
        }
        let mut batch_checksum = Batch::new();
        proof {
            assert(batch.take(0) =~= Seq::<Seq<char>>::empty());
            assert(self.sent_packages() =~= before.sent_packages() + batch.take(0));
        }
        let mut i: usize = 0;
        while i < self.num_pkgs
            invariant
                before == *old(self),
                *pkg_checksum == *old(pkg_checksum),
                pkg_checksum.same_as(old(pkg_checksum)),
                self.wf(),
                self.same_assignment(&before),
                batch == before.batch(),
                i <= self.num_pkgs,
                self.sent_packages() == before.sent_packages() + batch.take(i as int),
                batch_checksum@ == accumulate(batch.take(i as int)),
            decreases self.num_pkgs - i,
        {
            let package = self.package_at(i);
            let ghost name = package@;
            let ghost handed = self.pkg_send.handed();
            batch_checksum.add(package.name.as_str());
            proof {
                lemma_accumulate_push(batch.take(i as int), name);
                assert(batch.take(i + 1) =~= batch.take(i as int).push(name));
            }
            match self.pkg_send.send(package) {
                Ok(_) => {},
                Err(_) => {
                    return Err(ChannelUnavailableError { queue: Queue::Packages });
                },
            }
            proof {
                assert(package_names(handed.push(package)) =~= package_names(handed).push(name));
                assert(self.sent_packages() =~= before.sent_packages() + batch.take(i + 1));
            }
            i += 1;
        }
        assert(batch.take(i as int) =~= batch);
        pkg_checksum.merge_in(batch_checksum);
        Ok(())
    }
}

} // verus!
