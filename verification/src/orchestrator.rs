//! Setting up a run: the queues, the accumulators and every worker with its
//! share of the work.

use crate::accumulator::another_handle;
use crate::accumulator::Accumulator;
use crate::checksum::accumulated;
use crate::checksum::Checksum;
use crate::config::Args;
use crate::config::ConfigError;
use crate::idea::law_batch_requires_all_packages;
use crate::idea::lemma_required_by_concat;
use crate::idea::name_space;
use crate::idea::planned_batch;
use crate::idea::required_by;
use crate::idea::Idea;
use crate::idea::IdeaGenerator;
use crate::idea::IdeaSpec;
use crate::package::candidates;
use crate::package::Package;
use crate::package::PackageDownloader;
use crate::partition::lemma_shares_before_monotonic;
use crate::partition::lemma_shares_cover_total;
use crate::partition::per_thread_amount;
use crate::partition::share;
use crate::partition::shares_before;
use crate::student::Student;
use crate::student::StudentState;
use crossbeam::channel::unbounded;
use crossbeam::channel::Receiver;
use crossbeam::channel::Sender;
use std::sync::Arc;
use vstd::arithmetic::div_mod::lemma_fundamental_div_mod_converse_div;
use vstd::arithmetic::div_mod::lemma_fundamental_div_mod_converse_mod;
use vstd::arithmetic::div_mod::lemma_small_mod;
use vstd::prelude::*;

verus! {

/// A list of names that the run needs is empty.
#[derive(Clone, Copy, Debug, PartialEq, Eq, Structural)]
pub enum DataSourceError {
    /// There is no candidate package name.
    NoPackageNames,
    /// There is no product name.
    NoProducts,
    /// There is no customer name.
    NoCustomers,
}

/// Why a run cannot be set up.
#[derive(Clone, Copy, Debug, PartialEq, Eq, Structural)]
pub enum SetupError {
    /// The configuration is not valid.
    Config(ConfigError),
    /// A list of names is empty.
    DataSource(DataSourceError),
}

/// Every pair of a product and a customer: the pairs of the first product
/// with each customer in order, then those of the second product, and so on.
pub open spec fn cross(products: Seq<String>, customers: Seq<String>) -> Seq<(String, String)> {
    Seq::new(
        products.len() * customers.len(),
        |k: int| (products[k / customers.len() as int], customers[k % customers.len() as int]),
    )
}

/// Computes the cross product of the product names and the customer names.
pub fn cross_product(products: &Vec<String>, customers: &Vec<String>) -> (pairs: Vec<
    (String, String),
>)
    ensures
        pairs@ == cross(products@, customers@),
{
    let ghost width = customers@.len() as int;
    let mut pairs: Vec<(String, String)> = Vec::new();
    let mut i: usize = 0;
    while i < products.len()
        invariant
            i <= products.len(),
            width == customers@.len(),
            pairs@.len() == i * width,
            forall|k: int| 0 <= k < pairs@.len() ==> pairs@[k] == cross(products@, customers@)[k],
        decreases products.len() - i,
    {
        let mut j: usize = 0;
        while j < customers.len()
            invariant
                i < products.len(),
                j <= customers.len(),
                width == customers@.len(),
                pairs@.len() == i * width + j,
                forall|k: int|
                    0 <= k < pairs@.len() ==> pairs@[k] == cross(products@, customers@)[k],
            decreases customers.len() - j,
        {
            proof {
                let k = i * width + j;
                lemma_fundamental_div_mod_converse_div(k, width, i as int, j as int);
                lemma_fundamental_div_mod_converse_mod(k, width, i as int, j as int);
                assert(k < products@.len() * width) by (nonlinear_arith)
                    requires
                        k == i * width + j,
                        0 <= j < width,
                        0 <= i < products@.len(),
                ;
            }
            pairs.push((products[i].clone(), customers[j].clone()));
            j += 1;
        }
        assert((i + 1) * width == i * width + width) by (nonlinear_arith);
        i += 1;
    }
    assert(pairs@ =~= cross(products@, customers@));
    pairs
}

/// The four checksums at the end of a run.
#[derive(Clone, Copy, Debug)]
pub struct Report {
    /// The checksum of the names of the ideas that were generated.
    pub idea: Checksum,
    /// The checksum of the names of the ideas that students built.
    pub student_idea: Checksum,
    /// The checksum of the names of the packages that were generated.
    pub pkg: Checksum,
    /// The checksum of the names of the packages that students used.
    pub student_pkg: Checksum,
}

impl Report {
    /// Whether what was consumed matches what was produced, for ideas and for
    /// packages.
    pub fn consistent(&self) -> (matching: bool)
        ensures
            matching == (self.idea@ == self.student_idea@ && self.pkg@ == self.student_pkg@),
    {
        self.idea == self.student_idea && self.pkg == self.student_pkg
    }
}

/// Whether `students` are `count` students that have done nothing yet,
/// numbered from zero, each reading from the three queues through the
/// receivers given, from which it has taken nothing yet.
pub open spec fn students_ready(
    students: Seq<Student>,
    count: nat,
    ideas: Receiver<Idea>,
    packages: Receiver<Package>,
    tokens: Receiver<bool>,
) -> bool {
    &&& students.len() == count
    &&& forall|i: int|
        0 <= i < students.len() ==> {
            &&& (#[trigger] students[i])@ == StudentState::initial()
            &&& students[i]@.wf()
            &&& students[i]@.lean()
            &&& students[i].in_step()
            &&& students[i].number() == i
            &&& students[i].idea_end().receiver() == ideas
            &&& students[i].package_end().receiver() == packages
            &&& students[i].token_end().receiver() == tokens
            &&& students[i].idea_end().drawn() == Seq::<Idea>::empty()
            &&& students[i].package_end().drawn() == Seq::<Package>::empty()
            &&& students[i].token_end().drawn() == Seq::<bool>::empty()
        }
}

/// Whether `downloaders` split `total` packages among them: each starts where
/// the one before it ends, has its share, sends through `queue`, and has
/// sent nothing yet.
pub open spec fn downloaders_assigned(
    downloaders: Seq<PackageDownloader>,
    total: nat,
    names: Seq<Seq<char>>,
    queue: Sender<Package>,
) -> bool {
    forall|i: int|
        0 <= i < downloaders.len() ==> {
            let worker = #[trigger] downloaders[i];
            &&& worker.wf()
            &&& worker.start() == shares_before(i as nat, total, downloaders.len())
            &&& worker.count() == share(i as nat, total, downloaders.len())
            &&& worker.names() == names
            &&& worker.package_end().sender() == queue
            &&& worker.sent_packages() == Seq::<Seq<char>>::empty()
        }
}

/// Whether `generators` split the ideas, the packages and the tokens of
/// `args` among them: each starts where the one before it ends, has its share
/// of each, sends its ideas through `ideas` and its tokens through `tokens`,
/// and has sent nothing yet.
pub open spec fn generators_assigned(
    generators: Seq<IdeaGenerator>,
    args: Args,
    names: Seq<Seq<char>>,
    ideas: Sender<Idea>,
    tokens: Sender<bool>,
) -> bool {
    forall|i: int|
        0 <= i < generators.len() ==> {
            let worker = #[trigger] generators[i];
            &&& worker.wf()
            &&& worker.start() == shares_before(
                i as nat,
                args.num_ideas as nat,
                generators.len(),
            )
            &&& worker.count() == share(i as nat, args.num_ideas as nat, generators.len())
            &&& worker.packages() == share(i as nat, args.num_pkgs as nat, generators.len())
            &&& worker.students() == share(i as nat, args.num_students as nat, generators.len())
            &&& worker.names() == names
            &&& worker.idea_end().sender() == ideas
            &&& worker.token_end().sender() == tokens
            &&& worker.sent_ideas() == Seq::<IdeaSpec>::empty()
            &&& worker.sent_tokens() == Seq::<bool>::empty()
        }
}

/// The reason, if any, for which a run cannot be set up: first the
/// configuration, then the package names, the products and the customers.
pub open spec fn setup_fault(
    args: Args,
    products: Seq<String>,
    customers: Seq<String>,
    package_lines: Seq<String>,
) -> Option<SetupError> {
    if args.first_fault() is Some {
        Some(SetupError::Config(args.first_fault().unwrap()))
    } else if package_lines.len() == 0 {
        Some(SetupError::DataSource(DataSourceError::NoPackageNames))
    } else if products.len() == 0 {
        Some(SetupError::DataSource(DataSourceError::NoProducts))
    } else if customers.len() == 0 {
        Some(SetupError::DataSource(DataSourceError::NoCustomers))
    } else {
        None
    }
}

/// Makes `count` students that read from the three queues through handles
/// equal to the receivers given.
pub fn enrol_students(
    count: usize,
    idea_recv: &Receiver<Idea>,
    pkg_recv: &Receiver<Package>,
    out_of_idea_recv: &Receiver<bool>,
) -> (students: Vec<Student>)
    ensures
        students_ready(students@, count as nat, *idea_recv, *pkg_recv, *out_of_idea_recv),
{
    let mut students: Vec<Student> = Vec::new();
    let mut i: usize = 0;
    while i < count
        invariant
            i <= count,
            students_ready(students@, i as nat, *idea_recv, *pkg_recv, *out_of_idea_recv),
        decreases count - i,
    {
        let student = Student::new(i, idea_recv.clone(), pkg_recv.clone(), out_of_idea_recv.clone());
        students.push(student);
        i += 1;
    }
    students
}

/// Makes `workers` package producers that split `total` packages among them.
pub fn assign_downloaders(
    total: usize,
    workers: usize,
    pkg_send: &Sender<Package>,
    package_lines: &Arc<Vec<String>>,
) -> (downloaders: Vec<PackageDownloader>)
    requires
        workers > 0,
        package_lines@.len() > 0,
    ensures
        downloaders@.len() == workers,
        downloaders_assigned(downloaders@, total as nat, candidates(package_lines@), *pkg_send),
{
    let mut downloaders: Vec<PackageDownloader> = Vec::new();
    let mut start_idx: usize = 0;
    let mut i: usize = 0;
    while i < workers
        invariant
            workers > 0,
            package_lines@.len() > 0,
            i <= workers,
            downloaders@.len() == i,
            start_idx == shares_before(i as nat, total as nat, workers as nat),
            forall|k: int|
                0 <= k < i ==> {
                    let worker = #[trigger] downloaders@[k];
                    &&& worker.wf()
                    &&& worker.start() == shares_before(k as nat, total as nat, workers as nat)
                    &&& worker.count() == share(k as nat, total as nat, workers as nat)
                    &&& worker.names() == candidates(package_lines@)
                    &&& worker.package_end().sender() == *pkg_send
                    &&& worker.sent_packages() == Seq::<Seq<char>>::empty()
                },
        decreases workers - i,
    {
        let num_pkgs = per_thread_amount(i, total, workers);
        proof {
            lemma_shares_before_monotonic((i + 1) as nat, workers as nat, total as nat, workers as nat);
        }
        let downloader = PackageDownloader::new(
            start_idx,
            num_pkgs,
            pkg_send.clone(),
            another_handle(package_lines),
        );
        downloaders.push(downloader);
        start_idx += num_pkgs;
        i += 1;
    }
    downloaders
}

/// Makes the idea producers of `args`, which split its ideas, its packages
/// and its tokens among them.
pub fn assign_generators(
    args: &Args,
    idea_send: &Sender<Idea>,
    out_of_idea_send: &Sender<bool>,
    pairs: &Arc<Vec<(String, String)>>,
) -> (generators: Vec<IdeaGenerator>)
    requires
        args.num_idea_gen > 0,
        pairs@.len() > 0,
    ensures
        generators@.len() == args.num_idea_gen,
        generators_assigned(
            generators@,
            *args,
            name_space(pairs@),
            *idea_send,
            *out_of_idea_send,
        ),
{
    let workers = args.num_idea_gen;
    let mut generators: Vec<IdeaGenerator> = Vec::new();
    let mut start_idx: usize = 0;
    let mut i: usize = 0;
    while i < workers
        invariant
            workers == args.num_idea_gen,
            workers > 0,
            pairs@.len() > 0,
            i <= workers,
            generators@.len() == i,
            start_idx == shares_before(i as nat, args.num_ideas as nat, workers as nat),
            forall|k: int|
                0 <= k < i ==> {
                    let worker = #[trigger] generators@[k];
                    &&& worker.wf()
                    &&& worker.start() == shares_before(
                        k as nat,
                        args.num_ideas as nat,
                        workers as nat,
                    )
                    &&& worker.count() == share(k as nat, args.num_ideas as nat, workers as nat)
                    &&& worker.packages() == share(k as nat, args.num_pkgs as nat, workers as nat)
                    &&& worker.students() == share(
                        k as nat,
                        args.num_students as nat,
                        workers as nat,
                    )
                    &&& worker.names() == name_space(pairs@)
                    &&& worker.idea_end().sender() == *idea_send
                    &&& worker.token_end().sender() == *out_of_idea_send
                    &&& worker.sent_ideas() == Seq::<IdeaSpec>::empty()
                    &&& worker.sent_tokens() == Seq::<bool>::empty()
                },
        decreases workers - i,
    {
        let num_ideas = per_thread_amount(i, args.num_ideas, workers);
        let num_pkgs = per_thread_amount(i, args.num_pkgs, workers);
        let num_students = per_thread_amount(i, args.num_students, workers);
        proof {
            lemma_shares_before_monotonic(
                (i + 1) as nat,
                workers as nat,
                args.num_ideas as nat,
                workers as nat,
            );
        }
        let generator = IdeaGenerator::new(
            start_idx,
            num_ideas,
            num_students,
            num_pkgs,
            idea_send.clone(),
            out_of_idea_send.clone(),
            another_handle(pairs),
        );
        generators.push(generator);
        start_idx += num_ideas;
        i += 1;
    }
    generators
}

/// The two ends of each of the three shared queues. While it lives, no queue
/// is disconnected, whichever workers have finished.
pub struct Queues {
    ideas: (Sender<Idea>, Receiver<Idea>),
    packages: (Sender<Package>, Receiver<Package>),
    tokens: (Sender<bool>, Receiver<bool>),
}

impl Queues {
    /// The two ends of the idea queue.
    pub closed spec fn ideas(&self) -> (Sender<Idea>, Receiver<Idea>) {
        self.ideas
    }

    /// The two ends of the package queue.
    pub closed spec fn packages(&self) -> (Sender<Package>, Receiver<Package>) {
        self.packages
    }

    /// The two ends of the token queue.
    pub closed spec fn tokens(&self) -> (Sender<bool>, Receiver<bool>) {
        self.tokens
    }
}

/// A run that is set up and has not started: the workers, which are ready to
/// be handed to threads, the four accumulators, and the three queues.
pub struct Hackathon {
    /// The consumers.
    pub students: Vec<Student>,
    /// The package producers.
    pub downloaders: Vec<PackageDownloader>,
    /// The idea producers.
    pub generators: Vec<IdeaGenerator>,
    /// Accumulates the names of the ideas that are generated.
    pub idea_checksum: Accumulator,
    /// Accumulates the names of the packages that are generated.
    pub pkg_checksum: Accumulator,
    /// Accumulates the names of the ideas that students build.
    pub student_idea_checksum: Accumulator,
    /// Accumulates the names of the packages that students use.
    pub student_pkg_checksum: Accumulator,
    /// The queues that the workers share.
    pub queues: Queues,
}

impl Hackathon {
    /// Whether the workers are those that `args` and the name lists call
    /// for, each on the ends of this run's queues, and nothing was merged
    /// through this run's handles to the four accumulators.
    pub open spec fn set_up_for(
        &self,
        args: Args,
        products: Seq<String>,
        customers: Seq<String>,
        package_lines: Seq<String>,
    ) -> bool {
        &&& students_ready(
            self.students@,
            args.num_students as nat,
            self.queues.ideas().1,
            self.queues.packages().1,
            self.queues.tokens().1,
        )
        &&& self.downloaders@.len() == args.num_pkg_gen
        &&& downloaders_assigned(
            self.downloaders@,
            args.num_pkgs as nat,
            candidates(package_lines),
            self.queues.packages().0,
        )
        &&& self.generators@.len() == args.num_idea_gen
        &&& generators_assigned(
            self.generators@,
            args,
            name_space(cross(products, customers)),
            self.queues.ideas().0,
            self.queues.tokens().0,
        )
        &&& self.idea_checksum.merged() == Seq::<Seq<u8>>::empty()
        &&& self.pkg_checksum.merged() == Seq::<Seq<u8>>::empty()
        &&& self.student_idea_checksum.merged() == Seq::<Seq<u8>>::empty()
        &&& self.student_pkg_checksum.merged() == Seq::<Seq<u8>>::empty()
    }

    /// Sets up a run: checks the configuration and the name lists, creates
    /// the queues and the accumulators, and makes every worker with its share
    /// of the work. Nothing is made when the run cannot be set up.
    pub fn new(
        args: &Args,
        products: &Vec<String>,
        customers: &Vec<String>,
        package_lines: Vec<String>,
    ) -> (outcome: Result<Hackathon, SetupError>)
        ensures
            match outcome {
                Ok(run) => setup_fault(*args, products@, customers@, package_lines@) is None
                    && run.set_up_for(*args, products@, customers@, package_lines@),
                Err(fault) => setup_fault(*args, products@, customers@, package_lines@) == Some(
                    fault,
                ),
            },
    {
        match args.validate() {
            Err(fault) => {
                return Err(SetupError::Config(fault));
            },
            Ok(_) => {},
        }
        if package_lines.len() == 0 {
            return Err(SetupError::DataSource(DataSourceError::NoPackageNames));
        }
        if products.len() == 0 {
            return Err(SetupError::DataSource(DataSourceError::NoProducts));
        }
        if customers.len() == 0 {
            return Err(SetupError::DataSource(DataSourceError::NoCustomers));
        }
        let pkg_queue = unbounded::<Package>();
        let idea_queue = unbounded::<Idea>();
        let out_of_idea_queue = unbounded::<bool>();

        let students = enrol_students(
            args.num_students,
            &idea_queue.1,
            &pkg_queue.1,
            &out_of_idea_queue.1,
        );

        let ghost lines = package_lines@;
        let package_lines_shared = Arc::new(package_lines);
        let downloaders = assign_downloaders(
            args.num_pkgs,
            args.num_pkg_gen,
            &pkg_queue.0,
            &package_lines_shared,
        );

        let pairs = cross_product(products, customers);
        proof {
            assert(products@.len() * customers@.len() > 0) by (nonlinear_arith)
                requires
                    products@.len() > 0,
                    customers@.len() > 0,
            ;
        }
        let pairs_shared = Arc::new(pairs);
        let generators = assign_generators(args, &idea_queue.0, &out_of_idea_queue.0, &pairs_shared);

        Ok(
            Hackathon {
                students,
                downloaders,
                generators,
                idea_checksum: Accumulator::new(),
                pkg_checksum: Accumulator::new(),
                student_idea_checksum: Accumulator::new(),
                student_pkg_checksum: Accumulator::new(),
                queues: Queues {
                    ideas: idea_queue,
                    packages: pkg_queue,
                    tokens: out_of_idea_queue,
                },
            },
        )
    }

    /// Reads the four accumulators. Each checksum read is the checksum of the
    /// texts of the batches that were merged into its accumulator until then.
    pub fn report(&self) -> (report: Report)
        ensures
            accumulated(report.idea@),
            accumulated(report.student_idea@),
            accumulated(report.pkg@),
            accumulated(report.student_pkg@),
    {
        Report {
            idea: self.idea_checksum.value(),
            student_idea: self.student_idea_checksum.value(),
            pkg: self.pkg_checksum.value(),
            student_pkg: self.student_pkg_checksum.value(),
        }
    }
}

/// The ideas that the first `upto` of `workers` idea producers generate when
/// `ideas` ideas and `packages` packages are split among them, producer
/// after producer.
pub open spec fn planned_ideas(
    names: Seq<Seq<char>>,
    ideas: nat,
    packages: nat,
    workers: nat,
    upto: nat,
) -> Seq<IdeaSpec>
    decreases upto,
{
    if upto == 0 {
        Seq::empty()
    } else {
        let worker = (upto - 1) as nat;
        planned_ideas(names, ideas, packages, workers, worker) + planned_batch(
            names,
            shares_before(worker, ideas, workers),
            share(worker, ideas, workers),
            share(worker, packages, workers),
        )
    }
}

/// The requirements of all the ideas of a run add up to the total number of
/// packages, provided that no producer is left with packages and without an
/// idea to give them to.
pub proof fn law_ideas_require_all_packages(
    names: Seq<Seq<char>>,
    ideas: nat,
    packages: nat,
    workers: nat,
)
    requires
        workers > 0,
        forall|worker: nat|
            worker < workers ==> share(worker, ideas, workers) > 0 || share(
                worker,
                packages,
                workers,
            ) == 0,
    ensures
        required_by(planned_ideas(names, ideas, packages, workers, workers)) == packages,
{
    lemma_first_producers_require_their_shares(names, ideas, packages, workers, workers);
    lemma_shares_cover_total(packages, workers);
}

/// The requirements of all the ideas of a valid run add up to its total
/// number of packages.
pub proof fn law_valid_run_requires_all_packages(names: Seq<Seq<char>>, args: Args)
    requires
        args.valid(),
    ensures
        required_by(
            planned_ideas(
                names,
                args.num_ideas as nat,
                args.num_pkgs as nat,
                args.num_idea_gen as nat,
                args.num_idea_gen as nat,
            ),
        ) == args.num_pkgs,
{
    let ideas = args.num_ideas as nat;
    let workers = args.num_idea_gen as nat;
    assert forall|worker: nat| worker < workers implies share(worker, ideas, workers) > 0 by {
        assert(ideas / workers >= 1) by (nonlinear_arith)
            requires
                ideas >= workers,
                workers > 0,
        ;
    }
    law_ideas_require_all_packages(names, ideas, args.num_pkgs as nat, workers);
}

/// The requirements of the ideas of the first `upto` producers add up to the
/// packages apportioned to them.
pub proof fn lemma_first_producers_require_their_shares(
    names: Seq<Seq<char>>,
    ideas: nat,
    packages: nat,
    workers: nat,
    upto: nat,
)
    requires
        workers > 0,
        upto <= workers,
        forall|worker: nat|
            worker < workers ==> share(worker, ideas, workers) > 0 || share(
                worker,
                packages,
                workers,
            ) == 0,
    ensures
        required_by(planned_ideas(names, ideas, packages, workers, upto)) == shares_before(
            upto,
            packages,
            workers,
        ),
    decreases upto,
{
    if upto > 0 {
        let worker = (upto - 1) as nat;
        let start = shares_before(worker, ideas, workers);
        let count = share(worker, ideas, workers);
        let apportioned = share(worker, packages, workers);
        let batch = planned_batch(names, start, count, apportioned);
        lemma_first_producers_require_their_shares(names, ideas, packages, workers, worker);
        lemma_required_by_concat(planned_ideas(names, ideas, packages, workers, worker), batch);
        if count > 0 {
            law_batch_requires_all_packages(names, start, count, apportioned);
        } else {
            assert(batch =~= Seq::<IdeaSpec>::empty());
        }
    }
}

/// Two different workers never work on the same global index: the range of
/// the one with the lower number ends where the next begins, and no range
/// goes beyond the total.
pub proof fn law_ranges_are_disjoint(
    total: nat,
    workers: nat,
    first: nat,
    second: nat,
    i: nat,
    j: nat,
)
    requires
        first < second < workers,
        i < share(first, total, workers),
        j < share(second, total, workers),
    ensures
        shares_before(first, total, workers) + i < shares_before(second, total, workers) + j,
        shares_before(second, total, workers) + j < total,
{
    lemma_shares_before_monotonic(first + 1, second, total, workers);
    lemma_shares_before_monotonic(second + 1, workers, total, workers);
}

/// Two different idea producers never generate the same name, provided that
/// the name space holds no name twice and has a name for every idea, so that
/// no name is used a second time.
pub proof fn law_producers_never_share_a_name(
    names: Seq<Seq<char>>,
    ideas: nat,
    packages: nat,
    workers: nat,
    first: nat,
    second: nat,
    i: nat,
    j: nat,
)
    requires
        names.no_duplicates(),
        ideas <= names.len(),
        first < workers,
        second < workers,
        first != second,
        i < share(first, ideas, workers),
        j < share(second, ideas, workers),
    ensures
        planned_batch(
            names,
            shares_before(first, ideas, workers),
            share(first, ideas, workers),
            share(first, packages, workers),
        )[i as int].name != planned_batch(
            names,
            shares_before(second, ideas, workers),
            share(second, ideas, workers),
            share(second, packages, workers),
        )[j as int].name,
{
    let x = shares_before(first, ideas, workers) + i;
    let y = shares_before(second, ideas, workers) + j;
    if first < second {
        law_ranges_are_disjoint(ideas, workers, first, second, i, j);
    } else {
        law_ranges_are_disjoint(ideas, workers, second, first, j, i);
    }
    lemma_small_mod(x, names.len());
    lemma_small_mod(y, names.len());
}

} // verus!
