//! Students: the workers that take ideas and build them from packages.

use crate::accumulator::Accumulator;
use crate::checksum::accumulate;
use crate::checksum::batch_sums;
use crate::checksum::combine;
use crate::checksum::concat;
use crate::checksum::digest;
use crate::checksum::digests;
use crate::checksum::law_batching_irrelevant;
use crate::checksum::lemma_accumulate_empty;
use crate::checksum::lemma_accumulate_push;
use crate::checksum::lemma_merged_identity;
use crate::checksum::Batch;
use crate::idea::idea_views;
use crate::idea::names_of;
use crate::idea::required_by;
use crate::idea::Idea;
use crate::idea::IdeaSpec;
use crate::package::package_names;
use crate::package::Package;
use crate::queue::ChannelUnavailableError;
use crate::queue::Polled;
use crate::queue::Queue;
use crate::queue::ReceivingEnd;
use crossbeam::channel::Receiver;
use vstd::prelude::*;

verus! {

/// Where a student stands in its cycle.
#[derive(Clone, Copy, Debug, PartialEq, Eq, Structural)]
pub enum Phase {
    /// Holding no idea, and looking for one.
    Idle,
    /// Holding an idea for which the buffer has too few packages.
    HoldingIdea,
    /// Holding an idea for which the buffer has enough packages.
    Building,
    /// Stopped for good.
    Terminated,
}

/// The packages that went into each built idea, in the order of building:
/// each idea used the packages that follow those of the ideas before it.
pub open spec fn package_batches(built: Seq<IdeaSpec>, packages: Seq<Seq<char>>) -> Seq<
    Seq<Seq<char>>,
>
    decreases built.len(),
{
    if built.len() == 0 {
        Seq::empty()
    } else {
        package_batches(built.drop_last(), packages).push(
            packages.subrange(required_by(built.drop_last()) as int, required_by(built) as int),
        )
    }
}

/// What a student holds and what it has done so far.
pub struct StudentState {
    /// The idea that the student holds, if any.
    pub held: Option<IdeaSpec>,
    /// The names of the packages in the local buffer, oldest first.
    pub buffer: Seq<Seq<char>>,
    /// Whether the student has stopped.
    pub terminated: bool,
    /// Every idea taken from the idea queue, in order.
    pub received_ideas: Seq<IdeaSpec>,
    /// The name of every package taken from the package queue, in order.
    pub received_packages: Seq<Seq<char>>,
    /// The number of termination tokens taken from the token queue.
    pub received_tokens: nat,
    /// The checksums merged into the shared idea accumulator, in order.
    pub idea_sums: Seq<Seq<u8>>,
    /// The checksums merged into the shared package accumulator, in order.
    pub package_sums: Seq<Seq<u8>>,
}

impl StudentState {
    /// A student that has done nothing yet.
    pub open spec fn initial() -> StudentState {
        StudentState {
            held: None,
            buffer: Seq::empty(),
            terminated: false,
            received_ideas: Seq::empty(),
            received_packages: Seq::empty(),
            received_tokens: 0,
            idea_sums: Seq::empty(),
            package_sums: Seq::empty(),
        }
    }

    /// The ideas built so far: every idea received but the one still held.
    pub open spec fn built(self) -> Seq<IdeaSpec> {
        if self.held is Some {
            self.received_ideas.drop_last()
        } else {
            self.received_ideas
        }
    }

    /// The number of packages that the built ideas have used.
    pub open spec fn used(self) -> nat {
        required_by(self.built())
    }

    /// The phase that the state is in.
    pub open spec fn phase(self) -> Phase {
        if self.terminated {
            Phase::Terminated
        } else {
            match self.held {
                None => Phase::Idle,
                Some(idea) => if self.buffer.len() < idea.num_pkg_required {
                    Phase::HoldingIdea
                } else {
                    Phase::Building
                },
            }
        }
    }

    /// The invariant of a student: the held idea is the last one received; a
    /// stopped student holds nothing and has taken exactly one token; the
    /// buffer holds the received packages that no built idea has used, oldest
    /// first; one digest was merged for each built idea; and one batch
    /// checksum was merged for the packages of each built idea.
    pub open spec fn wf(self) -> bool {
        &&& self.held matches Some(idea) ==> self.received_ideas.len() > 0
            && self.received_ideas.last() == idea
        &&& self.terminated ==> self.held is None
        &&& self.received_tokens == if self.terminated { 1nat } else { 0nat }
        &&& self.used() <= self.received_packages.len()
        &&& self.buffer == self.received_packages.skip(self.used() as int)
        &&& self.idea_sums == digests(names_of(self.built()))
        &&& self.package_sums == batch_sums(package_batches(self.built(), self.received_packages))
    }

    /// Whether the student holds no more packages than it needs: none while
    /// it holds no idea, and at most as many as the held idea requires.
    pub open spec fn lean(self) -> bool {
        match self.held {
            None => self.buffer.len() == 0,
            Some(idea) => self.buffer.len() <= idea.num_pkg_required,
        }
    }

    /// The state after taking `idea` from the idea queue.
    pub open spec fn take_idea(self, idea: IdeaSpec) -> StudentState {
        StudentState {
            held: Some(idea),
            received_ideas: self.received_ideas.push(idea),
            ..self
        }
    }

    /// The state after taking the package `name` from the package queue.
    pub open spec fn take_package(self, name: Seq<char>) -> StudentState {
        StudentState {
            buffer: self.buffer.push(name),
            received_packages: self.received_packages.push(name),
            ..self
        }
    }

    /// The state after building the held idea: its digest is merged into the
    /// idea accumulator, as many packages as it requires leave the front of
    /// the buffer, and their batch checksum is merged into the package
    /// accumulator.
    pub open spec fn build(self) -> StudentState {
        let idea = self.held.unwrap();
        let required = idea.num_pkg_required as int;
        StudentState {
            held: None,
            buffer: self.buffer.skip(required),
            idea_sums: self.idea_sums.push(digest(idea.name)),
            package_sums: self.package_sums.push(accumulate(self.buffer.take(required))),
            ..self
        }
    }

    /// The state after taking a termination token.
    pub open spec fn take_token(self) -> StudentState {
        StudentState { terminated: true, received_tokens: self.received_tokens + 1, ..self }
    }

    /// Whether this state can follow `earlier`: nothing received or merged is
    /// ever taken back, and a stopped student stays as it is.
    pub open spec fn extends(self, earlier: StudentState) -> bool {
        &&& earlier.received_ideas.is_prefix_of(self.received_ideas)
        &&& earlier.received_packages.is_prefix_of(self.received_packages)
        &&& earlier.received_tokens <= self.received_tokens
        &&& earlier.idea_sums.is_prefix_of(self.idea_sums)
        &&& earlier.package_sums.is_prefix_of(self.package_sums)
        &&& earlier.terminated ==> self == earlier
    }
}

/// One more idea requires its own packages on top of the others'.
pub proof fn lemma_required_by_push(ideas: Seq<IdeaSpec>, idea: IdeaSpec)
    ensures
        required_by(ideas.push(idea)) == required_by(ideas) + idea.num_pkg_required,
{
    assert(ideas.push(idea).drop_last() =~= ideas);
}

/// Packages that arrive later do not change which packages went into the
/// ideas built before.
pub proof fn lemma_package_batches_stable(
    built: Seq<IdeaSpec>,
    packages: Seq<Seq<char>>,
    name: Seq<char>,
)
    requires
        required_by(built) <= packages.len(),
    ensures
        package_batches(built, packages.push(name)) == package_batches(built, packages),
    decreases built.len(),
{
    if built.len() > 0 {
        let before = built.drop_last();
        assert(built =~= before.push(built.last()));
        lemma_required_by_push(before, built.last());
        lemma_package_batches_stable(before, packages, name);
        assert(packages.push(name).subrange(required_by(before) as int, required_by(built) as int)
            =~= packages.subrange(required_by(before) as int, required_by(built) as int));
    }
}

/// The packages of the built ideas, batch after batch, are the first
/// packages received.
pub proof fn lemma_package_batches_concat(built: Seq<IdeaSpec>, packages: Seq<Seq<char>>)
    requires
        required_by(built) <= packages.len(),
    ensures
        package_batches(built, packages).len() == built.len(),
        concat(package_batches(built, packages)) == packages.take(required_by(built) as int),
    decreases built.len(),
{
    if built.len() == 0 {
        assert(packages.take(0) =~= Seq::<Seq<char>>::empty());
    } else {
        let before = built.drop_last();
        assert(built =~= before.push(built.last()));
        lemma_required_by_push(before, built.last());
        lemma_package_batches_concat(before, packages);
        let batches = package_batches(built, packages);
        assert(batches.drop_last() =~= package_batches(before, packages));
        assert(packages.take(required_by(before) as int) + packages.subrange(
            required_by(before) as int,
            required_by(built) as int,
        ) =~= packages.take(required_by(built) as int));
    }
}

/// A student that has done nothing satisfies the invariant.
pub proof fn law_initial_state_wf()
    ensures
        StudentState::initial().wf(),
        StudentState::initial().phase() == Phase::Idle,
        StudentState::initial().lean(),
{
    let s = StudentState::initial();
    assert(s.buffer =~= s.received_packages.skip(0));
    assert(s.idea_sums =~= digests(names_of(s.built())));
    assert(s.package_sums =~= batch_sums(package_batches(s.built(), s.received_packages)));
}

/// Taking an idea while idle keeps the invariant, and builds nothing.
pub proof fn law_take_idea_keeps_wf(s: StudentState, idea: IdeaSpec)
    requires
        s.wf(),
        s.phase() == Phase::Idle,
    ensures
        s.take_idea(idea).wf(),
        s.take_idea(idea).built() == s.built(),
        s.take_idea(idea).extends(s),
        s.take_idea(idea).phase() != Phase::Idle,
        s.take_idea(idea).phase() != Phase::Terminated,
        s.lean() ==> s.take_idea(idea).lean(),
{
    assert(s.received_ideas.push(idea).drop_last() =~= s.received_ideas);
}

/// Taking a package keeps the invariant: the package joins the back of the buffer.
pub proof fn law_take_package_keeps_wf(s: StudentState, name: Seq<char>)
    requires
        s.wf(),
    ensures
        s.take_package(name).wf(),
        s.take_package(name).built() == s.built(),
        s.take_package(name).extends(s) || s.terminated,
        s.lean() && s.phase() == Phase::HoldingIdea ==> s.take_package(name).lean(),
{
    let t = s.take_package(name);
    assert(t.built() == s.built());
    lemma_package_batches_stable(s.built(), s.received_packages, name);
    assert(t.buffer =~= t.received_packages.skip(t.used() as int));
}

/// Building the held idea keeps the invariant and returns the student to idle.
pub proof fn law_build_keeps_wf(s: StudentState)
    requires
        s.wf(),
        s.phase() == Phase::Building,
    ensures
        s.build().wf(),
        s.build().phase() == Phase::Idle,
        s.build().built() == s.built().push(s.held.unwrap()),
        s.build().extends(s),
        s.lean() ==> s.build().lean(),
{
    let idea = s.held.unwrap();
    let t = s.build();
    let required = idea.num_pkg_required as int;
    let used = s.used() as int;
    assert(s.received_ideas =~= s.built().push(idea));
    assert(t.built() == s.built().push(idea));
    lemma_required_by_push(s.built(), idea);
    assert(t.buffer =~= t.received_packages.skip(t.used() as int));
    assert(names_of(t.built()) =~= names_of(s.built()).push(idea.name));
    assert(digests(names_of(t.built())) =~= digests(names_of(s.built())).push(digest(idea.name)));
    assert(t.built().drop_last() =~= s.built());
    assert(s.buffer.take(required) =~= s.received_packages.subrange(used, used + required));
    assert(batch_sums(package_batches(t.built(), t.received_packages)) =~= batch_sums(
        package_batches(s.built(), s.received_packages),
    ).push(accumulate(s.buffer.take(required))));
}

/// Taking a token while idle keeps the invariant and stops the student.
pub proof fn law_take_token_keeps_wf(s: StudentState)
    requires
        s.wf(),
        s.phase() == Phase::Idle,
    ensures
        s.take_token().wf(),
        s.take_token().phase() == Phase::Terminated,
        s.take_token().built() == s.built(),
        s.take_token().extends(s),
        s.lean() ==> s.take_token().lean(),
{
}

/// What a student has merged into the shared accumulators is the checksum of
/// what it has consumed: the names of the ideas it built, and the names of
/// the packages that those ideas used, which are the first packages it received.
pub proof fn law_merged_is_consumed(s: StudentState)
    requires
        s.wf(),
    ensures
        combine(s.idea_sums) == accumulate(names_of(s.built())),
        combine(s.package_sums) == accumulate(s.received_packages.take(s.used() as int)),
        s.received_packages == s.received_packages.take(s.used() as int) + s.buffer,
{
    lemma_package_batches_concat(s.built(), s.received_packages);
    law_batching_irrelevant(package_batches(s.built(), s.received_packages));
    assert(s.received_packages =~= s.received_packages.take(s.used() as int) + s.buffer);
}

/// A student that holds no more packages than it needs has taken no more
/// packages from the queue than the ideas it received require, and exactly
/// as many once it holds no idea.
pub proof fn law_lean_student_takes_what_it_needs(s: StudentState)
    requires
        s.wf(),
        s.lean(),
    ensures
        s.received_packages.len() <= required_by(s.received_ideas),
        s.held is None ==> s.received_packages.len() == required_by(s.received_ideas)
            && s.buffer.len() == 0,
{
    if s.held is Some {
        let idea = s.held.unwrap();
        assert(s.received_ideas =~= s.built().push(idea));
        lemma_required_by_push(s.built(), idea);
    }
}

/// What was added to a sequence since it was `earlier`.
pub open spec fn added<A>(now: Seq<A>, earlier: Seq<A>) -> Seq<A> {
    now.skip(earlier.len() as int)
}

/// What was added in two stretches is what was added in all.
pub proof fn lemma_added_in_two<A>(first: Seq<A>, second: Seq<A>, third: Seq<A>)
    requires
        first.is_prefix_of(second),
        second.is_prefix_of(third),
    ensures
        added(second, first) + added(third, second) == added(third, first),
        first.is_prefix_of(third),
{
    assert(added(second, first) + added(third, second) =~= added(third, first));
}

/// A student that has stopped has built every idea it received.
pub proof fn law_terminated_built_all(s: StudentState)
    requires
        s.wf(),
        s.phase() == Phase::Terminated,
    ensures
        s.built() == s.received_ideas,
        s.held is None,
        s.received_tokens == 1,
{
}

/// What an idle student does once it has looked for an idea.
pub enum IdleMove {
    /// Hold the idea that was found.
    Hold(Idea),
    /// Look for a termination token: no idea was found and the idea queue
    /// was seen empty.
    SeekToken,
    /// Do nothing, and look for an idea again later.
    Wait,
    /// Give up: the idea queue is disconnected.
    Fail,
}

/// What a student that looks for a token does once it has looked.
#[derive(Clone, Copy, Debug, PartialEq, Eq, Structural)]
pub enum TokenMove {
    /// Stop for good: a token was found.
    Stop,
    /// Do nothing, and look for an idea again later.
    Wait,
    /// Give up: the token queue is disconnected.
    Fail,
}

/// What a student that needs a package does once it has looked for one.
pub enum PackageMove {
    /// Put the package that was found into the buffer.
    Take(Package),
    /// Do nothing, and look for a package again later.
    Wait,
    /// Give up: the package queue is disconnected.
    Fail,
}

/// Decides what an idle student does, from what its look at the idea queue
/// found and from whether the queue was then seen empty. Only a student that
/// found no idea and saw the queue empty goes on to look for a token.
pub fn idle_move(polled: Polled<Idea>, queue_empty: bool) -> (choice: IdleMove)
    ensures
        match polled {
            Polled::Item(idea) => choice == IdleMove::Hold(idea),
            Polled::Closed => choice is Fail,
            Polled::Empty => if queue_empty {
                choice is SeekToken
            } else {
                choice is Wait
            },
        },
{
    match polled {
        Polled::Item(idea) => IdleMove::Hold(idea),
        Polled::Closed => IdleMove::Fail,
        Polled::Empty => if queue_empty {
            IdleMove::SeekToken
        } else {
            IdleMove::Wait
        },
    }
}

/// Decides what a student that looks for a token does, from what its look at
/// the token queue found. Any token stops it, whatever its value.
pub fn token_move(polled: Polled<bool>) -> (choice: TokenMove)
    ensures
        match polled {
            Polled::Item(_) => choice == TokenMove::Stop,
            Polled::Empty => choice == TokenMove::Wait,
            Polled::Closed => choice == TokenMove::Fail,
        },
{
    match polled {
        Polled::Item(_) => TokenMove::Stop,
        Polled::Empty => TokenMove::Wait,
        Polled::Closed => TokenMove::Fail,
    }
}

/// Decides what a student that needs a package does, from what its look at
/// the package queue found.
pub fn package_move(polled: Polled<Package>) -> (choice: PackageMove)
    ensures
        match polled {
            Polled::Item(package) => choice == PackageMove::Take(package),
            Polled::Empty => choice is Wait,
            Polled::Closed => choice is Fail,
        },
{
    match polled {
        Polled::Item(package) => PackageMove::Take(package),
        Polled::Empty => PackageMove::Wait,
        Polled::Closed => PackageMove::Fail,
    }
}

/// A consumer. It takes an idea from the idea queue, takes packages from the
/// package queue until its buffer has as many as the idea requires, builds
/// the idea, and starts over; it stops when it finds no idea and a
/// termination token.
pub struct Student {
    id: usize,
    idea: Option<Idea>,
    pkgs: Vec<Package>,
    terminated: bool,
    idea_recv: ReceivingEnd<Idea>,
    pkg_recv: ReceivingEnd<Package>,
    is_out_of_ideas_recv: ReceivingEnd<bool>,
    taken_ideas: Ghost<Seq<IdeaSpec>>,
    taken_pkgs: Ghost<Seq<Seq<char>>>,
    taken_tokens: Ghost<nat>,
    idea_sums: Ghost<Seq<Seq<u8>>>,
    pkg_sums: Ghost<Seq<Seq<u8>>>,
}

impl View for Student {
    type V = StudentState;

    closed spec fn view(&self) -> StudentState {
        StudentState {
            held: match self.idea {
                Some(idea) => Some(idea@),
                None => None,
            },
            buffer: package_names(self.pkgs@),
            terminated: self.terminated,
            received_ideas: self.taken_ideas@,
            received_packages: self.taken_pkgs@,
            received_tokens: self.taken_tokens@,
            idea_sums: self.idea_sums@,
            package_sums: self.pkg_sums@,
        }
    }
}

impl Student {
    /// The number that the student was given.
    pub closed spec fn number(&self) -> nat {
        self.id as nat
    }

    /// This student's end of the idea queue.
    pub closed spec fn idea_end(&self) -> ReceivingEnd<Idea> {
        self.idea_recv
    }

    /// This student's end of the package queue.
    pub closed spec fn package_end(&self) -> ReceivingEnd<Package> {
        self.pkg_recv
    }

    /// This student's end of the token queue.
    pub closed spec fn token_end(&self) -> ReceivingEnd<bool> {
        self.is_out_of_ideas_recv
    }

    /// Whether the student's account of what it received is what was taken
    /// from the queues through its ends.
    pub open spec fn in_step(&self) -> bool {
        &&& self@.received_ideas == idea_views(self.idea_end().drawn())
        &&& self@.received_packages == package_names(self.package_end().drawn())
        &&& self@.received_tokens == self.token_end().drawn().len()
    }

    /// Whether two states belong to the same student on the same queues.
    pub open spec fn same_ends(&self, other: &Self) -> bool {
        &&& self.number() == other.number()
        &&& self.idea_end().receiver() == other.idea_end().receiver()
        &&& self.package_end().receiver() == other.package_end().receiver()
        &&& self.token_end().receiver() == other.token_end().receiver()
    }

    /// Whether nothing was taken from any queue between two states.
    pub open spec fn nothing_drawn_since(&self, other: &Self) -> bool {
        &&& self.idea_end().drawn() == other.idea_end().drawn()
        &&& self.package_end().drawn() == other.package_end().drawn()
        &&& self.token_end().drawn() == other.token_end().drawn()
    }

    /// A student that has done nothing yet, reading from the three queues
    /// through the receivers given.
    pub fn new(
        id: usize,
        idea_recv: Receiver<Idea>,
        pkg_recv: Receiver<Package>,
        is_out_of_ideas_recv: Receiver<bool>,
    ) -> (student: Self)
        ensures
            student@ == StudentState::initial(),
            student@.wf(),
            student@.lean(),
            student.in_step(),
            student.number() == id,
            student.idea_end().receiver() == idea_recv,
            student.package_end().receiver() == pkg_recv,
            student.token_end().receiver() == is_out_of_ideas_recv,
            student.idea_end().drawn() == Seq::<Idea>::empty(),
            student.package_end().drawn() == Seq::<Package>::empty(),
            student.token_end().drawn() == Seq::<bool>::empty(),
    {
        let student = Self {
            id,
            idea_recv: ReceivingEnd::new(idea_recv),
            pkg_recv: ReceivingEnd::new(pkg_recv),
            is_out_of_ideas_recv: ReceivingEnd::new(is_out_of_ideas_recv),
            idea: None,
            pkgs: Vec::new(),
            terminated: false,
            taken_ideas: Ghost(Seq::empty()),
            taken_pkgs: Ghost(Seq::empty()),
            taken_tokens: Ghost(0),
            idea_sums: Ghost(Seq::empty()),
            pkg_sums: Ghost(Seq::empty()),
        };
        proof {
            assert(student@.buffer =~= Seq::<Seq<char>>::empty());
            assert(idea_views(student.idea_end().drawn()) =~= Seq::<IdeaSpec>::empty());
            assert(package_names(student.package_end().drawn()) =~= Seq::<Seq<char>>::empty());
            law_initial_state_wf();
        }
        student
    }

    /// The number that the student was given.
    pub fn id(&self) -> (id: usize)
        ensures
            id == self.number(),
    {
        self.id
    }

    /// The phase that the student is in.
    pub fn phase(&self) -> (phase: Phase)
        ensures
            phase == self@.phase(),
    {
        if self.terminated {
            Phase::Terminated
        } else {
            match &self.idea {
                None => Phase::Idle,
                Some(idea) => if self.pkgs.len() < idea.num_pkg_required {
                    Phase::HoldingIdea
                } else {
                    Phase::Building
                },
            }
        }
    }

    /// The number of packages in the local buffer.
    pub fn buffered(&self) -> (count: usize)
        ensures
            count == self@.buffer.len(),
    {
        self.pkgs.len()
    }

    /// Holds an idea that was taken from the idea queue.
    pub fn receive_idea(&mut self, idea: Idea)
        requires
            old(self)@.wf(),
            old(self)@.phase() == Phase::Idle,
        ensures
            final(self)@ == old(self)@.take_idea(idea@),
            final(self)@.wf(),
            final(self).same_ends(old(self)),
            final(self).nothing_drawn_since(old(self)),
    {
        proof {
            law_take_idea_keeps_wf(self@, idea@);
        }
        self.taken_ideas = Ghost(self.taken_ideas@.push(idea@));
        self.idea = Some(idea);
    }

    /// Appends a package that was taken from the package queue to the local buffer.
    pub fn receive_package(&mut self, package: Package)
        requires
            old(self)@.wf(),
        ensures
            final(self)@ == old(self)@.take_package(package@),
            final(self)@.wf(),
            final(self).same_ends(old(self)),
            final(self).nothing_drawn_since(old(self)),
    {
        proof {
            law_take_package_keeps_wf(self@, package@);
        }
        self.taken_pkgs = Ghost(self.taken_pkgs@.push(package@));
        self.pkgs.push(package);
        assert(package_names(self.pkgs@) =~= package_names(old(self).pkgs@).push(package@));
    }

    /// Builds the held idea: merges the digest of its name into
    /// `idea_checksum`, takes as many packages as it requires from the front
    /// of the buffer, merges the checksum of their names into `pkg_checksum`,
    /// and lets the idea go. A student that holds no idea does nothing.
    pub fn build_idea(&mut self, idea_checksum: &mut Accumulator, pkg_checksum: &mut Accumulator)
        requires
            old(self)@.wf(),
            old(self)@.held matches Some(idea) ==> old(self)@.buffer.len()
                >= idea.num_pkg_required,
        ensures
            final(self)@.wf(),
            final(self).same_ends(old(self)),
            final(self).nothing_drawn_since(old(self)),
            final(idea_checksum).same_as(old(idea_checksum)),
            final(pkg_checksum).same_as(old(pkg_checksum)),
            match old(self)@.held {
                None => {
                    &&& final(self)@ == old(self)@
                    &&& final(idea_checksum).merged() == old(idea_checksum).merged()
                    &&& final(pkg_checksum).merged() == old(pkg_checksum).merged()
                },
                Some(idea) => {
                    &&& final(self)@ == old(self)@.build()
                    &&& final(idea_checksum).merged() == old(idea_checksum).merged().push(
                        digest(idea.name),
                    )
                    &&& final(pkg_checksum).merged() == old(pkg_checksum).merged().push(
                        accumulate(old(self)@.buffer.take(idea.num_pkg_required as int)),
                    )
                },
            },
    {
        proof {
            idea_checksum.lemma_same_as_itself();
            pkg_checksum.lemma_same_as_itself();
        }
        if self.idea.is_none() {
            return ;
        }
        proof {
            law_build_keeps_wf(self@);
        }
        let ghost names = package_names(self.pkgs@);
        let idea = self.idea.take().unwrap();
        let pkgs_required = idea.num_pkg_required;

        let mut batch_idea_checksum = Batch::new();
        batch_idea_checksum.add(idea.name.as_str());
        proof {
            lemma_merged_identity(digest(idea.name@));
        }
        idea_checksum.merge_in(batch_idea_checksum);
        self.idea_sums = Ghost(self.idea_sums@.push(digest(idea.name@)));

        let mut pkgs_used = self.pkgs.split_off(pkgs_required);
        core::mem::swap(&mut self.pkgs, &mut pkgs_used);
        let mut batch_pkg_checksum = Batch::new();
        proof {
            lemma_accumulate_empty();
            assert(names.take(0) =~= Seq::<Seq<char>>::empty());
        }
        let mut i: usize = 0;
        while i < pkgs_used.len()
            invariant
                i <= pkgs_used.len(),
                pkgs_used.len() == pkgs_required,
                pkgs_required <= names.len(),
                forall|k: int| 0 <= k < pkgs_used.len() ==> pkgs_used@[k]@ == names[k],
                batch_pkg_checksum@ == accumulate(names.take(i as int)),
            decreases pkgs_used.len() - i,
        {
            batch_pkg_checksum.add(pkgs_used[i].name.as_str());
            proof {
                lemma_accumulate_push(names.take(i as int), names[i as int]);
                assert(names.take(i + 1) =~= names.take(i as int).push(names[i as int]));
            }
            i += 1;
        }
        pkg_checksum.merge_in(batch_pkg_checksum);
        self.pkg_sums = Ghost(self.pkg_sums@.push(accumulate(names.take(pkgs_required as int))));
        assert(package_names(self.pkgs@) =~= names.skip(pkgs_required as int));
    }

    /// Stops the student after it has taken a termination token.
    pub fn receive_token(&mut self)
        requires
            old(self)@.wf(),
            old(self)@.phase() == Phase::Idle,
        ensures
            final(self)@ == old(self)@.take_token(),
            final(self)@.wf(),
            final(self).same_ends(old(self)),
            final(self).nothing_drawn_since(old(self)),
    {
        proof {
            law_take_token_keeps_wf(self@);
        }
        self.taken_tokens = Ghost(self.taken_tokens@ + 1);
        self.terminated = true;
    }

    /// Makes one move, which depends on the phase. An idle student tries to
    /// take an idea; if there is none, and the idea queue is empty, it tries
    /// to take a token and stops if it gets one. A student that holds an idea
    /// with too few packages tries to take a package. A student that holds an
    /// idea with enough packages builds it. A stopped student does nothing.
    /// An attempt that finds nothing changes nothing. A disconnected queue is
    /// an error, and leaves the student as it was.
    ///
    /// Ideas and tokens are taken from their queues only by an idle student,
    /// a token only in a move in which no idea was taken, and packages only
    /// by a student that holds an idea for which it has too few.
    ///
    /// That no idea is waiting and that a token is waiting are two separate
    /// observations. A producer may still be sending ideas when another
    /// producer's token is taken, so a student can stop while ideas are yet to
    /// come. The tokens only guarantee that, in all, as many students stop as
    /// tokens are sent.
    pub fn step(&mut self, idea_checksum: &mut Accumulator, pkg_checksum: &mut Accumulator) -> (outcome:
        Result<Phase, ChannelUnavailableError>)
        requires
            old(self)@.wf(),
        ensures
            final(self)@.wf(),
            final(self)@.extends(old(self)@),
            final(self).same_ends(old(self)),
            old(self).in_step() ==> final(self).in_step(),
            old(self)@.lean() ==> final(self)@.lean(),
            final(idea_checksum).same_as(old(idea_checksum)),
            final(pkg_checksum).same_as(old(pkg_checksum)),
            final(idea_checksum).merged() == old(idea_checksum).merged() + added(
                final(self)@.idea_sums,
                old(self)@.idea_sums,
            ),
            final(pkg_checksum).merged() == old(pkg_checksum).merged() + added(
                final(self)@.package_sums,
                old(self)@.package_sums,
            ),
            outcome matches Ok(phase) ==> phase == final(self)@.phase(),
            outcome is Err ==> final(self)@ == old(self)@ && final(self).nothing_drawn_since(
                old(self),
            ),
            final(self).idea_end().drawn() != old(self).idea_end().drawn() ==> old(self)@.phase()
                == Phase::Idle,
            final(self).token_end().drawn() != old(self).token_end().drawn() ==> old(
                self,
            )@.phase() == Phase::Idle && final(self).idea_end().drawn() == old(
                self,
            ).idea_end().drawn(),
            final(self).package_end().drawn() != old(self).package_end().drawn() ==> old(
                self,
            )@.phase() == Phase::HoldingIdea,
            match old(self)@.phase() {
                Phase::Terminated => outcome == Ok::<Phase, ChannelUnavailableError>(
                    Phase::Terminated,
                ) && final(self)@ == old(self)@ && final(self).nothing_drawn_since(old(self)),
                Phase::Idle => match outcome {
                    Ok(_) => {
                        ||| final(self)@ == old(self)@
                        ||| final(self)@ == old(self)@.take_token()
                        ||| final(self)@.held matches Some(idea) && final(self)@ == old(
                            self,
                        )@.take_idea(idea)
                    },
                    Err(fault) => fault.queue == Queue::Ideas || fault.queue == Queue::Tokens,
                },
                Phase::HoldingIdea => match outcome {
                    Ok(_) => {
                        ||| final(self)@ == old(self)@
                        ||| final(self)@.received_packages.len() > 0 && final(self)@ == old(
                            self,
                        )@.take_package(final(self)@.received_packages.last())
                    },
                    Err(fault) => fault.queue == Queue::Packages,
                },
                Phase::Building => outcome == Ok::<Phase, ChannelUnavailableError>(Phase::Idle)
                    && final(self)@ == old(self)@.build() && final(self).nothing_drawn_since(
                    old(self),
                ),
            },
    {
        proof {
            idea_checksum.lemma_same_as_itself();
            pkg_checksum.lemma_same_as_itself();
            assert(idea_checksum.merged() + added(self@.idea_sums, self@.idea_sums)
                =~= idea_checksum.merged());
            assert(pkg_checksum.merged() + added(self@.package_sums, self@.package_sums)
                =~= pkg_checksum.merged());
        }
        match self.phase() {
            Phase::Terminated => {},
            Phase::Idle => {
                let ghost drawn = self.idea_recv.drawn();
                let polled = self.idea_recv.poll();
                let queue_empty = match &polled {
                    Polled::Empty => self.idea_recv.seems_empty(),
                    _ => false,
                };
                match idle_move(polled, queue_empty) {
                    IdleMove::Hold(idea) => {
                        proof {
                            law_take_idea_keeps_wf(self@, idea@);
                            assert(idea_views(drawn.push(idea)) =~= idea_views(drawn).push(idea@));
                        }
                        self.receive_idea(idea);
                    },
                    IdleMove::Fail => {
                        return Err(ChannelUnavailableError { queue: Queue::Ideas });
                    },
                    IdleMove::Wait => {},
                    IdleMove::SeekToken => {
                        match token_move(self.is_out_of_ideas_recv.poll()) {
                            TokenMove::Stop => {
                                proof {
                                    law_take_token_keeps_wf(self@);
                                }
                                self.receive_token();
                            },
                            TokenMove::Wait => {},
                            TokenMove::Fail => {
                                return Err(ChannelUnavailableError { queue: Queue::Tokens });
                            },
                        }
                    },
                }
            },
            Phase::HoldingIdea => {
                let ghost drawn = self.pkg_recv.drawn();
                match package_move(self.pkg_recv.poll()) {
                    PackageMove::Take(package) => {
                        proof {
                            law_take_package_keeps_wf(self@, package@);
                            assert(package_names(drawn.push(package)) =~= package_names(drawn).push(
                                package@,
                            ));
                        }
                        self.receive_package(package);
                    },
                    PackageMove::Wait => {},
                    PackageMove::Fail => {
                        return Err(ChannelUnavailableError { queue: Queue::Packages });
                    },
                }
            },
            Phase::Building => {
                proof {
                    law_build_keeps_wf(self@);
                    let s = self@;
                    assert(added(s.build().idea_sums, s.idea_sums) =~= seq![
                        digest(s.held.unwrap().name),
                    ]);
                    assert(added(s.build().package_sums, s.package_sums) =~= seq![
                        accumulate(s.buffer.take(s.held.unwrap().num_pkg_required as int)),
                    ]);
                }
                self.build_idea(idea_checksum, pkg_checksum);
                proof {
                    assert(idea_checksum.merged() =~= old(idea_checksum).merged() + added(
                        self@.idea_sums,
                        old(self)@.idea_sums,
                    ));
                    assert(pkg_checksum.merged() =~= old(pkg_checksum).merged() + added(
                        self@.package_sums,
                        old(self)@.package_sums,
                    ));
                }
            },
        }
        proof {
            assert(idea_checksum.merged() == old(idea_checksum).merged() + added(
                self@.idea_sums,
                old(self)@.idea_sums,
            ));
        }
        Ok(self.phase())
    }

    /// Makes moves until the student has stopped, a queue is found
    /// disconnected, or `max_steps` moves were made; and tells the phase that
    /// the student is left in.
    ///
    /// A student that was in step with its queues stays so, and what was
    /// merged through the two handles is what the student's account gained.
    /// A student that held no more packages than it needed has taken none
    /// that it does not need.
    pub fn run(
        &mut self,
        idea_checksum: &mut Accumulator,
        pkg_checksum: &mut Accumulator,
        max_steps: usize,
    ) -> (outcome: Result<Phase, ChannelUnavailableError>)
        requires
            old(self)@.wf(),
        ensures
            final(self)@.wf(),
            final(self)@.extends(old(self)@),
            final(self).same_ends(old(self)),
            old(self).in_step() ==> final(self).in_step(),
            old(self)@.lean() ==> final(self)@.lean(),
            final(idea_checksum).same_as(old(idea_checksum)),
            final(pkg_checksum).same_as(old(pkg_checksum)),
            final(idea_checksum).merged() == old(idea_checksum).merged() + added(
                final(self)@.idea_sums,
                old(self)@.idea_sums,
            ),
            final(pkg_checksum).merged() == old(pkg_checksum).merged() + added(
                final(self)@.package_sums,
                old(self)@.package_sums,
            ),
            outcome matches Ok(phase) ==> phase == final(self)@.phase(),
            outcome matches Err(fault) ==> max_steps > 0 && match fault.queue {
                Queue::Packages => final(self)@.phase() == Phase::HoldingIdea,
                _ => final(self)@.phase() == Phase::Idle,
            },
            max_steps == 0 ==> final(self)@ == old(self)@ && outcome is Ok && final(self).nothing_drawn_since(old(self)),
            max_steps > 0 && old(self)@.phase() == Phase::Building ==> final(self)@.extends(
                old(self)@.build(),
            ),
    {
        proof {
            idea_checksum.lemma_same_as_itself();
            pkg_checksum.lemma_same_as_itself();
            assert(idea_checksum.merged() + added(self@.idea_sums, self@.idea_sums)
                =~= idea_checksum.merged());
            assert(pkg_checksum.merged() + added(self@.package_sums, self@.package_sums)
                =~= pkg_checksum.merged());
        }
        let mut left: usize = max_steps;
        let mut phase = self.phase();
        while left > 0 && phase != Phase::Terminated
            invariant
                self@.wf(),
                self@.extends(old(self)@),
                self.same_ends(old(self)),
                old(self).in_step() ==> self.in_step(),
                old(self)@.lean() ==> self@.lean(),
                idea_checksum.same_as(old(idea_checksum)),
                pkg_checksum.same_as(old(pkg_checksum)),
                idea_checksum.merged() == old(idea_checksum).merged() + added(
                    self@.idea_sums,
                    old(self)@.idea_sums,
                ),
                pkg_checksum.merged() == old(pkg_checksum).merged() + added(
                    self@.package_sums,
                    old(self)@.package_sums,
                ),
                phase == self@.phase(),
                left <= max_steps,
                left == max_steps ==> self@ == old(self)@ && self.nothing_drawn_since(old(self)),
                left < max_steps && old(self)@.phase() == Phase::Building ==> self@.extends(
                    old(self)@.build(),
                ),
            decreases left,
        {
            let ghost earlier = self@;
            let ghost ideas_merged = idea_checksum.merged();
            let ghost pkgs_merged = pkg_checksum.merged();
            let ghost idea_handle = *idea_checksum;
            let ghost pkg_handle = *pkg_checksum;
            let moved = self.step(idea_checksum, pkg_checksum);
            proof {
                lemma_extends_transitive(old(self)@, earlier, self@);
                if left < max_steps && old(self)@.phase() == Phase::Building {
                    lemma_extends_transitive(old(self)@.build(), earlier, self@);
                }
                lemma_added_in_two(old(self)@.idea_sums, earlier.idea_sums, self@.idea_sums);
                lemma_added_in_two(
                    old(self)@.package_sums,
                    earlier.package_sums,
                    self@.package_sums,
                );
                assert(idea_checksum.merged() =~= old(idea_checksum).merged() + added(
                    self@.idea_sums,
                    old(self)@.idea_sums,
                ));
                assert(pkg_checksum.merged() =~= old(pkg_checksum).merged() + added(
                    self@.package_sums,
                    old(self)@.package_sums,
                ));
                idea_checksum.lemma_same_as_chain(&idea_handle, old(idea_checksum));
                pkg_checksum.lemma_same_as_chain(&pkg_handle, old(pkg_checksum));
            }
            match moved {
                Ok(next) => {
                    phase = next;
                },
                Err(fault) => {
                    return Err(fault);
                },
            }
            left -= 1;
        }
        Ok(phase)
    }
}

/// A state that can follow a state that can follow a third can follow the third.
pub proof fn lemma_extends_transitive(first: StudentState, second: StudentState, third: StudentState)
    requires
        second.extends(first),
        third.extends(second),
    ensures
        third.extends(first),
{
}

} // verus!
