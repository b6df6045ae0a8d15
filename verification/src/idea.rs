//! Ideas and the workers that produce them.

use crate::accumulator::Accumulator;
use crate::checksum::accumulate;
use crate::checksum::lemma_accumulate_push;
use crate::checksum::lemma_settled_after_batch;
use crate::checksum::settled;
use crate::checksum::Batch;
use crate::partition::per_thread_amount;
use crate::partition::share;
use crate::partition::shares_before;
use crate::queue::ChannelUnavailableError;
use crate::queue::Queue;
use crate::queue::SendingEnd;
use crossbeam::channel::Sender;
use std::sync::Arc;
use vstd::prelude::*;
use vstd::string::StringExecFns;

verus! {

/// A work item that can be built once enough packages are at hand.
pub struct Idea {
    /// The idea's name.
    pub name: String,
    /// How many packages it takes to build the idea.
    pub num_pkg_required: usize,
}

/// What an idea is: its name and its requirement.
pub struct IdeaSpec {
    /// The characters of the name.
    pub name: Seq<char>,
    /// The number of packages that the idea requires.
    pub num_pkg_required: nat,
}

impl View for Idea {
    type V = IdeaSpec;

    open spec fn view(&self) -> IdeaSpec {
        IdeaSpec { name: self.name@, num_pkg_required: self.num_pkg_required as nat }
    }
}

/// The name of the idea made of a product and a customer.
pub open spec fn pair_name(pair: (String, String)) -> Seq<char> {
    pair.0@ + " for "@ + pair.1@
}

/// The names of all the ideas of a name space, in the order of its pairs.
pub open spec fn name_space(pairs: Seq<(String, String)>) -> Seq<Seq<char>> {
    Seq::new(pairs.len(), |k: int| pair_name(pairs[k]))
}

/// What each idea of a sequence is, in order.
pub open spec fn idea_views(ideas: Seq<Idea>) -> Seq<IdeaSpec> {
    Seq::new(ideas.len(), |k: int| ideas[k]@)
}

/// As many termination tokens as `count` says.
pub open spec fn tokens(count: nat) -> Seq<bool> {
    Seq::new(count, |k: int| true)
}

/// The names of a sequence of ideas, in order.
pub open spec fn names_of(ideas: Seq<IdeaSpec>) -> Seq<Seq<char>> {
    Seq::new(ideas.len(), |k: int| ideas[k].name)
}

/// The number of packages that a sequence of ideas requires in all.
pub open spec fn required_by(ideas: Seq<IdeaSpec>) -> nat
    decreases ideas.len(),
{
    if ideas.len() == 0 {
        0
    } else {
        required_by(ideas.drop_last()) + ideas.last().num_pkg_required
    }
}

/// The idea that a producer generates at local index `i`: named after the
/// global index `start + i`, cycling through the name space, and requiring
/// its share of the producer's `packages`.
pub open spec fn planned_idea(
    names: Seq<Seq<char>>,
    start: nat,
    count: nat,
    packages: nat,
    i: nat,
) -> IdeaSpec {
    IdeaSpec {
        name: names[((start + i) % names.len()) as int],
        num_pkg_required: share(i, packages, count),
    }
}

/// The ideas that a producer generates, in the order in which it sends them.
pub open spec fn planned_batch(
    names: Seq<Seq<char>>,
    start: nat,
    count: nat,
    packages: nat,
) -> Seq<IdeaSpec> {
    Seq::new(count, |i: int| planned_idea(names, start, count, packages, i as nat))
}

/// The first `n` ideas of a batch require what the first `n` of `count`
/// workers would receive of `packages`.
pub proof fn lemma_required_by_prefix(
    names: Seq<Seq<char>>,
    start: nat,
    count: nat,
    packages: nat,
    n: nat,
)
    requires
        n <= count,
    ensures
        required_by(planned_batch(names, start, count, packages).take(n as int)) == shares_before(
            n,
            packages,
            count,
        ),
    decreases n,
{
    let batch = planned_batch(names, start, count, packages);
    if n > 0 {
        lemma_required_by_prefix(names, start, count, packages, (n - 1) as nat);
        assert(batch.take(n as int).drop_last() =~= batch.take(n - 1));
    }
}

/// The requirements of a producer's ideas add up to the packages apportioned
/// to it, provided that it generates an idea at all.
pub proof fn law_batch_requires_all_packages(
    names: Seq<Seq<char>>,
    start: nat,
    count: nat,
    packages: nat,
)
    requires
        count > 0,
    ensures
        required_by(planned_batch(names, start, count, packages)) == packages,
{
    let batch = planned_batch(names, start, count, packages);
    lemma_required_by_prefix(names, start, count, packages, count);
    assert(batch.take(count as int) =~= batch);
    crate::partition::lemma_shares_cover_total(packages, count);
}

/// Two runs of ideas one after the other require what each requires, added up.
pub proof fn lemma_required_by_concat(front: Seq<IdeaSpec>, back: Seq<IdeaSpec>)
    ensures
        required_by(front + back) == required_by(front) + required_by(back),
    decreases back.len(),
{
    if back.len() == 0 {
        assert(front + back =~= front);
    } else {
        assert((front + back).drop_last() =~= front + back.drop_last());
        lemma_required_by_concat(front, back.drop_last());
    }
}

/// A producer of ideas. It generates its ideas in order, sends each to the
/// idea queue, merges the checksum of the batch into the shared accumulator,
/// and then sends its termination tokens.
pub struct IdeaGenerator {
    idea_start_idx: usize,
    num_ideas: usize,
    num_students: usize,
    num_pkgs: usize,
    idea_send: SendingEnd<Idea>,
    is_out_of_ideas_send: SendingEnd<bool>,
    ideas: Arc<Vec<(String, String)>>,
}

impl IdeaGenerator {
    /// The global index of this producer's first idea.
    pub closed spec fn start(&self) -> nat {
        self.idea_start_idx as nat
    }

    /// The number of ideas that one run generates.
    pub closed spec fn count(&self) -> nat {
        self.num_ideas as nat
    }

    /// The number of termination tokens that one run sends.
    pub closed spec fn students(&self) -> nat {
        self.num_students as nat
    }

    /// The number of packages apportioned to the ideas of one run.
    pub closed spec fn packages(&self) -> nat {
        self.num_pkgs as nat
    }

    /// The name space that the ideas are named from.
    pub closed spec fn names(&self) -> Seq<Seq<char>> {
        name_space(self.ideas@)
    }

    /// This producer's end of the idea queue.
    pub closed spec fn idea_end(&self) -> SendingEnd<Idea> {
        self.idea_send
    }

    /// This producer's end of the token queue.
    pub closed spec fn token_end(&self) -> SendingEnd<bool> {
        self.is_out_of_ideas_send
    }

    /// The ideas that the idea queue has accepted from this producer so far, in order.
    pub open spec fn sent_ideas(&self) -> Seq<IdeaSpec> {
        idea_views(self.idea_end().handed())
    }

    /// The tokens that the token queue has accepted from this producer so far.
    pub open spec fn sent_tokens(&self) -> Seq<bool> {
        self.token_end().handed()
    }

    /// The ideas of one run, in order.
    pub open spec fn batch(&self) -> Seq<IdeaSpec> {
        planned_batch(self.names(), self.start(), self.count(), self.packages())
    }

    /// A producer can run when its name space is not empty, unless it has no
    /// idea to name, and when its global indices fit the machine.
    pub open spec fn wf(&self) -> bool {
        &&& self.count() > 0 ==> self.names().len() > 0
        &&& self.start() + self.count() <= usize::MAX
    }

    /// Whether everything that this producer has sent is accounted for in what
    /// was merged through `handle`: the checksums merged combine to the
    /// checksum of the names of the ideas sent.
    pub open spec fn settled_with(&self, handle: &Accumulator) -> bool {
        settled(names_of(self.sent_ideas()), handle.merged())
    }

    /// Whether two states belong to the same producer with the same
    /// assignment and the same queues.
    pub open spec fn same_assignment(&self, other: &Self) -> bool {
        &&& self.start() == other.start()
        &&& self.count() == other.count()
        &&& self.students() == other.students()
        &&& self.packages() == other.packages()
        &&& self.names() == other.names()
        &&& self.idea_end().sender() == other.idea_end().sender()
        &&& self.token_end().sender() == other.token_end().sender()
    }

    /// A producer of `num_ideas` ideas from global index `idea_start_idx` on,
    /// which share `num_pkgs` packages, and of `num_students` tokens. It
    /// sends its ideas through `idea_send` and its tokens through
    /// `is_out_of_ideas_send`, and has sent nothing yet.
    pub fn new(
        idea_start_idx: usize,
        num_ideas: usize,
        num_students: usize,
        num_pkgs: usize,
        idea_send: Sender<Idea>,
        is_out_of_ideas_send: Sender<bool>,
        ideas: Arc<Vec<(String, String)>>,
    ) -> (generator: Self)
        requires
            num_ideas > 0 ==> ideas@.len() > 0,
            idea_start_idx + num_ideas <= usize::MAX,
        ensures
            generator.wf(),
            generator.start() == idea_start_idx,
            generator.count() == num_ideas,
            generator.students() == num_students,
            generator.packages() == num_pkgs,
            generator.names() == name_space(ideas@),
            generator.idea_end().sender() == idea_send,
            generator.token_end().sender() == is_out_of_ideas_send,
            generator.sent_ideas() == Seq::<IdeaSpec>::empty(),
            generator.sent_tokens() == Seq::<bool>::empty(),
    {
        let generator = Self {
            idea_start_idx,
            num_ideas,
            num_students,
            num_pkgs,
            idea_send: SendingEnd::new(idea_send),
            is_out_of_ideas_send: SendingEnd::new(is_out_of_ideas_send),
            ideas,
        };
        assert(generator.sent_ideas() =~= Seq::<IdeaSpec>::empty());
        generator
    }

    /// The global index of this producer's first idea.
    pub fn idea_start_idx(&self) -> (start: usize)
        ensures
            start == self.start(),
    {
        self.idea_start_idx
    }

    /// The number of ideas that one run generates.
    pub fn num_ideas(&self) -> (count: usize)
        ensures
            count == self.count(),
    {
        self.num_ideas
    }

    /// The number of termination tokens that one run sends.
    pub fn num_students(&self) -> (count: usize)
        ensures
            count == self.students(),
    {
        self.num_students
    }

    /// The number of packages apportioned to the ideas of one run.
    pub fn num_pkgs(&self) -> (count: usize)
        ensures
            count == self.packages(),
    {
        self.num_pkgs
    }

    /// The name of the idea at global index `idx`: the product and the customer
    /// of the pair at `idx`, cycling through the name space.
    pub fn get_next_idea_name(&self, idx: usize) -> (name: String)
        requires
            self.names().len() > 0,
        ensures
            name@ == self.names()[(idx as nat % self.names().len()) as int],
    {
        let pairs: &Vec<(String, String)> = &self.ideas;
        let pair = &pairs[idx % pairs.len()];
        let mut name = pair.0.clone();
        name.append(" for ");
        name.append(pair.1.as_str());
        name
    }

    /// The idea at local index `i` of a run.
    pub fn idea_at(&self, i: usize) -> (idea: Idea)
        requires
            self.wf(),
            i < self.count(),
        ensures
            idea@ == self.batch()[i as int],
    {
        let name = self.get_next_idea_name(self.idea_start_idx + i);
        let num_pkg_required = per_thread_amount(i, self.num_pkgs, self.num_ideas);
        Idea { name, num_pkg_required }
    }

    /// Generates the ideas of this producer and sends them, merges the
    /// checksum of their names into `idea_checksum`, and sends the tokens.
    /// Stops at the first queue that is found disconnected.
    ///
    /// When it succeeds, the idea queue has accepted exactly the ideas of the
    /// batch, in order, the checksum of their names was merged in one step,
    /// and the token queue has accepted one token for each student. When it
    /// fails, a part of the ideas or of the tokens went out, in order.
    pub fn run(&mut self, idea_checksum: &mut Accumulator) -> (outcome: Result<
        (),
        ChannelUnavailableError,
    >)
        requires
            old(self).wf(),
        ensures
            final(self).wf(),
            final(self).same_assignment(old(self)),
            final(idea_checksum).same_as(old(idea_checksum)),
            outcome is Ok && old(self).settled_with(old(idea_checksum)) ==> final(self).settled_with(
                final(idea_checksum),
            ),
            outcome is Ok ==> {
                &&& final(self).sent_ideas() == old(self).sent_ideas() + old(self).batch()
                &&& final(idea_checksum).merged() == old(idea_checksum).merged().push(
                    accumulate(names_of(old(self).batch())),
                )
                &&& final(self).sent_tokens() == old(self).sent_tokens() + tokens(
                    old(self).students(),
                )
            },
            outcome matches Err(fault) ==> {
                let ideas = final(self).sent_ideas().len() - old(self).sent_ideas().len();
                let given = final(self).sent_tokens().len() - old(self).sent_tokens().len();
                &&& fault.queue != Queue::Packages
                &&& fault.queue == Queue::Ideas ==> {
                    &&& 0 <= ideas < old(self).count()
                    &&& final(self).sent_ideas() == old(self).sent_ideas() + old(self).batch().take(
                        ideas,
                    )
                    &&& final(idea_checksum).merged() == old(idea_checksum).merged()
                    &&& final(self).sent_tokens() == old(self).sent_tokens()
                }
                &&& fault.queue == Queue::Tokens ==> {
                    &&& final(self).sent_ideas() == old(self).sent_ideas() + old(self).batch()
                    &&& final(idea_checksum).merged() == old(idea_checksum).merged().push(
                        accumulate(names_of(old(self).batch())),
                    )
                    &&& 0 <= given < old(self).students()
                    &&& final(self).sent_tokens() == old(self).sent_tokens() + tokens(
                        given as nat,
                    )
                }
            },
    {
        let ghost before = *self;
        let ghost batch = self.batch();
        let ghost merged_before = idea_checksum.merged();
        proof {
            if self.settled_with(idea_checksum) {
                lemma_settled_after_batch(
                    names_of(self.sent_ideas()),
                    idea_checksum.merged(),
                    names_of(batch),
                );
                assert(names_of(self.sent_ideas() + batch) =~= names_of(self.sent_ideas())
                    + names_of(batch));
            }
            idea_checksum.lemma_same_as_itself();
        }
        let mut batch_checksum = Batch::new();
        proof {
            assert(names_of(batch.take(0)) =~= Seq::<Seq<char>>::empty());
            assert(self.sent_ideas() =~= before.sent_ideas() + batch.take(0));
        }
        let mut i: usize = 0;
        while i < self.num_ideas
            invariant
                before == *old(self),
                *idea_checksum == *old(idea_checksum),
                idea_checksum.same_as(old(idea_checksum)),
                self.wf(),
                self.same_assignment(&before),
                batch == before.batch(),
                i <= self.num_ideas,
                self.sent_ideas() == before.sent_ideas() + batch.take(i as int),
                self.sent_tokens() == before.sent_tokens(),
                batch_checksum@ == accumulate(names_of(batch.take(i as int))),
            decreases self.num_ideas - i,
        {
            let idea = self.idea_at(i);
            let ghost planned = idea@;
            let ghost handed = self.idea_send.handed();
            batch_checksum.add(idea.name.as_str());
            proof {
                lemma_accumulate_push(names_of(batch.take(i as int)), planned.name);
                assert(names_of(batch.take(i + 1)) =~= names_of(batch.take(i as int)).push(
                    planned.name,
                ));
            }
            match self.idea_send.send(idea) {
                Ok(_) => {},
                Err(_) => {
                    return Err(ChannelUnavailableError { queue: Queue::Ideas });
                },
            }
            proof {
                assert(idea_views(handed.push(idea)) =~= idea_views(handed).push(planned));
                assert(self.sent_ideas() =~= before.sent_ideas() + batch.take(i + 1));
            }
            i += 1;
        }
        assert(batch.take(i as int) =~= batch);
        idea_checksum.merge_in(batch_checksum);
        proof {
            assert(before.sent_tokens() + tokens(0) =~= before.sent_tokens());
        }
        let mut t: usize = 0;
        while t < self.num_students
            invariant
                before == *old(self),
                merged_before == old(idea_checksum).merged(),
                idea_checksum.same_as(old(idea_checksum)),
                self.wf(),
                self.same_assignment(&before),
                batch == before.batch(),
                t <= self.num_students,
                self.sent_ideas() == before.sent_ideas() + batch,
                self.sent_tokens() == before.sent_tokens() + tokens(t as nat),
                idea_checksum.merged() == merged_before.push(accumulate(names_of(batch))),
            decreases self.num_students - t,
        {
            match self.is_out_of_ideas_send.send(true) {
                Ok(_) => {},
                Err(_) => {
                    return Err(ChannelUnavailableError { queue: Queue::Tokens });
                },
            }
            proof {
                assert(self.sent_tokens() =~= before.sent_tokens() + tokens((t + 1) as nat));
            }
            t += 1;
        }
        Ok(())
    }
}

} // verus!
