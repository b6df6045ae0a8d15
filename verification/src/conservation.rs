//! Why the checksums of a run match: what the producers merged and what the
//! students merged combine to the same checksum whenever the queues handed
//! every item over exactly once and nothing was left behind.
//!
//! The laws speak of the records that the ends of the queues and the handles
//! to the accumulators keep. What an accumulator holds at a given moment is
//! no part of them.

use crate::accumulator::Accumulator;
use crate::checksum::accumulate;
use crate::checksum::combine;
use crate::checksum::concat;
use crate::checksum::digests;
use crate::checksum::law_accumulate_order_independent;
use crate::checksum::law_combine_order_independent;
use crate::checksum::lemma_accumulate_concat;
use crate::checksum::lemma_batch_sums_sized;
use crate::checksum::lemma_combine_concat;
use crate::checksum::lemma_sized_rearranged;
use crate::checksum::sized;
use crate::idea::idea_views;
use crate::idea::names_of;
use crate::idea::IdeaGenerator;
use crate::package::package_names;
use crate::package::PackageDownloader;
use crate::student::law_lean_student_takes_what_it_needs;
use crate::student::law_merged_is_consumed;
use crate::student::package_batches;
use crate::student::Phase;
use crate::student::Student;
use vstd::prelude::*;

verus! {

/// The names of the ideas that the idea queue accepted from each producer.
pub open spec fn ideas_sent(generators: Seq<IdeaGenerator>) -> Seq<Seq<Seq<char>>> {
    Seq::new(generators.len(), |k: int| names_of(generators[k].sent_ideas()))
}

/// The names of the packages that the package queue accepted from each producer.
pub open spec fn packages_sent(downloaders: Seq<PackageDownloader>) -> Seq<Seq<Seq<char>>> {
    Seq::new(downloaders.len(), |k: int| downloaders[k].sent_packages())
}

/// The names of the ideas that each student took from the idea queue.
pub open spec fn ideas_drawn(students: Seq<Student>) -> Seq<Seq<Seq<char>>> {
    Seq::new(students.len(), |k: int| names_of(idea_views(students[k].idea_end().drawn())))
}

/// The names of the packages that each student took from the package queue.
pub open spec fn packages_drawn(students: Seq<Student>) -> Seq<Seq<Seq<char>>> {
    Seq::new(students.len(), |k: int| package_names(students[k].package_end().drawn()))
}

/// The checksums that were merged through each handle.
pub open spec fn merged_through(handles: Seq<Accumulator>) -> Seq<Seq<Seq<u8>>> {
    Seq::new(handles.len(), |k: int| handles[k].merged())
}

/// Where the checksums of each worker combine to the checksum of that
/// worker's texts, the checksums of all workers combine to the checksum of
/// all their texts.
pub proof fn lemma_workers_combine(texts: Seq<Seq<Seq<char>>>, sums: Seq<Seq<Seq<u8>>>)
    requires
        texts.len() == sums.len(),
        forall|k: int|
            0 <= k < sums.len() ==> sized(#[trigger] sums[k]) && combine(sums[k]) == accumulate(
                texts[k],
            ),
    ensures
        sized(concat(sums)),
        combine(concat(sums)) == accumulate(concat(texts)),
    decreases texts.len(),
{
    if texts.len() == 0 {
        assert(digests(concat(texts)) =~= Seq::<Seq<u8>>::empty());
    } else {
        lemma_workers_combine(texts.drop_last(), sums.drop_last());
        assert(sized(sums.last()));
        lemma_combine_concat(concat(sums.drop_last()), sums.last());
        lemma_accumulate_concat(concat(texts.drop_last()), texts.last());
    }
}

/// The idea checksums of a run match. Take idea producers, each with the
/// handle it merged through, whose accounts are settled; and students, each
/// with the handle it merged through, that are in step with their queues,
/// have all stopped, and have merged through their handles what their
/// accounts say. If the ideas that the students took from the queue are the
/// ideas that the queue accepted from the producers, each as often as it was
/// accepted, then the checksums merged on the two sides combine to the same
/// checksum, in whatever order they reached the two accumulators.
pub proof fn law_ideas_conserved(
    generators: Seq<IdeaGenerator>,
    producer_handles: Seq<Accumulator>,
    students: Seq<Student>,
    student_handles: Seq<Accumulator>,
    producer_merges: Seq<Seq<u8>>,
    student_merges: Seq<Seq<u8>>,
)
    requires
        generators.len() == producer_handles.len(),
        forall|k: int|
            0 <= k < generators.len() ==> (#[trigger] generators[k]).settled_with(
                &producer_handles[k],
            ),
        students.len() == student_handles.len(),
        forall|k: int|
            0 <= k < students.len() ==> {
                &&& (#[trigger] students[k])@.wf()
                &&& students[k].in_step()
                &&& students[k]@.phase() == Phase::Terminated
                &&& student_handles[k].merged() == students[k]@.idea_sums
            },
        concat(ideas_sent(generators)).to_multiset() == concat(ideas_drawn(students)).to_multiset(),
        producer_merges.to_multiset() == concat(merged_through(producer_handles)).to_multiset(),
        student_merges.to_multiset() == concat(merged_through(student_handles)).to_multiset(),
    ensures
        combine(producer_merges) == combine(student_merges),
{
    assert forall|k: int| 0 <= k < generators.len() implies sized(
        #[trigger] merged_through(producer_handles)[k],
    ) && combine(merged_through(producer_handles)[k]) == accumulate(ideas_sent(generators)[k]) by {
        assert(generators[k].settled_with(&producer_handles[k]));
    }
    lemma_workers_combine(ideas_sent(generators), merged_through(producer_handles));
    assert forall|k: int| 0 <= k < students.len() implies sized(
        #[trigger] merged_through(student_handles)[k],
    ) && combine(merged_through(student_handles)[k]) == accumulate(ideas_drawn(students)[k]) by {
        law_merged_is_consumed(students[k]@);
    }
    lemma_workers_combine(ideas_drawn(students), merged_through(student_handles));
    lemma_sized_rearranged(concat(merged_through(producer_handles)), producer_merges);
    lemma_sized_rearranged(concat(merged_through(student_handles)), student_merges);
    law_combine_order_independent(producer_merges, concat(merged_through(producer_handles)));
    law_combine_order_independent(student_merges, concat(merged_through(student_handles)));
    law_accumulate_order_independent(concat(ideas_sent(generators)), concat(ideas_drawn(students)));
}

/// The package checksums of a run match. Take package producers, each with
/// the handle it merged through, whose accounts are settled; and students,
/// each with the handle it merged through, that are in step with their
/// queues, hold no more packages than they need, have all stopped, and have
/// merged through their handles what their accounts say. If the packages
/// that the students took from the queue are the packages that the queue
/// accepted from the producers, each as often as it was accepted, then the
/// checksums merged on the two sides combine to the same checksum, in
/// whatever order they reached the two accumulators.
pub proof fn law_packages_conserved(
    downloaders: Seq<PackageDownloader>,
    producer_handles: Seq<Accumulator>,
    students: Seq<Student>,
    student_handles: Seq<Accumulator>,
    producer_merges: Seq<Seq<u8>>,
    student_merges: Seq<Seq<u8>>,
)
    requires
        downloaders.len() == producer_handles.len(),
        forall|k: int|
            0 <= k < downloaders.len() ==> (#[trigger] downloaders[k]).settled_with(
                &producer_handles[k],
            ),
        students.len() == student_handles.len(),
        forall|k: int|
            0 <= k < students.len() ==> {
                &&& (#[trigger] students[k])@.wf()
                &&& students[k]@.lean()
                &&& students[k].in_step()
                &&& students[k]@.phase() == Phase::Terminated
                &&& student_handles[k].merged() == students[k]@.package_sums
            },
        concat(packages_sent(downloaders)).to_multiset() == concat(
            packages_drawn(students),
        ).to_multiset(),
        producer_merges.to_multiset() == concat(merged_through(producer_handles)).to_multiset(),
        student_merges.to_multiset() == concat(merged_through(student_handles)).to_multiset(),
    ensures
        combine(producer_merges) == combine(student_merges),
{
    assert forall|k: int| 0 <= k < downloaders.len() implies sized(
        #[trigger] merged_through(producer_handles)[k],
    ) && combine(merged_through(producer_handles)[k]) == accumulate(
        packages_sent(downloaders)[k],
    ) by {
        assert(downloaders[k].settled_with(&producer_handles[k]));
    }
    lemma_workers_combine(packages_sent(downloaders), merged_through(producer_handles));
    assert forall|k: int| 0 <= k < students.len() implies sized(
        #[trigger] merged_through(student_handles)[k],
    ) && combine(merged_through(student_handles)[k]) == accumulate(
        packages_drawn(students)[k],
    ) by {
        let s = students[k]@;
        law_merged_is_consumed(s);
        law_lean_student_takes_what_it_needs(s);
        lemma_batch_sums_sized(package_batches(s.built(), s.received_packages));
        assert(s.received_packages.take(s.used() as int) =~= s.received_packages);
    }
    lemma_workers_combine(packages_drawn(students), merged_through(student_handles));
    lemma_sized_rearranged(concat(merged_through(producer_handles)), producer_merges);
    lemma_sized_rearranged(concat(merged_through(student_handles)), student_merges);
    law_combine_order_independent(producer_merges, concat(merged_through(producer_handles)));
    law_combine_order_independent(student_merges, concat(merged_through(student_handles)));
    law_accumulate_order_independent(
        concat(packages_sent(downloaders)),
        concat(packages_drawn(students)),
    );
}

} // verus!
