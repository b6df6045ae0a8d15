//! Order-independent checksums over text.
//!
//! A checksum is the bytewise exclusive-or of the SHA-256 digests of the texts
//! that went into it, so the order in which they arrive does not show.

use vstd::prelude::*;
use vstd::std_specs::cmp::PartialEqSpecImpl;
use vstd::string::StringExecFns;

verus! {

/// The SHA-256 digest of a text, taken over its UTF-8 encoding.
pub uninterp spec fn sha256_of(text: Seq<char>) -> [u8; 32];

/// Computes the SHA-256 digest of `text` with `sha2::Sha256::digest`. The
/// claim taken on trust is that the digest depends on the characters of the
/// text alone.
#[verifier::external_body]
fn sha256(text: &str) -> (out: [u8; 32])
    ensures
        out == sha256_of(text@),
{
    <sha2::Sha256 as sha2::Digest>::digest(text.as_bytes()).into()
}

/// The bytes of the digest of one text.
pub open spec fn digest(text: Seq<char>) -> Seq<u8> {
    sha256_of(text)@
}

/// The neutral checksum: thirty-two zero bytes.
pub open spec fn identity() -> Seq<u8> {
    Seq::new(32, |i: int| 0u8)
}

/// The bytewise exclusive-or of two checksums.
pub open spec fn merged(a: Seq<u8>, b: Seq<u8>) -> Seq<u8> {
    Seq::new(a.len(), |i: int| a[i] ^ b[i])
}

/// The lower-case hexadecimal digit of a value below sixteen.
pub open spec fn hex_digit(nibble: u8) -> char {
    if nibble == 0 {
        '0'
    } else if nibble == 1 {
        '1'
    } else if nibble == 2 {
        '2'
    } else if nibble == 3 {
        '3'
    } else if nibble == 4 {
        '4'
    } else if nibble == 5 {
        '5'
    } else if nibble == 6 {
        '6'
    } else if nibble == 7 {
        '7'
    } else if nibble == 8 {
        '8'
    } else if nibble == 9 {
        '9'
    } else if nibble == 10 {
        'a'
    } else if nibble == 11 {
        'b'
    } else if nibble == 12 {
        'c'
    } else if nibble == 13 {
        'd'
    } else if nibble == 14 {
        'e'
    } else {
        'f'
    }
}

/// The hexadecimal text of a sequence of bytes: two digits for each byte,
/// the upper half first.
pub open spec fn hex_of(bytes: Seq<u8>) -> Seq<char> {
    Seq::new(
        2 * bytes.len(),
        |i: int|
            hex_digit(
                if i % 2 == 0 {
                    bytes[i / 2] >> 4
                } else {
                    bytes[i / 2] & 0x0f
                },
            ),
    )
}

/// The one-character text of a hexadecimal digit.
fn digit_text(nibble: u8) -> (text: &'static str)
    requires
        nibble < 16,
    ensures
        text@ == seq![hex_digit(nibble)],
{
    proof {
        reveal_strlit("0");
        reveal_strlit("1");
        reveal_strlit("2");
        reveal_strlit("3");
        reveal_strlit("4");
        reveal_strlit("5");
        reveal_strlit("6");
        reveal_strlit("7");
        reveal_strlit("8");
        reveal_strlit("9");
        reveal_strlit("a");
        reveal_strlit("b");
        reveal_strlit("c");
        reveal_strlit("d");
        reveal_strlit("e");
        reveal_strlit("f");
    }
    let text = if nibble == 0 {
        "0"
    } else if nibble == 1 {
        "1"
    } else if nibble == 2 {
        "2"
    } else if nibble == 3 {
        "3"
    } else if nibble == 4 {
        "4"
    } else if nibble == 5 {
        "5"
    } else if nibble == 6 {
        "6"
    } else if nibble == 7 {
        "7"
    } else if nibble == 8 {
        "8"
    } else if nibble == 9 {
        "9"
    } else if nibble == 10 {
        "a"
    } else if nibble == 11 {
        "b"
    } else if nibble == 12 {
        "c"
    } else if nibble == 13 {
        "d"
    } else if nibble == 14 {
        "e"
    } else {
        "f"
    };
    assert(text@ =~= seq![hex_digit(nibble)]);
    text
}

/// An accumulated checksum of fixed size.
#[derive(Clone, Copy, Debug)]
pub struct Checksum {
    /// The accumulated bytes.
    pub bytes: [u8; 32],
}

impl View for Checksum {
    type V = Seq<u8>;

    open spec fn view(&self) -> Seq<u8> {
        self.bytes@
    }
}

impl Default for Checksum {
    /// The neutral checksum.
    fn default() -> (neutral: Self)
        ensures
            neutral@ == identity(),
    {
        let neutral = Checksum { bytes: [0u8;32] };
        assert(neutral@ =~= identity());
        neutral
    }
}

impl PartialEq for Checksum {
    fn eq(&self, other: &Self) -> (same: bool) {
        let mut i: usize = 0;
        while i < 32
            invariant
                i <= 32,
                forall|j: int| 0 <= j < i ==> self.bytes@[j] == other.bytes@[j],
            decreases 32 - i,
        {
            if self.bytes[i] != other.bytes[i] {
                return false;
            }
            i += 1;
        }
        assert(self@ =~= other@);
        true
    }
}

impl Eq for Checksum {

}

impl PartialEqSpecImpl for Checksum {
    open spec fn obeys_eq_spec() -> bool {
        true
    }

    open spec fn eq_spec(&self, other: &Self) -> bool {
        self@ == other@
    }
}

impl Checksum {
    /// The checksum of a single text: its SHA-256 digest.
    pub fn with_sha256(text: &str) -> (sum: Self)
        ensures
            sum@ == digest(text@),
    {
        Checksum { bytes: sha256(text) }
    }

    /// The combination of two checksums, which does not depend on their order.
    pub fn merge(&self, other: &Checksum) -> (sum: Checksum)
        ensures
            sum@ == merged(self@, other@),
    {
        let mut bytes = [0u8;32];
        let mut i: usize = 0;
        while i < 32
            invariant
                i <= 32,
                forall|j: int| 0 <= j < i ==> bytes@[j] == self.bytes@[j] ^ other.bytes@[j],
            decreases 32 - i,
        {
            bytes[i] = self.bytes[i] ^ other.bytes[i];
            i += 1;
        }
        let sum = Checksum { bytes };
        assert(sum@ =~= merged(self@, other@));
        sum
    }

    /// The checksum as sixty-four lower-case hexadecimal digits.
    pub fn to_hex(&self) -> (text: String)
        ensures
            text@ == hex_of(self@),
    {
        let mut text = String::new();
        let mut i: usize = 0;
        while i < 32
            invariant
                i <= 32,
                text@ == hex_of(self@.take(i as int)),
            decreases 32 - i,
        {
            let byte = self.bytes[i];
            let upper = byte >> 4;
            let lower = byte & 0x0f;
            assert(upper < 16 && lower < 16) by (bit_vector)
                requires
                    upper == byte >> 4,
                    lower == byte & 0x0f,
            ;
            text.append(digit_text(upper));
            text.append(digit_text(lower));
            proof {
                let before = self@.take(i as int);
                let after = self@.take(i + 1);
                assert(after.len() == i + 1);
                assert forall|k: int| 0 <= k < 2 * (i + 1) implies text@[k] == hex_of(after)[k] by {
                    if k < 2 * i {
                        assert(text@[k] == hex_of(before)[k]);
                        assert(before[k / 2] == after[k / 2]);
                    } else if k == 2 * i {
                        assert(k / 2 == i && k % 2 == 0);
                    } else {
                        assert(k / 2 == i && k % 2 == 1);
                    }
                }
                assert(text@ =~= hex_of(after));
            }
            i += 1;
        }
        assert(self@.take(32) =~= self@);
        text
    }

    /// Merges `rhs` into this checksum.
    pub fn update(&mut self, rhs: Checksum)
        ensures
            final(self)@ == merged(old(self)@, rhs@),
    {
        let sum = self.merge(&rhs);
        *self = sum;
    }
}

/// Whether a checksum is the checksum of some batch of texts.
pub open spec fn accumulated(sum: Seq<u8>) -> bool {
    exists|texts: Seq<Seq<char>>| sum == accumulate(texts)
}

/// A checksum that is accumulated locally, text by text, to be merged into a
/// shared accumulator in one step. It keeps a record of the texts that went
/// into it, and is always the checksum of those texts.
pub struct Batch {
    sum: Checksum,
    texts: Ghost<Seq<Seq<char>>>,
}

impl View for Batch {
    type V = Seq<u8>;

    closed spec fn view(&self) -> Seq<u8> {
        self.sum@
    }
}

impl Batch {
    /// The texts that went into the batch, in order.
    pub closed spec fn texts(&self) -> Seq<Seq<char>> {
        self.texts@
    }

    /// What holds of every batch: its checksum is that of its texts.
    #[verifier::type_invariant]
    pub open spec fn sound(&self) -> bool {
        self@ == accumulate(self.texts())
    }

    /// An empty batch, whose checksum is the neutral one.
    pub fn new() -> (batch: Self)
        ensures
            batch.texts() == Seq::<Seq<char>>::empty(),
            batch@ == identity(),
            batch.sound(),
    {
        proof {
            lemma_accumulate_empty();
        }
        Batch { sum: Checksum::default(), texts: Ghost(Seq::empty()) }
    }

    /// Takes one more text into the batch: merges its digest into the checksum.
    pub fn add(&mut self, text: &str)
        ensures
            final(self).texts() == old(self).texts().push(text@),
            final(self)@ == merged(old(self)@, digest(text@)),
            final(self).sound(),
    {
        proof {
            use_type_invariant(&*self);
            lemma_accumulate_push(self.texts@, text@);
        }
        let sum = self.sum.merge(&Checksum::with_sha256(text));
        *self = Batch { sum, texts: Ghost(self.texts@.push(text@)) };
    }

    /// Takes all the texts of another batch into this one: merges the two checksums.
    pub fn absorb(&mut self, other: Batch)
        ensures
            final(self).texts() == old(self).texts() + other.texts(),
            final(self)@ == merged(old(self)@, other@),
            final(self).sound(),
    {
        proof {
            use_type_invariant(&*self);
            use_type_invariant(&other);
            lemma_accumulate_concat(self.texts@, other.texts@);
        }
        let sum = self.sum.merge(&other.sum);
        *self = Batch { sum, texts: Ghost(self.texts@ + other.texts@) };
    }

    /// The checksum of the batch.
    pub fn checksum(&self) -> (sum: Checksum)
        ensures
            sum@ == self@,
            sum@ == accumulate(self.texts()),
    {
        proof {
            use_type_invariant(self);
        }
        self.sum
    }
}

/// Merging is commutative.
pub proof fn law_merge_commutative(a: Checksum, b: Checksum)
    ensures
        merged(a@, b@) == merged(b@, a@),
{
    lemma_merged_commutative(a@, b@);
}

/// Merging is associative.
pub proof fn law_merge_associative(a: Checksum, b: Checksum, c: Checksum)
    ensures
        merged(merged(a@, b@), c@) == merged(a@, merged(b@, c@)),
{
    lemma_merged_associative(a@, b@, c@);
}

/// Merging with the neutral checksum, on either side, changes nothing.
pub proof fn law_merge_identity(a: Checksum)
    ensures
        merged(identity(), a@) == a@,
        merged(a@, identity()) == a@,
{
    lemma_merged_identity(a@);
}

/// Exclusive-or of equally long byte sequences is commutative.
pub proof fn lemma_merged_commutative(a: Seq<u8>, b: Seq<u8>)
    requires
        a.len() == b.len(),
    ensures
        merged(a, b) == merged(b, a),
{
    assert forall|i: int| 0 <= i < a.len() implies a[i] ^ b[i] == b[i] ^ a[i] by {
        let x = a[i];
        let y = b[i];
        assert(x ^ y == y ^ x) by (bit_vector);
    }
    assert(merged(a, b) =~= merged(b, a));
}

/// Exclusive-or of equally long byte sequences is associative.
pub proof fn lemma_merged_associative(a: Seq<u8>, b: Seq<u8>, c: Seq<u8>)
    requires
        a.len() == b.len(),
        b.len() == c.len(),
    ensures
        merged(merged(a, b), c) == merged(a, merged(b, c)),
{
    assert forall|i: int| 0 <= i < a.len() implies (a[i] ^ b[i]) ^ c[i] == a[i] ^ (b[i] ^ c[i]) by {
        let x = a[i];
        let y = b[i];
        let z = c[i];
        assert((x ^ y) ^ z == x ^ (y ^ z)) by (bit_vector);
    }
    assert(merged(merged(a, b), c) =~= merged(a, merged(b, c)));
}

/// The neutral checksum is neutral for every checksum of its length.
pub proof fn lemma_merged_identity(a: Seq<u8>)
    requires
        a.len() == 32,
    ensures
        merged(identity(), a) == a,
        merged(a, identity()) == a,
{
    assert forall|i: int| 0 <= i < a.len() implies 0u8 ^ a[i] == a[i] && a[i] ^ 0u8 == a[i] by {
        let x = a[i];
        assert(0u8 ^ x == x && x ^ 0u8 == x) by (bit_vector);
    }
    assert(merged(identity(), a) =~= a);
    assert(merged(a, identity()) =~= a);
}

/// Whether every part has the size of a checksum.
pub open spec fn sized(parts: Seq<Seq<u8>>) -> bool {
    forall|i: int| 0 <= i < parts.len() ==> (#[trigger] parts[i]).len() == 32
}

/// The merge of all parts into the neutral checksum, one after the other.
pub open spec fn combine(parts: Seq<Seq<u8>>) -> Seq<u8>
    decreases parts.len(),
{
    if parts.len() == 0 {
        identity()
    } else {
        merged(combine(parts.drop_last()), parts.last())
    }
}

/// The digest of each text, in order.
pub open spec fn digests(texts: Seq<Seq<char>>) -> Seq<Seq<u8>> {
    Seq::new(texts.len(), |i: int| digest(texts[i]))
}

/// The checksum of a batch of texts: the merge of their digests.
pub open spec fn accumulate(texts: Seq<Seq<char>>) -> Seq<u8> {
    combine(digests(texts))
}

/// The checksum of each batch, in order.
pub open spec fn batch_sums(batches: Seq<Seq<Seq<char>>>) -> Seq<Seq<u8>> {
    Seq::new(batches.len(), |i: int| accumulate(batches[i]))
}

/// The items of all parts, one part after the other.
pub open spec fn concat<A>(parts: Seq<Seq<A>>) -> Seq<A>
    decreases parts.len(),
{
    if parts.len() == 0 {
        Seq::empty()
    } else {
        concat(parts.drop_last()) + parts.last()
    }
}

/// Whether what was sent is accounted for in what was merged: the checksums
/// merged combine to the checksum of the texts sent.
pub open spec fn settled(sent: Seq<Seq<char>>, merged: Seq<Seq<u8>>) -> bool {
    &&& sized(merged)
    &&& combine(merged) == accumulate(sent)
}

/// Sending a batch and merging its checksum keeps the account settled.
pub proof fn lemma_settled_after_batch(
    sent: Seq<Seq<char>>,
    merged: Seq<Seq<u8>>,
    batch: Seq<Seq<char>>,
)
    requires
        settled(sent, merged),
    ensures
        settled(sent + batch, merged.push(accumulate(batch))),
{
    lemma_combine_push(merged, accumulate(batch));
    lemma_combine_len(digests(batch));
    lemma_accumulate_concat(sent, batch);
}

/// A combination always has the size of a checksum.
pub proof fn lemma_combine_len(parts: Seq<Seq<u8>>)
    ensures
        combine(parts).len() == 32,
    decreases parts.len(),
{
    if parts.len() > 0 {
        lemma_combine_len(parts.drop_last());
    }
}

/// Combining one more part merges it into the combination so far.
pub proof fn lemma_combine_push(parts: Seq<Seq<u8>>, part: Seq<u8>)
    ensures
        combine(parts.push(part)) == merged(combine(parts), part),
{
    assert(parts.push(part).drop_last() =~= parts);
}

/// Accumulating one more text merges its digest into the checksum so far.
pub proof fn lemma_accumulate_push(texts: Seq<Seq<char>>, text: Seq<char>)
    ensures
        accumulate(texts.push(text)) == merged(accumulate(texts), digest(text)),
{
    assert(digests(texts.push(text)) =~= digests(texts).push(digest(text)));
    lemma_combine_push(digests(texts), digest(text));
}

/// The checksum of no text at all is the neutral checksum.
pub proof fn lemma_accumulate_empty()
    ensures
        accumulate(Seq::empty()) == identity(),
{
    assert(digests(Seq::empty()) =~= Seq::<Seq<u8>>::empty());
}

/// Combining two runs of parts one after the other merges their combinations.
pub proof fn lemma_combine_concat(front: Seq<Seq<u8>>, back: Seq<Seq<u8>>)
    requires
        sized(front),
        sized(back),
    ensures
        combine(front + back) == merged(combine(front), combine(back)),
    decreases back.len(),
{
    lemma_combine_len(front);
    if back.len() == 0 {
        assert(front + back =~= front);
        lemma_merged_identity(combine(front));
    } else {
        let rest = back.drop_last();
        assert((front + back).drop_last() =~= front + rest);
        lemma_combine_concat(front, rest);
        lemma_combine_len(rest);
        lemma_merged_associative(combine(front), combine(rest), back.last());
    }
}

/// Accumulating two batches one after the other merges their checksums.
pub proof fn lemma_accumulate_concat(front: Seq<Seq<char>>, back: Seq<Seq<char>>)
    ensures
        accumulate(front + back) == merged(accumulate(front), accumulate(back)),
{
    assert(digests(front + back) =~= digests(front) + digests(back));
    lemma_combine_concat(digests(front), digests(back));
}

/// Any part can be taken out of a combination and merged in last.
pub proof fn lemma_combine_remove(parts: Seq<Seq<u8>>, at: int)
    requires
        sized(parts),
        0 <= at < parts.len(),
    ensures
        combine(parts) == merged(combine(parts.remove(at)), parts[at]),
    decreases parts.len(),
{
    let front = parts.drop_last();
    if at == parts.len() - 1 {
        assert(parts.remove(at) =~= front);
    } else {
        lemma_combine_remove(front, at);
        let others = front.remove(at);
        assert(parts.remove(at) =~= others.push(parts.last()));
        lemma_combine_push(others, parts.last());
        lemma_combine_len(others);
        lemma_merged_associative(combine(others), parts[at], parts.last());
        lemma_merged_commutative(parts[at], parts.last());
        lemma_merged_associative(combine(others), parts.last(), parts[at]);
    }
}

/// The combination of parts does not depend on their order.
pub proof fn law_combine_order_independent(left: Seq<Seq<u8>>, right: Seq<Seq<u8>>)
    requires
        sized(left),
        sized(right),
        left.to_multiset() == right.to_multiset(),
    ensures
        combine(left) == combine(right),
    decreases left.len(),
{
    broadcast use vstd::seq_lib::to_multiset_contains;

    vstd::seq_lib::to_multiset_len(left);
    vstd::seq_lib::to_multiset_len(right);
    if left.len() > 0 {
        let part = left.last();
        assert(left.contains(part));
        assert(right.to_multiset().count(part) > 0);
        assert(right.contains(part));
        let at = choose|at: int| 0 <= at < right.len() && right[at] == part;
        vstd::seq_lib::to_multiset_remove(right, at);
        vstd::seq_lib::to_multiset_remove(left, left.len() - 1);
        assert(left.remove(left.len() - 1) =~= left.drop_last());
        law_combine_order_independent(left.drop_last(), right.remove(at));
        lemma_combine_remove(right, at);
    }
}

/// The checksum of a batch does not depend on the order of its texts: two
/// batches that hold the same texts the same number of times have the same
/// checksum.
pub proof fn law_accumulate_order_independent(left: Seq<Seq<char>>, right: Seq<Seq<char>>)
    requires
        left.to_multiset() == right.to_multiset(),
    ensures
        accumulate(left) == accumulate(right),
    decreases left.len(),
{
    broadcast use vstd::seq_lib::to_multiset_contains;

    vstd::seq_lib::to_multiset_len(left);
    vstd::seq_lib::to_multiset_len(right);
    if left.len() > 0 {
        let text = left.last();
        assert(left.contains(text));
        assert(right.to_multiset().count(text) > 0);
        assert(right.contains(text));
        let at = choose|at: int| 0 <= at < right.len() && right[at] == text;
        vstd::seq_lib::to_multiset_remove(right, at);
        vstd::seq_lib::to_multiset_remove(left, left.len() - 1);
        assert(left.remove(left.len() - 1) =~= left.drop_last());
        law_accumulate_order_independent(left.drop_last(), right.remove(at));
        lemma_combine_remove(digests(right), at);
        assert(digests(right).remove(at) =~= digests(right.remove(at)));
        assert(digests(left).drop_last() =~= digests(left.drop_last()));
    }
}

/// Accumulating batch by batch and merging the batch checksums gives the
/// checksum of all the texts taken together.
pub proof fn law_batching_irrelevant(batches: Seq<Seq<Seq<char>>>)
    ensures
        combine(batch_sums(batches)) == accumulate(concat(batches)),
    decreases batches.len(),
{
    if batches.len() == 0 {
        assert(digests(concat(batches)) =~= Seq::<Seq<u8>>::empty());
    } else {
        let front = batches.drop_last();
        law_batching_irrelevant(front);
        assert(batch_sums(batches).drop_last() =~= batch_sums(front));
        lemma_accumulate_concat(concat(front), batches.last());
    }
}

/// What was produced and what was consumed have the same checksum whenever
/// every text produced was consumed exactly as often as it was produced,
/// however either side was split into batches and in whatever order the
/// batches were merged.
pub proof fn law_conservation(
    produced: Seq<Seq<Seq<char>>>,
    consumed: Seq<Seq<Seq<char>>>,
    producer_merges: Seq<Seq<u8>>,
    consumer_merges: Seq<Seq<u8>>,
)
    requires
        concat(produced).to_multiset() == concat(consumed).to_multiset(),
        producer_merges.to_multiset() == batch_sums(produced).to_multiset(),
        consumer_merges.to_multiset() == batch_sums(consumed).to_multiset(),
    ensures
        combine(producer_merges) == combine(consumer_merges),
{
    lemma_batch_sums_sized(produced);
    lemma_batch_sums_sized(consumed);
    lemma_sized_rearranged(batch_sums(produced), producer_merges);
    lemma_sized_rearranged(batch_sums(consumed), consumer_merges);
    law_combine_order_independent(producer_merges, batch_sums(produced));
    law_combine_order_independent(consumer_merges, batch_sums(consumed));
    law_batching_irrelevant(produced);
    law_batching_irrelevant(consumed);
    law_accumulate_order_independent(concat(produced), concat(consumed));
}

/// Batch checksums have the size of a checksum.
pub proof fn lemma_batch_sums_sized(batches: Seq<Seq<Seq<char>>>)
    ensures
        sized(batch_sums(batches)),
{
    assert forall|i: int| 0 <= i < batches.len() implies (#[trigger] batch_sums(batches)[i]).len()
        == 32 by {
        lemma_combine_len(digests(batches[i]));
    }
}

/// Parts of the right size keep it in whatever order they are listed.
pub proof fn lemma_sized_rearranged(parts: Seq<Seq<u8>>, rearranged: Seq<Seq<u8>>)
    requires
        sized(parts),
        rearranged.to_multiset() == parts.to_multiset(),
    ensures
        sized(rearranged),
{
    broadcast use vstd::seq_lib::to_multiset_contains;

    assert forall|i: int| 0 <= i < rearranged.len() implies (#[trigger] rearranged[i]).len()
        == 32 by {
        let part = rearranged[i];
        assert(rearranged.contains(part));
        assert(parts.to_multiset().count(part) > 0);
        assert(parts.contains(part));
    }
}

} // verus!
