use hackathon::accumulator::Accumulator;
use hackathon::checksum::{Batch, Checksum};

#[test]
fn digest_of_empty_text_is_the_known_sha256() {
    let sum = Checksum::with_sha256("");
    assert_eq!(
        sum.to_hex(),
        "e3b0c44298fc1c149afbf4c8996fb92427ae41e4649b934ca495991b7852b855"
    );
}

#[test]
fn digest_of_abc_is_the_known_sha256() {
    let sum = Checksum::with_sha256("abc");
    assert_eq!(
        sum.to_hex(),
        "ba7816bf8f01cfea414140de5dae2223b00361a396177a9cb410ff61f20015ad"
    );
}

#[test]
fn digest_is_deterministic_and_tells_texts_apart() {
    assert_eq!(Checksum::with_sha256("pipeline"), Checksum::with_sha256("pipeline"));
    assert_ne!(Checksum::with_sha256("pipeline"), Checksum::with_sha256("pipelinf"));
}

#[test]
fn default_is_all_zero() {
    assert_eq!(Checksum::default().bytes, [0u8; 32]);
}

#[test]
fn merge_is_bytewise_xor() {
    let mut a = Checksum::default();
    let mut b = Checksum::default();
    a.bytes[0] = 0b1100;
    b.bytes[0] = 0b1010;
    a.bytes[31] = 0xff;
    b.bytes[31] = 0x0f;
    let sum = a.merge(&b);
    assert_eq!(sum.bytes[0], 0b0110);
    assert_eq!(sum.bytes[31], 0xf0);
    assert_eq!(sum.bytes[1..31], [0u8; 30]);
}

#[test]
fn merge_is_commutative() {
    let a = Checksum::with_sha256("alpha");
    let b = Checksum::with_sha256("beta");
    assert_eq!(a.merge(&b), b.merge(&a));
}

#[test]
fn merge_is_associative() {
    let a = Checksum::with_sha256("alpha");
    let b = Checksum::with_sha256("beta");
    let c = Checksum::with_sha256("gamma");
    assert_eq!(a.merge(&b).merge(&c), a.merge(&b.merge(&c)));
}

#[test]
fn merge_with_identity_changes_nothing() {
    let a = Checksum::with_sha256("alpha");
    assert_eq!(Checksum::default().merge(&a), a);
    assert_eq!(a.merge(&Checksum::default()), a);
}

#[test]
fn merging_a_checksum_twice_cancels_it() {
    let a = Checksum::with_sha256("alpha");
    let b = Checksum::with_sha256("beta");
    assert_eq!(a.merge(&b).merge(&b), a);
}

#[test]
fn update_merges_in_place() {
    let a = Checksum::with_sha256("alpha");
    let b = Checksum::with_sha256("beta");
    let mut sum = a;
    sum.update(b);
    assert_eq!(sum, a.merge(&b));
}

#[test]
fn accumulation_does_not_depend_on_order() {
    let names = ["one", "two", "three", "four"];
    let mut forward = Checksum::default();
    for name in names.iter() {
        forward.update(Checksum::with_sha256(name));
    }
    let mut backward = Checksum::default();
    for name in names.iter().rev() {
        backward.update(Checksum::with_sha256(name));
    }
    assert_eq!(forward, backward);
}

#[test]
fn accumulation_does_not_depend_on_batching() {
    let mut whole = Checksum::default();
    for name in ["one", "two", "three", "four"].iter() {
        whole.update(Checksum::with_sha256(name));
    }
    let mut first = Checksum::default();
    first.update(Checksum::with_sha256("three"));
    first.update(Checksum::with_sha256("one"));
    let mut second = Checksum::default();
    second.update(Checksum::with_sha256("four"));
    second.update(Checksum::with_sha256("two"));
    let mut shared = Checksum::default();
    shared.update(second);
    shared.update(first);
    assert_eq!(shared, whole);
}

#[test]
fn equality_compares_every_byte() {
    let a = Checksum::with_sha256("alpha");
    let mut b = a;
    assert!(a == b);
    b.bytes[31] ^= 1;
    assert!(a != b);
    b.bytes[31] ^= 1;
    b.bytes[0] ^= 0x80;
    assert!(a != b);
}

#[test]
fn hex_of_the_neutral_checksum_is_all_zero_digits() {
    assert_eq!(Checksum::default().to_hex(), "0".repeat(64));
}

#[test]
fn hex_puts_the_upper_half_of_each_byte_first() {
    let mut sum = Checksum::default();
    sum.bytes[0] = 0x1f;
    sum.bytes[1] = 0xa0;
    sum.bytes[31] = 0x9c;
    let text = sum.to_hex();
    assert_eq!(text.len(), 64);
    assert_eq!(&text[0..4], "1fa0");
    assert_eq!(&text[4..62], "0".repeat(58));
    assert_eq!(&text[62..64], "9c");
}

#[test]
fn hex_uses_every_digit() {
    let mut sum = Checksum::default();
    for (i, byte) in [0x01u8, 0x23, 0x45, 0x67, 0x89, 0xab, 0xcd, 0xef].iter().enumerate() {
        sum.bytes[i] = *byte;
    }
    assert_eq!(&sum.to_hex()[0..16], "0123456789abcdef");
}

#[test]
fn empty_batch_has_the_neutral_checksum() {
    assert_eq!(Batch::new().checksum(), Checksum::default());
}

#[test]
fn batch_accumulates_the_digests_of_its_texts() {
    let mut batch = Batch::new();
    batch.add("alpha");
    assert_eq!(batch.checksum(), Checksum::with_sha256("alpha"));
    batch.add("beta");
    assert_eq!(
        batch.checksum(),
        Checksum::with_sha256("alpha").merge(&Checksum::with_sha256("beta"))
    );
    batch.add("alpha");
    assert_eq!(batch.checksum(), Checksum::with_sha256("beta"));
}

#[test]
fn absorbing_a_batch_merges_the_two_checksums() {
    let mut first = Batch::new();
    first.add("one");
    first.add("two");
    let mut second = Batch::new();
    second.add("three");
    let mut whole = Batch::new();
    for name in ["three", "one", "two"].iter() {
        whole.add(name);
    }
    first.absorb(second);
    assert_eq!(first.checksum(), whole.checksum());
    first.absorb(Batch::new());
    assert_eq!(first.checksum(), whole.checksum());
}

#[test]
fn accumulator_holds_the_merge_of_the_batches_merged_in() {
    let mut shared = Accumulator::new();
    assert_eq!(shared.value(), Checksum::default());
    let mut first = Batch::new();
    first.add("one");
    first.add("two");
    let mut second = Batch::new();
    second.add("three");
    let mut handle = shared.share();
    handle.merge_in(second);
    assert_eq!(shared.value(), Checksum::with_sha256("three"));
    shared.merge_in(first);
    let mut whole = Batch::new();
    for name in ["one", "two", "three"].iter() {
        whole.add(name);
    }
    assert_eq!(shared.value(), whole.checksum());
    assert_eq!(handle.value(), whole.checksum());
    shared.merge_in(Batch::new());
    assert_eq!(shared.value(), whole.checksum());
}

#[test]
fn accumulators_made_apart_do_not_share_a_value() {
    let mut first = Accumulator::new();
    let mut second = Accumulator::new();
    let mut batch = Batch::new();
    batch.add("one");
    first.merge_in(batch);
    assert_eq!(first.value(), Checksum::with_sha256("one"));
    assert_eq!(second.value(), Checksum::default());
}
