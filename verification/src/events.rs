//! The outcome of visiting one regular file, and the ghost arithmetic of
//! folding a sequence of such outcomes into totals.

use vstd::prelude::*;

verus! {

/// What happened when the scan tried to read one regular file:
/// either its full contents were read, or the read failed and the
/// file is skipped.
pub enum ReadOutcome {
    /// The file's entire contents, read successfully.
    Content(Vec<u8>),
    /// The file could not be read (permissions, I/O error, or the file
    /// vanished between discovery and read).
    Unreadable,
}

/// The sum of the byte values of a sequence, each byte counted 0..=255.
pub open spec fn byte_sum(s: Seq<u8>) -> int
    decreases s.len(),
{
    if s.len() == 0 {
        0
    } else {
        byte_sum(s.drop_last()) + s.last()
    }
}

/// How many bytes one outcome contributes to `bytes_read`.
pub open spec fn event_bytes(e: ReadOutcome) -> int {
    match e {
        ReadOutcome::Content(b) => b@.len() as int,
        ReadOutcome::Unreadable => 0,
    }
}

/// How much one outcome contributes to the checksum.
pub open spec fn event_checksum(e: ReadOutcome) -> int {
    match e {
        ReadOutcome::Content(b) => byte_sum(b@),
        ReadOutcome::Unreadable => 0,
    }
}

/// Whether one outcome counts as a skipped file.
pub open spec fn event_skip(e: ReadOutcome) -> int {
    match e {
        ReadOutcome::Content(_) => 0,
        ReadOutcome::Unreadable => 1,
    }
}

/// Whether one outcome counts as a successfully read file.
pub open spec fn event_read(e: ReadOutcome) -> int {
    match e {
        ReadOutcome::Content(_) => 1,
        ReadOutcome::Unreadable => 0,
    }
}

/// The number of successfully read files among a sequence of outcomes:
/// the files whose bytes contributed to the byte total and the checksum.
pub open spec fn count_read(es: Seq<ReadOutcome>) -> int
    decreases es.len(),
{
    if es.len() == 0 {
        0
    } else {
        count_read(es.drop_last()) + event_read(es.last())
    }
}

/// The number of skipped files among a sequence of outcomes.
pub open spec fn count_skipped(es: Seq<ReadOutcome>) -> int
    decreases es.len(),
{
    if es.len() == 0 {
        0
    } else {
        count_skipped(es.drop_last()) + event_skip(es.last())
    }
}

/// The total number of bytes successfully read over a sequence of outcomes.
pub open spec fn total_bytes(es: Seq<ReadOutcome>) -> int
    decreases es.len(),
{
    if es.len() == 0 {
        0
    } else {
        total_bytes(es.drop_last()) + event_bytes(es.last())
    }
}

/// The checksum accumulated over a sequence of outcomes: the sum, over
/// every successfully read file, of the sum of its byte values.
pub open spec fn total_checksum(es: Seq<ReadOutcome>) -> int
    decreases es.len(),
{
    if es.len() == 0 {
        0
    } else {
        total_checksum(es.drop_last()) + event_checksum(es.last())
    }
}

/// A byte sum is nonnegative and at most 255 per byte.
pub proof fn lemma_byte_sum_bounds(s: Seq<u8>)
    ensures
        0 <= byte_sum(s) <= 255 * s.len(),
    decreases s.len(),
{
    if s.len() > 0 {
        lemma_byte_sum_bounds(s.drop_last());
    }
}

/// Every outcome contributes nonnegative amounts, a checksum contribution
/// of at most 255 per byte, and a skip contribution of at most one.
pub proof fn lemma_event_bounds(e: ReadOutcome)
    ensures
        0 <= event_bytes(e),
        0 <= event_checksum(e) <= 255 * event_bytes(e),
        0 <= event_skip(e) <= 1,
{
    match e {
        ReadOutcome::Content(b) => {
            lemma_byte_sum_bounds(b@);
        },
        ReadOutcome::Unreadable => {},
    }
}

/// The totals over a sequence of outcomes are nonnegative, the skip count
/// never exceeds the file count, and the checksum never exceeds 255 times
/// the bytes read. The last bound is what lets a 64-bit accumulator hold
/// the checksum of any tree whose byte total fits comfortably below
/// `i64::MAX / 255`.
pub proof fn lemma_total_bounds(es: Seq<ReadOutcome>)
    ensures
        0 <= count_skipped(es) <= es.len(),
        0 <= total_bytes(es),
        0 <= total_checksum(es) <= 255 * total_bytes(es),
    decreases es.len(),
{
    if es.len() > 0 {
        lemma_total_bounds(es.drop_last());
        lemma_event_bounds(es.last());
    }
}

/// Extending a prefix by one outcome extends each total by that
/// outcome's contribution.
pub proof fn lemma_total_take_step(es: Seq<ReadOutcome>, i: int)
    requires
        0 <= i < es.len(),
    ensures
        count_skipped(es.take(i + 1)) == count_skipped(es.take(i)) + event_skip(es[i]),
        total_bytes(es.take(i + 1)) == total_bytes(es.take(i)) + event_bytes(es[i]),
        total_checksum(es.take(i + 1)) == total_checksum(es.take(i)) + event_checksum(es[i]),
{
    assert(es.take(i + 1).drop_last() =~= es.take(i));
    assert(es.take(i + 1).last() == es[i]);
}

/// The byte and checksum totals of a prefix never exceed those of the
/// whole sequence: every outcome only adds.
pub proof fn lemma_total_prefix_le(es: Seq<ReadOutcome>, i: int)
    requires
        0 <= i <= es.len(),
    ensures
        total_bytes(es.take(i)) <= total_bytes(es),
        total_checksum(es.take(i)) <= total_checksum(es),
    decreases es.len() - i,
{
    if i == es.len() {
        assert(es.take(i) =~= es);
    } else {
        lemma_total_take_step(es, i);
        lemma_event_bounds(es[i]);
        lemma_total_prefix_le(es, i + 1);
    }
}

/// Every file found is either read or skipped: the file count splits
/// exactly into the successfully read files and the skipped ones.
pub proof fn lemma_count_partition(es: Seq<ReadOutcome>)
    ensures
        count_read(es) + count_skipped(es) == es.len(),
    decreases es.len(),
{
    if es.len() > 0 {
        lemma_count_partition(es.drop_last());
    }
}

/// Removing one outcome removes exactly its contribution from each total.
pub proof fn lemma_total_remove(es: Seq<ReadOutcome>, i: int)
    requires
        0 <= i < es.len(),
    ensures
        count_skipped(es) == count_skipped(es.remove(i)) + event_skip(es[i]),
        total_bytes(es) == total_bytes(es.remove(i)) + event_bytes(es[i]),
        total_checksum(es) == total_checksum(es.remove(i)) + event_checksum(es[i]),
    decreases es.len(),
{
    if i == es.len() - 1 {
        assert(es.remove(i) =~= es.drop_last());
    } else {
        assert(es.remove(i).drop_last() =~= es.drop_last().remove(i));
        assert(es.remove(i).last() == es.last());
        lemma_total_remove(es.drop_last(), i);
    }
}

/// The totals are order-independent: two sequences holding the same
/// outcomes the same number of times, in any order, have the same file
/// count, skip count, byte total and checksum. The sums are commutative,
/// so a scan's summary does not depend on the order in which the
/// traversal visited the files.
pub proof fn lemma_total_permutation(es1: Seq<ReadOutcome>, es2: Seq<ReadOutcome>)
    requires
        es1.to_multiset() == es2.to_multiset(),
    ensures
        es1.len() == es2.len(),
        count_skipped(es1) == count_skipped(es2),
        total_bytes(es1) == total_bytes(es2),
        total_checksum(es1) == total_checksum(es2),
    decreases es1.len(),
{
    broadcast use vstd::seq_lib::group_to_multiset_ensures;

    assert(es1.len() == es1.to_multiset().len());
    assert(es2.len() == es2.to_multiset().len());
    if es1.len() > 0 {
        let x = es1.last();
        let j = es1.len() - 1;
        assert(es1.contains(x));
        assert(es2.to_multiset().count(x) > 0);
        assert(es2.contains(x));
        let i = choose|i: int| 0 <= i < es2.len() && es2[i] == x;
        assert(es1.remove(j).to_multiset() == es1.to_multiset().remove(x));
        assert(es2.remove(i).to_multiset() == es2.to_multiset().remove(x));
        assert(es1.remove(j) =~= es1.drop_last());
        lemma_total_permutation(es1.drop_last(), es2.remove(i));
        lemma_total_remove(es2, i);
    }
}

} // verus!
