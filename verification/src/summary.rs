//! The scan summary record and the verified accumulation step.

use vstd::prelude::*;

use crate::events::byte_sum;
use crate::events::count_read;
use crate::events::count_skipped;
use crate::events::lemma_count_partition;
use crate::events::lemma_byte_sum_bounds;
use crate::events::lemma_total_bounds;
use crate::events::lemma_total_permutation;
use crate::events::lemma_total_prefix_le;
use crate::events::lemma_total_take_step;
use crate::events::total_bytes;
use crate::events::total_checksum;
use crate::events::ReadOutcome;

verus! {

/// The result of one complete scan: how many regular files were found,
/// how many of them could not be read, how many bytes were read in all,
/// and the sum of every byte value read.
pub struct ScanSummary {
    pub file_count: i32,
    pub skipped_files: i32,
    pub bytes_read: usize,
    pub checksum: i64,
}

impl ScanSummary {
    /// The record's invariant: counts are nonnegative, no more files are
    /// skipped than were found, and the checksum is bounded by 255 times
    /// the bytes read, so it cannot run away from its 64-bit accumulator.
    pub open spec fn wf(self) -> bool {
        &&& 0 <= self.skipped_files <= self.file_count
        &&& 0 <= self.checksum <= 255 * self.bytes_read
    }

    /// A fresh, empty summary: everything zero.
    pub fn new() -> (s: ScanSummary)
        ensures
            s.file_count == 0,
            s.skipped_files == 0,
            s.bytes_read == 0,
            s.checksum == 0,
            s.wf(),
    {
        ScanSummary { file_count: 0, skipped_files: 0, bytes_read: 0, checksum: 0 }
    }

    /// What it means for this summary to describe a sequence of per-file
    /// outcomes: each field is the corresponding total over the sequence.
    pub open spec fn is_summary_of(self, es: Seq<ReadOutcome>) -> bool {
        &&& self.file_count == es.len()
        &&& self.skipped_files == count_skipped(es)
        &&& self.bytes_read == total_bytes(es)
        &&& self.checksum == total_checksum(es)
    }

    /// Fold one successfully read file into the summary: the file is
    /// counted, its length joins `bytes_read`, and the sum of its byte
    /// values joins `checksum`. The `requires` clauses are exactly what
    /// the fixed-width counters force.
    pub fn record_read(&mut self, bytes: &Vec<u8>)
        requires
            old(self).wf(),
            old(self).file_count < i32::MAX,
            old(self).bytes_read + bytes@.len() <= usize::MAX,
            old(self).checksum + 255 * bytes@.len() <= i64::MAX,
        ensures
            final(self).file_count == old(self).file_count + 1,
            final(self).skipped_files == old(self).skipped_files,
            final(self).bytes_read == old(self).bytes_read + bytes@.len(),
            final(self).checksum == old(self).checksum + byte_sum(bytes@),
            final(self).wf(),
    {
        proof {
            lemma_byte_sum_bounds(bytes@);
        }
        self.file_count = self.file_count + 1;
        self.bytes_read = self.bytes_read + bytes.len();
        let part: i64 = checksum_of(bytes);
        self.checksum = self.checksum + part;
    }

    /// Fold one unreadable file into the summary: the file is counted
    /// and counted as skipped; bytes and checksum are untouched.
    pub fn record_skip(&mut self)
        requires
            old(self).wf(),
            old(self).file_count < i32::MAX,
        ensures
            final(self).file_count == old(self).file_count + 1,
            final(self).skipped_files == old(self).skipped_files + 1,
            final(self).bytes_read == old(self).bytes_read,
            final(self).checksum == old(self).checksum,
            final(self).wf(),
    {
        self.file_count = self.file_count + 1;
        self.skipped_files = self.skipped_files + 1;
    }
}

/// The sum of the byte values of a buffer, computed into a 64-bit
/// accumulator. The bound in `requires` is what the accumulator's width
/// forces; it admits any buffer of fewer than about 3.6e16 bytes.
pub fn checksum_of(bytes: &Vec<u8>) -> (s: i64)
    requires
        255 * bytes@.len() <= i64::MAX,
    ensures
        s == byte_sum(bytes@),
        0 <= s <= 255 * bytes@.len(),
{
    let mut s: i64 = 0;
    let mut i: usize = 0;
    while i < bytes.len()
        invariant
            0 <= i <= bytes@.len(),
            255 * bytes@.len() <= i64::MAX,
            s == byte_sum(bytes@.take(i as int)),
            0 <= s <= 255 * i,
        decreases bytes@.len() - i,
    {
        proof {
            assert(bytes@.take(i + 1).drop_last() =~= bytes@.take(i as int));
            assert(bytes@.take(i + 1).last() == bytes@[i as int]);
        }
        s = s + bytes[i] as i64;
        i = i + 1;
    }
    proof {
        assert(bytes@.take(bytes@.len() as int) =~= bytes@);
    }
    s
}

/// Fold a whole sequence of per-file outcomes into a summary. Each
/// field of the result is exactly the corresponding total over the
/// outcomes; the `requires` clauses are the machine limits the
/// fixed-width counters force, and nothing more.
pub fn scan_events(events: &Vec<ReadOutcome>) -> (s: ScanSummary)
    requires
        events@.len() <= i32::MAX,
        total_bytes(events@) <= usize::MAX,
        255 * total_bytes(events@) <= i64::MAX,
    ensures
        s.is_summary_of(events@),
        s.wf(),
{
    let mut s = ScanSummary::new();
    let mut i: usize = 0;
    proof {
        assert(events@.take(0) =~= Seq::<ReadOutcome>::empty());
    }
    while i < events.len()
        invariant
            0 <= i <= events@.len(),
            events@.len() <= i32::MAX,
            total_bytes(events@) <= usize::MAX,
            255 * total_bytes(events@) <= i64::MAX,
            s.file_count == i,
            s.is_summary_of(events@.take(i as int)),
            s.wf(),
        decreases events@.len() - i,
    {
        proof {
            lemma_total_take_step(events@, i as int);
            lemma_total_prefix_le(events@, i + 1);
            lemma_total_bounds(events@.take(i as int));
        }
        match &events[i] {
            ReadOutcome::Content(bytes) => {
                s.record_read(bytes);
            },
            ReadOutcome::Unreadable => {
                s.record_skip();
            },
        }
        i = i + 1;
    }
    proof {
        assert(events@.take(events@.len() as int) =~= events@);
    }
    s
}

/// The summary's counts partition: the file count is exactly the
/// skipped files plus the files whose bytes contributed to `bytes_read`
/// and `checksum`.
pub proof fn lemma_summary_partition(s: ScanSummary, es: Seq<ReadOutcome>)
    requires
        s.is_summary_of(es),
    ensures
        s.file_count == s.skipped_files + count_read(es),
{
    lemma_count_partition(es);
}

/// A scan's summary is determined by what the traversal found, not by
/// the order it found it in: two scans that observe the same per-file
/// outcomes the same number of times — in particular, two scans of the
/// same unmodified tree — produce equal summaries, field for field.
pub proof fn lemma_summary_deterministic(
    es1: Seq<ReadOutcome>,
    es2: Seq<ReadOutcome>,
    s1: ScanSummary,
    s2: ScanSummary,
)
    requires
        es1.to_multiset() == es2.to_multiset(),
        s1.is_summary_of(es1),
        s2.is_summary_of(es2),
    ensures
        s1 == s2,
{
    lemma_total_permutation(es1, es2);
}

} // verus!
