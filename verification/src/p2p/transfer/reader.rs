//! Bookkeeping done while content streams through: progress reports and
//! the digest of all bytes read.

use vstd::prelude::*;
use crate::p2p::transfer::digest::{
    lemma_hex_no_nul,
    hex_encode, hex_lower, md5_digest, md5_finalize, md5_input, md5_new, md5_update, Md5State,
};
use crate::p2p::util::{notify_threshold, time_to_notify};
use crate::p2p::transfer::jobs::concat_chunks;

verus! {

/// Counts the bytes read from `inner` and says when progress is to be
/// reported.
pub struct ProgressReader<R> {
    pub inner: R,
    size: usize,
    counter: usize,
    current_size: usize,
}

impl<R> ProgressReader<R> {
    /// The wrapped reader.
    pub closed spec fn reader(&self) -> R {
        self.inner
    }

    /// The total size announced for the transfer.
    pub closed spec fn total(&self) -> usize {
        self.size
    }

    /// The bytes read so far.
    pub closed spec fn count(&self) -> usize {
        self.counter
    }

    /// The bytes read since the last report.
    pub closed spec fn since_report(&self) -> usize {
        self.current_size
    }

    /// This reader after `record(n)`.
    pub closed spec fn after_read(self, n: usize) -> ProgressReader<R> {
        let since = self.current_size + n;
        ProgressReader {
            inner: self.inner,
            size: self.size,
            counter: (self.counter + n) as usize,
            current_size: if since >= notify_threshold(self.size) {
                0
            } else {
                since as usize
            },
        }
    }

    /// This reader after `record` of each of `ns`, in order.
    pub closed spec fn after_reads(self, ns: Seq<usize>) -> ProgressReader<R>
        decreases ns.len(),
    {
        if ns.len() == 0 {
            self
        } else {
            self.after_reads(ns.drop_last()).after_read(ns.last())
        }
    }

    /// Whatever reads are recorded, the wrapped reader and the announced
    /// total stay as they were, and the count grows by the bytes read
    /// (while that fits a `usize`).
    pub proof fn law_reads_keep_the_reader(self, ns: Seq<usize>)
        ensures
            self.after_reads(ns).reader() == self.reader(),
            self.after_reads(ns).total() == self.total(),
            self.count() + total_read(ns) <= usize::MAX ==> self.after_reads(ns).count()
                == self.count() + total_read(ns),
        decreases ns.len(),
    {
        if ns.len() > 0 {
            self.law_reads_keep_the_reader(ns.drop_last());
        }
    }

    /// A reader of `inner` for a transfer of `size` bytes; nothing read yet.
    pub fn new(inner: R, size: usize) -> (p: ProgressReader<R>)
        ensures
            p.reader() == inner,
            p.total() == size,
            p.count() == 0,
            p.since_report() == 0,
    {
        ProgressReader { inner, size, counter: 0, current_size: 0 }
    }

    /// Records that `n` more bytes were read. Returns the progress to report
    /// (bytes read so far and total) when the bytes since the last report
    /// reach the threshold, which starts a new count.
    pub fn record(&mut self, n: usize) -> (report: Option<(usize, usize)>)
        requires
            old(self).count() + n <= usize::MAX,
            old(self).since_report() + n <= usize::MAX,
        ensures
            *final(self) == old(self).after_read(n),
            final(self).reader() == old(self).reader(),
            final(self).total() == old(self).total(),
            final(self).count() == old(self).count() + n,
            old(self).since_report() + n >= notify_threshold(old(self).total()) ==> report == Some(
                (final(self).count(), old(self).total()),
            ) && final(self).since_report() == 0,
            old(self).since_report() + n < notify_threshold(old(self).total()) ==> report is None
                && final(self).since_report() == old(self).since_report() + n,
    {
        self.counter = self.counter + n;
        self.current_size = self.current_size + n;
        if time_to_notify(self.current_size, self.size) {
            self.current_size = 0;
            Some((self.counter, self.size))
        } else {
            None
        }
    }

    /// The number of bytes read so far.
    pub fn counter(&self) -> (c: usize)
        ensures
            c == self.count(),
    {
        self.counter
    }

    /// Gives back the wrapped reader.
    pub fn into_inner(self) -> (r: R)
        ensures
            r == self.reader(),
    {
        self.inner
    }
}

/// The number of bytes read in reads of `ns` bytes.
pub open spec fn total_read(ns: Seq<usize>) -> int
    decreases ns.len(),
{
    if ns.len() == 0 {
        0
    } else {
        total_read(ns.drop_last()) + ns.last()
    }
}

/// Computes the MD5 digest of all bytes read from `inner`.
pub struct HashingReader<R> {
    pub inner: R,
    state: Md5State,
}

impl<R> HashingReader<R> {
    /// The wrapped reader.
    pub closed spec fn reader(&self) -> R {
        self.inner
    }

    /// All bytes read through this reader so far.
    pub closed spec fn absorbed(&self) -> Seq<u8> {
        md5_input(self.state)
    }

    /// A reader of `inner` that has read nothing yet.
    pub fn new(inner: R) -> (h: HashingReader<R>)
        ensures
            h.reader() == inner,
            h.absorbed() == Seq::<u8>::empty(),
    {
        HashingReader { inner, state: md5_new() }
    }

    /// Records the bytes of one read.
    pub fn observe(&mut self, data: &[u8])
        ensures
            final(self).reader() == old(self).reader(),
            final(self).absorbed() == old(self).absorbed() + data@,
    {
        md5_update(&mut self.state, data)
    }

    /// Records the bytes of each of the reads `chunks`, in order.
    pub fn observe_all(&mut self, chunks: &Vec<Vec<u8>>)
        ensures
            final(self).reader() == old(self).reader(),
            final(self).absorbed() == old(self).absorbed() + concat_chunks(chunks.deep_view()),
    {
        let ghost all = chunks.deep_view();
        let mut i: usize = 0;
        while i < chunks.len()
            invariant
                i <= chunks.len(),
                all == chunks.deep_view(),
                self.reader() == old(self).reader(),
                self.absorbed() == old(self).absorbed() + concat_chunks(all.take(i as int)),
            decreases chunks.len() - i,
        {
            let chunk = &chunks[i];
            proof {
                assert(all.take(i + 1).drop_last() == all.take(i as int));
                assert(all.take(i + 1).last() == chunk@);
            }
            self.observe(chunk.as_slice());
            i = i + 1;
        }
        proof {
            assert(all.take(chunks.len() as int) == all);
        }
    }

    /// The hexadecimal MD5 digest of all bytes read through this reader.
    pub fn finish(self) -> (s: String)
        ensures
            s@ == hex_lower(md5_digest(self.absorbed())),
            s@.len() == 32,
    {
        let d = md5_finalize(self.state);
        proof {
            lemma_hex_no_nul(d@);
        }
        hex_encode(d.as_slice())
    }
}

/// Reading the same bytes in other pieces observes the same bytes: what
/// two batches of reads absorb is what the first absorbs followed by what
/// the second does.
pub proof fn law_reads_absorb_in_order(first: Seq<Seq<u8>>, second: Seq<Seq<u8>>)
    ensures
        concat_chunks(first + second) == concat_chunks(first) + concat_chunks(second),
    decreases second.len(),
{
    if second.len() == 0 {
        assert(first + second == first);
    } else {
        law_reads_absorb_in_order(first, second.drop_last());
        assert((first + second).drop_last() == first + second.drop_last());
    }
}

} // verus!
