//! The bookkeeping of one transfer: whether the answer of the remote side is accepted,
//! when a chunk may be taken, how many bytes have arrived and when progress is reported.
//!
//! The caller performs the request, reads the chunks, writes the file and keeps the
//! clock; times are nanoseconds since the transfer began.

use vstd::prelude::*;
use crate::text::{chars_of, starts_with, starts_with_str};

verus! {

/// The least time between two progress reports, in nanoseconds: a tenth of a second.
pub const REPORT_INTERVAL: u64 = 100_000_000;

/// Why a transfer failed.
#[derive(Debug, Clone, Copy, PartialEq, Eq, Structural)]
pub enum TransferError {
    /// The remote side answered with a status that is no success.
    RemoteRejected(u16),
    /// The transfer was cancelled.
    Cancelled,
    /// Connecting, reading or writing failed.
    Io,
}

impl TransferError {
    /// Whether the file written so far is to be removed after this failure. A transfer
    /// that was refused by the remote side has not created one.
    pub open spec fn removes_partial_file(self) -> bool {
        self is Cancelled || self is Io
    }

    /// Whether the file written so far is to be removed after this failure.
    pub fn must_remove_partial_file(&self) -> (r: bool)
        ensures
            r == self.removes_partial_file(),
    {
        match self {
            TransferError::RemoteRejected(_) => false,
            _ => true,
        }
    }
}

/// A report on a transfer. `total` is 0 where the size is not known; `elapsed` is the
/// time since the transfer began. The rate of the transfer is `downloaded` over
/// `elapsed`, and the part that is done is given by `percent`.
#[derive(Debug, Clone, Copy, PartialEq, Eq, Structural)]
pub struct TransferProgress {
    pub downloaded: u64,
    pub total: u64,
    pub elapsed: u64,
    pub finished: bool,
}

/// The part of a transfer that is done.
#[derive(Debug, Clone, Copy, PartialEq, Eq, Structural)]
pub enum PartDone {
    /// All of it: the transfer has ended.
    All,
    /// The size is not known, so no part can be told.
    Unknown,
    /// So many bytes of so many.
    Part { downloaded: u64, total: u64 },
}

impl TransferProgress {
    /// The part that is done: all for the last report, unknown while the size is not
    /// known, else the bytes that have arrived of the size.
    pub open spec fn part(self) -> PartDone {
        if self.finished {
            PartDone::All
        } else if self.total == 0 {
            PartDone::Unknown
        } else {
            PartDone::Part { downloaded: self.downloaded, total: self.total }
        }
    }

    /// The part that is done, in percent, as a fraction (numerator, denominator): 100
    /// where all is done, 0 where the part is not known, else the bytes that have
    /// arrived over the size.
    pub open spec fn percent(self) -> (int, int) {
        match self.part() {
            PartDone::All => (100, 1),
            PartDone::Unknown => (0, 1),
            PartDone::Part { downloaded, total } => (100 * downloaded, total as int),
        }
    }

    /// Tells the part that is done.
    pub fn part_done(&self) -> (r: PartDone)
        ensures
            r == self.part(),
            r is Part ==> r->total > 0,
    {
        if self.finished {
            PartDone::All
        } else if self.total == 0 {
            PartDone::Unknown
        } else {
            PartDone::Part { downloaded: self.downloaded, total: self.total }
        }
    }
}

/// The state of a transfer whose answer was accepted.
#[derive(Debug, Clone, Copy, PartialEq, Eq, Structural)]
pub struct Transfer {
    pub total: u64,
    pub downloaded: u64,
    pub last_report: u64,
}

/// A status that stands for success: 200 to 299.
pub open spec fn is_success(status: u16) -> bool {
    200 <= status <= 299
}

/// Whether a locator names a resource to be fetched over HTTP.
pub open spec fn is_http_locator(url: Seq<char>) -> bool {
    starts_with(url, "http://"@) || starts_with(url, "https://"@)
}

/// Whether a locator names a resource to be fetched over HTTP: it begins with
/// `http://` or `https://`.
pub fn is_http_url(url: &str) -> (r: bool)
    ensures
        r == is_http_locator(url@),
{
    let chars = chars_of(url);
    starts_with_str(&chars, "http://") || starts_with_str(&chars, "https://")
}

/// Takes the answer of the remote side. A status that is no success ends the transfer
/// before anything is written. Else the transfer begins, with the announced length as
/// its size, or with no known size where none was announced.
pub fn accept_response(status: u16, length: Option<u64>) -> (r: Result<Transfer, TransferError>)
    ensures
        !is_success(status) ==> r == Err::<Transfer, TransferError>(
            TransferError::RemoteRejected(status),
        ),
        is_success(status) ==> r == Ok::<Transfer, TransferError>(
            Transfer {
                total: match length {
                    Some(n) => n,
                    None => 0,
                },
                downloaded: 0,
                last_report: 0,
            },
        ),
{
    if status < 200 || status > 299 {
        return Err(TransferError::RemoteRejected(status));
    }
    let total: u64 = match length {
        Some(n) => n,
        None => 0,
    };
    Ok(Transfer { total, downloaded: 0, last_report: 0 })
}

/// Decides at a chunk boundary whether the chunk is taken. A transfer that has been
/// cancelled stops here, whatever was read; one whose chunk could not be read fails.
/// Either way the file written so far is to be removed.
pub fn admit_chunk(cancelled: bool, read_ok: bool) -> (r: Result<(), TransferError>)
    ensures
        cancelled ==> r == Err::<(), TransferError>(TransferError::Cancelled),
        !cancelled && !read_ok ==> r == Err::<(), TransferError>(TransferError::Io),
        !cancelled && read_ok ==> r is Ok,
        r is Err ==> r->Err_0.removes_partial_file(),
{
    if cancelled {
        Err(TransferError::Cancelled)
    } else if !read_ok {
        Err(TransferError::Io)
    } else {
        Ok(())
    }
}

/// Says what a step on the network or the file system comes to: connecting, creating
/// the file, writing a chunk, flushing. A step that failed fails the transfer, and the
/// file written so far is to be removed.
pub fn after_step(succeeded: bool) -> (r: Result<(), TransferError>)
    ensures
        succeeded ==> r is Ok,
        !succeeded ==> r == Err::<(), TransferError>(TransferError::Io),
        r is Err ==> r->Err_0.removes_partial_file(),
{
    if succeeded {
        Ok(())
    } else {
        Err(TransferError::Io)
    }
}

impl Transfer {
    /// Whether a report is due at `now`: a tenth of a second after the last one.
    pub open spec fn report_due(self, now: u64) -> bool {
        now >= self.last_report && now - self.last_report >= REPORT_INTERVAL
    }

    /// The state after a chunk of `len` bytes has been written at `now`.
    pub open spec fn after_chunk(self, len: u64, now: u64) -> Transfer {
        Transfer {
            total: self.total,
            downloaded: (self.downloaded + len) as u64,
            last_report: if self.report_due(now) {
                now
            } else {
                self.last_report
            },
        }
    }

    /// The report that a chunk of `len` bytes written at `now` gives rise to.
    pub open spec fn report_after(self, len: u64, now: u64) -> Option<TransferProgress> {
        if self.report_due(now) {
            Some(
                TransferProgress {
                    downloaded: (self.downloaded + len) as u64,
                    total: self.total,
                    elapsed: now,
                    finished: false,
                },
            )
        } else {
            None
        }
    }

    /// The last report of a transfer that ended at `now`.
    pub open spec fn last_report_at(self, now: u64) -> TransferProgress {
        TransferProgress {
            downloaded: self.downloaded,
            total: self.total,
            elapsed: now,
            finished: true,
        }
    }

    /// Counts a chunk of `len` bytes that has been written at `now`, and gives the
    /// report to send where one is due.
    pub fn record_chunk(&mut self, len: u64, now: u64) -> (r: Option<TransferProgress>)
        requires
            old(self).downloaded + len <= u64::MAX,
        ensures
            *final(self) == old(self).after_chunk(len, now),
            r == old(self).report_after(len, now),
    {
        self.downloaded = self.downloaded + len;
        if now >= self.last_report && now - self.last_report >= REPORT_INTERVAL {
            self.last_report = now;
            Some(
                TransferProgress {
                    downloaded: self.downloaded,
                    total: self.total,
                    elapsed: now,
                    finished: false,
                },
            )
        } else {
            None
        }
    }

    /// Ends the transfer once the file has been flushed, and gives the last report: all
    /// is done, whether or not the size was known.
    pub fn finish(&self, now: u64) -> (r: TransferProgress)
        ensures
            r == self.last_report_at(now),
            r.percent() == (100int, 1int),
    {
        TransferProgress {
            downloaded: self.downloaded,
            total: self.total,
            elapsed: now,
            finished: true,
        }
    }
}

/// A chunk that has been written: its length, and the time at which it was counted.
pub struct Chunk {
    pub len: u64,
    pub now: u64,
}

/// The state of a transfer after these chunks.
pub open spec fn after_chunks(start: Transfer, chunks: Seq<Chunk>) -> Transfer
    decreases chunks.len(),
{
    if chunks.len() == 0 {
        start
    } else {
        after_chunks(start, chunks.drop_last()).after_chunk(chunks.last().len, chunks.last().now)
    }
}

/// Whether the bytes of these chunks can be counted: their sum fits in 64 bits.
pub open spec fn countable(start: Transfer, chunks: Seq<Chunk>) -> bool
    decreases chunks.len(),
{
    chunks.len() > 0 ==> countable(start, chunks.drop_last()) && after_chunks(
        start,
        chunks.drop_last(),
    ).downloaded + chunks.last().len <= u64::MAX
}

/// The reports sent while these chunks were written.
pub open spec fn reports_during(start: Transfer, chunks: Seq<Chunk>) -> Seq<TransferProgress>
    decreases chunks.len(),
{
    if chunks.len() == 0 {
        Seq::empty()
    } else {
        let before = after_chunks(start, chunks.drop_last());
        let earlier = reports_during(start, chunks.drop_last());
        match before.report_after(chunks.last().len, chunks.last().now) {
            Some(report) => earlier.push(report),
            None => earlier,
        }
    }
}

/// All the reports of a transfer that wrote these chunks and ended at `end`.
pub open spec fn reports_of(start: Transfer, chunks: Seq<Chunk>, end: u64) -> Seq<
    TransferProgress,
> {
    reports_during(start, chunks).push(after_chunks(start, chunks).last_report_at(end))
}

proof fn lemma_reports_during(start: Transfer, chunks: Seq<Chunk>)
    requires
        countable(start, chunks),
    ensures
        after_chunks(start, chunks).total == start.total,
        start.downloaded <= after_chunks(start, chunks).downloaded,
        forall|i: int|
            0 <= i < reports_during(start, chunks).len() ==> {
                let report = #[trigger] reports_during(start, chunks)[i];
                &&& report.downloaded <= after_chunks(start, chunks).downloaded
                &&& report.total == start.total
                &&& !report.finished
            },
        forall|i: int, j: int|
            0 <= i <= j < reports_during(start, chunks).len() ==> reports_during(
                start,
                chunks,
            )[i].downloaded <= reports_during(start, chunks)[j].downloaded,
    decreases chunks.len(),
{
    if chunks.len() > 0 {
        lemma_reports_during(start, chunks.drop_last());
        let before = after_chunks(start, chunks.drop_last());
        let earlier = reports_during(start, chunks.drop_last());
        let now = after_chunks(start, chunks);
        let all = reports_during(start, chunks);
        let last = chunks.last();
        assert(now == before.after_chunk(last.len, last.now));
        assert(now.downloaded == before.downloaded + last.len);
        assert forall|i: int| 0 <= i < all.len() implies {
            let report = #[trigger] all[i];
            &&& report.downloaded <= now.downloaded
            &&& report.total == start.total
            &&& !report.finished
        } by {
            if i < earlier.len() {
                assert(all[i] == earlier[i]);
            }
        }
        assert forall|i: int, j: int| 0 <= i <= j < all.len() implies all[i].downloaded
            <= all[j].downloaded by {
            if j < earlier.len() {
                assert(all[i] == earlier[i]);
                assert(all[j] == earlier[j]);
            } else if i < earlier.len() {
                assert(all[i] == earlier[i]);
            }
        }
    }
}

/// The reports of a transfer never go back: of two reports the later one tells of at
/// least as many bytes, and the last one tells that all is done.
pub proof fn lemma_reports_never_go_back(
    start: Transfer,
    chunks: Seq<Chunk>,
    end: u64,
    i: int,
    j: int,
)
    requires
        countable(start, chunks),
        0 <= i <= j < reports_of(start, chunks, end).len(),
    ensures
        reports_of(start, chunks, end)[i].downloaded <= reports_of(start, chunks, end)[j].downloaded,
        reports_of(start, chunks, end).last().percent() == (100int, 1int),
{
    lemma_reports_during(start, chunks);
}

/// While the size of a transfer is not known, every report but the last tells of no
/// part done.
pub proof fn lemma_unknown_size_reports(start: Transfer, chunks: Seq<Chunk>, end: u64, i: int)
    requires
        countable(start, chunks),
        start.total == 0,
        0 <= i < reports_of(start, chunks, end).len() - 1,
    ensures
        reports_of(start, chunks, end)[i].percent() == (0int, 1int),
{
    lemma_reports_during(start, chunks);
}

} // verus!
