//! Throttling of download-progress reports: a multi-megabyte download arrives
//! in many small chunks, so progress is reported at about 1% steps (every
//! 256 KiB when the size is unknown) rather than once per chunk.

use vstd::prelude::*;

verus! {

/// Report granularity when the server sent no length: 256 KiB.
pub const UNKNOWN_SIZE_STEP: usize = 262144;

/// The report granularity for a download of `total` bytes: 1% of it (at
/// least one byte), or [`UNKNOWN_SIZE_STEP`] when the size is unknown.
pub open spec fn step_for(total: Option<u64>) -> usize {
    match total {
        None => UNKNOWN_SIZE_STEP,
        Some(t) => (if t / 100 >= 1 {
            t / 100
        } else {
            1
        }) as usize,
    }
}

/// The step is one percent of a known size, rounded down, and at least one
/// byte; 256 KiB when the size is unknown.
pub proof fn lemma_step_is_one_percent(t: u64)
    requires
        t / 100 <= usize::MAX,
    ensures
        t >= 100 ==> step_for(Some(t)) * 100 <= t < (step_for(Some(t)) + 1) * 100,
        t < 100 ==> step_for(Some(t)) == 1,
        step_for(None) == 262144,
{
}

/// Compute the report granularity for a download of `total` bytes.
pub fn progress_step(total: Option<u64>) -> (step: usize)
    ensures
        step == step_for(total),
{
    match total {
        None => UNKNOWN_SIZE_STEP,
        Some(t) => {
            let pct = t / 100;
            let s = if pct >= 1 {
                pct
            } else {
                1
            };
            s as usize
        },
    }
}

/// The throttle after a chunk of `chunk` bytes, and the byte count it
/// reports: the new total, when at least one step has accrued since the last
/// report.
pub open spec fn after_chunk(p: ProgressView, chunk: nat, total: Option<u64>) -> (ProgressView, Option<nat>) {
    let downloaded = p.downloaded + chunk;
    if downloaded - p.last_emit >= step_for(total) {
        (ProgressView { downloaded, last_emit: downloaded }, Some(downloaded))
    } else {
        (ProgressView { downloaded, last_emit: p.last_emit }, None)
    }
}

/// Bytes downloaded so far and at the last report.
pub struct ProgressThrottle {
    downloaded: usize,
    last_emit: usize,
}

/// The abstract content of a [`ProgressThrottle`].
pub struct ProgressView {
    pub downloaded: nat,
    pub last_emit: nat,
}

impl View for ProgressThrottle {
    type V = ProgressView;

    closed spec fn view(&self) -> ProgressView {
        ProgressView { downloaded: self.downloaded as nat, last_emit: self.last_emit as nat }
    }
}

impl ProgressThrottle {
    /// The last report never lies ahead of the download.
    #[verifier::type_invariant]
    closed spec fn reported_behind(self) -> bool {
        self.last_emit <= self.downloaded
    }

    /// Nothing downloaded, nothing reported.
    pub fn new() -> (p: ProgressThrottle)
        ensures
            p@.downloaded == 0,
            p@.last_emit == 0,
    {
        ProgressThrottle { downloaded: 0, last_emit: 0 }
    }

    /// Count a chunk of `chunk` bytes of a `total`-byte download. Returns the
    /// byte count to report when at least one step has accrued since the last
    /// report.
    pub fn on_chunk(&mut self, chunk: usize, total: Option<u64>) -> (report: Option<usize>)
        requires
            old(self)@.downloaded + chunk <= usize::MAX,
        ensures
            final(self)@ == after_chunk(old(self)@, chunk as nat, total).0,
            report == match after_chunk(old(self)@, chunk as nat, total).1 {
                Some(n) => Some(n as usize),
                None => None::<usize>,
            },
    {
        proof {
            use_type_invariant(&*self);
        }
        let downloaded = self.downloaded + chunk;
        let last_emit = self.last_emit;
        let step = progress_step(total);
        if downloaded - last_emit >= step {
            self.downloaded = downloaded;
            self.last_emit = downloaded;
            Some(downloaded)
        } else {
            self.downloaded = downloaded;
            None
        }
    }
}

/// Reports are spaced: a report comes at least one step after the previous
/// one, covers every byte counted so far, and becomes the new reference point.
pub proof fn lemma_reports_spaced(p: ProgressView, chunk: nat, total: Option<u64>)
    requires
        p.last_emit <= p.downloaded,
    ensures
        after_chunk(p, chunk, total).1 matches Some(r) ==> {
            &&& r >= p.last_emit + step_for(total)
            &&& r == p.downloaded + chunk
            &&& after_chunk(p, chunk, total).0.last_emit == r
        },
        after_chunk(p, chunk, total).1 is None ==> after_chunk(p, chunk, total).0.last_emit == p.last_emit,
        after_chunk(p, chunk, total).0.last_emit <= after_chunk(p, chunk, total).0.downloaded,
{
}

} // verus!
