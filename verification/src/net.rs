//! The bookkeeping of a download: how much has arrived, and what observers
//! are told.

use vstd::prelude::*;

verus! {

/// The size of the chunks a download is read and written in.
pub const CHUNK_SIZE: usize = 65_536;

/// How long a connection may take to be set up, in seconds.
pub const CONNECT_TIMEOUT_SECS: u64 = 10;

/// How long a whole download may take, in seconds.
pub const READ_TIMEOUT_SECS: u64 = 3_600;

/// How far a download is.
#[derive(Debug, Clone, Copy, PartialEq, Eq, Structural)]
pub struct DownloadProgress {
    /// The bytes that have arrived.
    pub downloaded: u64,
    /// The announced size, or zero where none was announced.
    pub total: u64,
}

/// The sum of two byte counts, held at the largest count that can be told.
pub open spec fn capped_sum(a: int, b: int) -> int {
    if a + b > u64::MAX {
        u64::MAX as int
    } else {
        a + b
    }
}

/// The larger of two byte counts.
pub open spec fn larger(a: int, b: int) -> int {
    if a >= b {
        a
    } else {
        b
    }
}

impl DownloadProgress {
    /// What observers are told of this state: bytes done, bytes in all.
    pub open spec fn report(self) -> (u64, u64) {
        (self.downloaded, self.total)
    }

    /// The start of a download whose announced size is `content_length`.
    /// Observers are first told that nothing of the whole has arrived.
    pub fn start(content_length: Option<u64>) -> (res: (DownloadProgress, (u64, u64)))
        ensures
            res.0.downloaded == 0,
            res.0.total == match content_length {
                Some(n) => n,
                None => 0,
            },
            res.1 == res.0.report(),
    {
        let total: u64 = match content_length {
            Some(n) => n,
            None => 0,
        };
        (DownloadProgress { downloaded: 0, total }, (0, total))
    }

    /// Counts a chunk of `n` bytes that was written; gives what observers are
    /// told next.
    pub fn on_chunk(&mut self, n: usize) -> (told: (u64, u64))
        ensures
            final(self).downloaded == capped_sum(old(self).downloaded as int, n as int),
            final(self).total == old(self).total,
            told == final(self).report(),
            told.0 >= old(self).downloaded,
    {
        self.downloaded = self.downloaded.saturating_add(n as u64);
        (self.downloaded, self.total)
    }

    /// What observers are told when the download is in place: all of it has
    /// arrived, the whole being the larger of the announced size and the
    /// bytes counted.
    pub fn finish(&self) -> (told: (u64, u64))
        ensures
            told.0 == larger(self.total as int, self.downloaded as int),
            told.1 == told.0,
            told.0 >= self.downloaded,
    {
        let whole: u64 = if self.total >= self.downloaded {
            self.total
        } else {
            self.downloaded
        };
        (whole, whole)
    }
}

} // verus!
