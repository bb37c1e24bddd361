//! The counters of a file transfer and the progress it reports.
//!
//! A transfer counts the bytes it has read from its source against the size
//! the source had when it was opened. Progress is reported as a whole
//! percentage, and only when it has grown by a full step since the last
//! report, so that a client is not flooded with updates.
//!
//! A transfer takes a chunk only in answer to a tick that asked for one, and
//! never more of it than the tick allowed: what the link cannot carry in a
//! quantum is not sent in a quantum. A tick asks for a chunk of at least one
//! byte or for none, so that a read that comes back empty means that the
//! source has ended.

use vstd::prelude::*;

verus! {

/// The counters of a running transfer.
#[derive(Clone, Copy, Debug, PartialEq, Eq, Structural)]
pub struct Transfer {
    /// Bytes read from the source so far.
    pub bytes_read: u64,
    /// Size of the source when the transfer started.
    pub bytes_total: u64,
    /// The percentage that was reported last, 0 before the first report.
    pub last_percentage: u8,
    /// The length that the chunk of the running tick may have, from the
    /// moment the tick asks for the chunk until the read is answered. A tick
    /// asks for at least one byte.
    pub awaited: Option<u64>,
}

/// The whole percentage that `read` is of `total`, rounded down, and held to
/// what a byte can hold. Of an empty source nothing is 0 percent and anything
/// more is the largest value.
pub open spec fn percent_of(read: nat, total: nat) -> int {
    if total == 0 {
        if read == 0 {
            0
        } else {
            255
        }
    } else if (read * 100) / total > 255 {
        255
    } else {
        ((read * 100) / total) as int
    }
}

/// The whole percentage that `read` is of `total`.
pub fn percentage(read: u64, total: u64) -> (percent: u8)
    ensures
        percent == percent_of(read as nat, total as nat),
{
    if total == 0 {
        if read == 0 {
            0
        } else {
            255
        }
    } else {
        let ratio: u128 = (read as u128 * 100) / (total as u128);
        if ratio > 255 {
            255
        } else {
            ratio as u8
        }
    }
}

impl Transfer {
    /// The counters of a transfer that has just started on a source of
    /// `total` bytes.
    pub open spec fn started(total: u64) -> Transfer {
        Transfer { bytes_read: 0, bytes_total: total, last_percentage: 0, awaited: None }
    }

    /// The same counters with the chunk of a tick awaited, or with none
    /// awaited.
    pub open spec fn awaiting(self, awaited: Option<u64>) -> Transfer {
        Transfer { awaited, ..self }
    }

    /// Whether the transfer awaits the answer to a read of at least one
    /// byte. Only then does the outcome of a read count.
    pub open spec fn awaits_bytes(self) -> bool {
        self.awaited matches Some(limit) && limit >= 1
    }

    /// How much of a chunk of `len` bytes is taken: all of it if it is within
    /// what the tick allowed, else as much as the tick allowed, and nothing
    /// if no chunk is awaited.
    pub open spec fn allowed(self, len: usize) -> usize {
        match self.awaited {
            Some(limit) => if len > limit {
                limit as usize
            } else {
                len
            },
            None => 0,
        }
    }

    /// The number of bytes read once `len` more have been read. The count
    /// stops at the largest value it can hold.
    pub open spec fn read_after(self, len: usize) -> u64 {
        if self.bytes_read + len > u64::MAX {
            u64::MAX
        } else {
            (self.bytes_read + len) as u64
        }
    }

    /// The percentage to report once `len` more bytes have been read, if the
    /// percentage has then grown by at least `step` since the last report.
    pub open spec fn report_after(self, len: usize, step: u8) -> Option<u8> {
        let percent = percent_of(self.read_after(len) as nat, self.bytes_total as nat);
        if percent >= self.last_percentage + step {
            Some(percent as u8)
        } else {
            None
        }
    }

    /// The counters once `len` more bytes have been read and progress has
    /// been reported if it was due. No chunk is awaited any more.
    pub open spec fn after_chunk(self, len: usize, step: u8) -> Transfer {
        Transfer {
            bytes_read: self.read_after(len),
            bytes_total: self.bytes_total,
            last_percentage: match self.report_after(len, step) {
                Some(percent) => percent,
                None => self.last_percentage,
            },
            awaited: None,
        }
    }

    /// Starts the counters for a source of `total` bytes.
    pub fn start(total: u64) -> (transfer: Transfer)
        ensures
            transfer == Transfer::started(total),
    {
        Transfer { bytes_read: 0, bytes_total: total, last_percentage: 0, awaited: None }
    }

    /// Whether the transfer awaits the answer to a read of at least one
    /// byte.
    pub fn is_awaiting(&self) -> (awaiting: bool)
        ensures
            awaiting == self.awaits_bytes(),
    {
        match self.awaited {
            Some(limit) => limit >= 1,
            None => false,
        }
    }

    /// How much of a chunk of `len` bytes is taken.
    pub fn allow(&self, len: usize) -> (taken: usize)
        ensures
            taken == self.allowed(len),
    {
        match self.awaited {
            Some(limit) => if len as u64 > limit {
                limit as usize
            } else {
                len
            },
            None => 0,
        }
    }

    /// Counts `len` more bytes as read, awaits no chunk any more, and returns
    /// the percentage to report, if one is due.
    pub fn advance(&mut self, len: usize, step: u8) -> (report: Option<u8>)
        ensures
            *final(self) == old(self).after_chunk(len, step),
            report == old(self).report_after(len, step),
    {
        let len64: u64 = len as u64;
        self.awaited = None;
        self.bytes_read = self.bytes_read.saturating_add(len64);
        let percent = percentage(self.bytes_read, self.bytes_total);
        if percent as u16 >= self.last_percentage as u16 + step as u16 {
            self.last_percentage = percent;
            Some(percent)
        } else {
            None
        }
    }
}

/// The percentage never falls when more is read.
pub proof fn lemma_percent_monotonic(read: nat, more: nat, total: nat)
    requires
        read <= more,
    ensures
        percent_of(read, total) <= percent_of(more, total),
        0 <= percent_of(read, total) <= 255,
{
    if total > 0 {
        assert(read * 100 <= more * 100);
        vstd::arithmetic::div_mod::lemma_div_is_ordered(
            (read * 100) as int,
            (more * 100) as int,
            total as int,
        );
        vstd::arithmetic::div_mod::lemma_div_pos_is_pos((read * 100) as int, total as int);
    }
}

/// A report is at least a step above the one before it, and the counters
/// remember it; without a report the remembered percentage stays.
pub proof fn lemma_reports_climb(transfer: Transfer, len: usize, step: u8)
    ensures
        match transfer.report_after(len, step) {
            Some(percent) => {
                &&& percent >= transfer.last_percentage + step
                &&& transfer.after_chunk(len, step).last_percentage == percent
            },
            None => transfer.after_chunk(len, step).last_percentage == transfer.last_percentage,
        },
        transfer.after_chunk(len, step).last_percentage >= transfer.last_percentage,
        transfer.after_chunk(len, step).bytes_read >= transfer.bytes_read,
{
    lemma_percent_monotonic(0, transfer.read_after(len) as nat, transfer.bytes_total as nat);
}

} // verus!
