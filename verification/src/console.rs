//! Console byte transfer.
//!
//! The platform's console accepts at most [`MAX_RW_SIZE`] bytes per call —
//! a bound that keeps the firmware from masking interrupts for too long —
//! and reports how many bytes it really took. Writing a whole buffer is a
//! retry loop over that call.
//!
//! The firmware call itself is the surrounding runtime's business; the loop
//! here runs over the sequence of per-call byte counts the console
//! reported, and says exactly how far the buffer got.

use vstd::prelude::*;

verus! {

/// The most bytes one console call transfers.
pub const MAX_RW_SIZE: usize = 256;

/// How many bytes one call really moves when the console reports
/// `accepted`: never more than it was asked for, which is the lesser of
/// [`MAX_RW_SIZE`] and what remains.
pub open spec fn spec_chunk(accepted: usize, remaining: nat) -> nat {
    let asked: nat = if remaining < MAX_RW_SIZE as nat {
        remaining
    } else {
        MAX_RW_SIZE as nat
    };
    if (accepted as nat) < asked {
        accepted as nat
    } else {
        asked
    }
}

/// How many bytes a write loop over `reports` moves out of `remaining`:
/// chunks accumulate until the console reports zero progress, the reports
/// run out, or the buffer is done.
pub open spec fn spec_write_total(remaining: nat, reports: Seq<usize>) -> nat
    decreases reports.len(),
{
    if reports.len() == 0 || remaining == 0 {
        0nat
    } else {
        let chunk = spec_chunk(reports[0], remaining);
        if chunk == 0 {
            0nat
        } else {
            chunk + spec_write_total((remaining - chunk) as nat, reports.skip(1))
        }
    }
}

/// The write loop never claims more than the buffer held.
pub proof fn lemma_write_total_bounded(remaining: nat, reports: Seq<usize>)
    ensures
        spec_write_total(remaining, reports) <= remaining,
    decreases reports.len(),
{
    if reports.len() > 0 && remaining > 0 {
        let chunk = spec_chunk(reports[0], remaining);
        if chunk > 0 {
            lemma_write_total_bounded((remaining - chunk) as nat, reports.skip(1));
        }
    }
}

/// Writes `bytes` to the console in bounded chunks, taking the console's
/// per-call reports from `reports`: each call asks for at most
/// [`MAX_RW_SIZE`] bytes and advances by what the console took; a report of
/// zero ends the loop, as does running out of reports. Returns how many
/// bytes were written.
pub fn write_bytes(bytes: &[u8], reports: &Vec<usize>) -> (written: usize)
    ensures
        written as nat == spec_write_total(bytes@.len(), reports@),
        written <= bytes@.len(),
{
    proof {
        lemma_write_total_bounded(bytes@.len(), reports@);
        assert(reports@.skip(0) =~= reports@);
    }
    let total = bytes.len();
    let mut write_len: usize = 0;
    let mut i: usize = 0;
    let n = reports.len();
    while i < n
        invariant
            n == reports@.len(),
            0 <= i <= n,
            write_len <= total,
            total == bytes@.len(),
            spec_write_total(bytes@.len(), reports@) == write_len + spec_write_total(
                (total - write_len) as nat,
                reports@.skip(i as int),
            ),
        decreases n - i,
    {
        let remaining = total - write_len;
        if remaining == 0 {
            return write_len;
        }
        let asked = if remaining < MAX_RW_SIZE {
            remaining
        } else {
            MAX_RW_SIZE
        };
        let reported = reports[i];
        let chunk = if reported < asked {
            reported
        } else {
            asked
        };
        proof {
            assert(chunk as nat == spec_chunk(reports@[i as int], remaining as nat));
            assert(reports@.skip(i as int).skip(1) =~= reports@.skip(i + 1));
            lemma_write_total_bounded((remaining - chunk) as nat, reports@.skip(i + 1));
        }
        if chunk == 0 {
            return write_len;
        }
        write_len = write_len + chunk;
        i = i + 1;
    }
    proof {
        assert(reports@.skip(n as int).len() == 0);
    }
    write_len
}

/// Reads console input into a buffer of length `buf_len`: a single call,
/// asking for at most [`MAX_RW_SIZE`] bytes. Returns how many bytes the
/// console delivered, given its report.
pub fn read_bytes(buf_len: usize, reported: usize) -> (read: usize)
    ensures
        read as nat == spec_chunk(reported, buf_len as nat),
        read <= buf_len,
{
    let asked = if buf_len < MAX_RW_SIZE {
        buf_len
    } else {
        MAX_RW_SIZE
    };
    if reported < asked {
        reported
    } else {
        asked
    }
}

} // verus!
