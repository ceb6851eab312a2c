//! The figures of a clone's progress line.

use vstd::prelude::*;

verus! {

/// `part` as a whole percentage of `total`, rounded down, a part beyond the
/// total counting as the whole; 0 when `total` is 0.
pub open spec fn percent_of(part: int, total: int) -> int {
    if total == 0 {
        0
    } else if part >= total {
        100
    } else {
        (100 * part) / total
    }
}

/// The percentage of `total` that `part` stands for, rounded down; 0 when
/// there is nothing to count.
pub fn percent(part: usize, total: usize) -> (r: usize)
    ensures
        r as int == percent_of(part as int, total as int),
        r <= 100,
{
    if total == 0 {
        return 0;
    }
    if part >= total {
        return 100;
    }
    let r = ((part as u128) * 100 / (total as u128)) as usize;
    assert((part as int) * 100 / (total as int) <= 100) by (nonlinear_arith)
        requires
            part <= total,
            total > 0,
    ;
    assert((part as u128) * 100 == 100 * (part as int)) by (nonlinear_arith);
    r
}

/// The figures of one progress line of a clone.
#[derive(Clone, Copy, Debug, PartialEq, Eq, Structural)]
pub struct CloneProgress {
    /// Percentage of objects received.
    pub network: usize,
    /// Percentage of objects indexed.
    pub index: usize,
    /// Percentage of files checked out.
    pub checkout: usize,
    /// Kilobytes received, rounded down.
    pub kbytes: usize,
    /// Whether all objects are in and deltas are being resolved.
    pub resolving: bool,
}

/// The figures of a clone's progress line from the transfer counters and the
/// checkout counters.
pub fn clone_progress(
    received_objects: usize,
    indexed_objects: usize,
    total_objects: usize,
    received_bytes: usize,
    checked_out: usize,
    total_files: usize,
) -> (r: CloneProgress)
    ensures
        r.network as int == percent_of(received_objects as int, total_objects as int),
        r.index as int == percent_of(indexed_objects as int, total_objects as int),
        r.checkout as int == percent_of(checked_out as int, total_files as int),
        r.kbytes == received_bytes / 1024,
        r.resolving == (received_objects == total_objects),
{
    CloneProgress {
        network: percent(received_objects, total_objects),
        index: percent(indexed_objects, total_objects),
        checkout: percent(checked_out, total_files),
        kbytes: received_bytes / 1024,
        resolving: received_objects == total_objects,
    }
}

} // verus!
