//! The integer side of the burn fee curve: how much time lies between a
//! block and the one before it, and when that time is long enough for no
//! work to be needed.
use vstd::prelude::*;

verus! {

/// The target time between blocks, in milliseconds.
pub const HEARTBEAT: u64 = 30_000;

/// The time between two block timestamps, counted as 1 where they are
/// equal.
pub fn timestamp_difference(current_block_timestamp: u64, previous_block_timestamp: u64) -> (d: u64)
    requires
        previous_block_timestamp <= current_block_timestamp,
    ensures
        d == if current_block_timestamp == previous_block_timestamp {
            1
        } else {
            current_block_timestamp - previous_block_timestamp
        },
        d >= 1,
{
    match current_block_timestamp - previous_block_timestamp {
        0 => 1,
        diff => diff,
    }
}

/// The time by which the work needed for a block is divided, or `None`
/// where that time is twice the heartbeat or more and no work is needed.
pub fn work_elapsed_time(current_block_timestamp: u64, previous_block_timestamp: u64) -> (r: Option<u64>)
    requires
        previous_block_timestamp <= current_block_timestamp,
    ensures
        ({
            let d = if current_block_timestamp == previous_block_timestamp {
                1
            } else {
                current_block_timestamp - previous_block_timestamp
            };
            r == if d >= 2 * HEARTBEAT {
                None
            } else {
                Some(d as u64)
            }
        }),
{
    let elapsed_time = timestamp_difference(current_block_timestamp, previous_block_timestamp);
    if elapsed_time >= 2 * HEARTBEAT {
        None
    } else {
        Some(elapsed_time)
    }
}

} // verus!
