//! Counting the requests of a client in windows of a fixed length.

use vstd::prelude::*;

verus! {

/// The requests of one client in its current window.
#[derive(Clone, Copy, Debug, PartialEq, Eq, Structural)]
pub struct Bucket {
    /// How many requests the window has seen; the count stops at the largest
    /// 32-bit number.
    pub count: u32,
    /// When the window ends, on the clock of the caller; a window that would
    /// end after the clock's last tick ends there.
    pub resets_at: u64,
}

/// The window that a request at `now` falls into: the client's window
/// where it has one that has not ended, else a fresh one of length `window`.
pub open spec fn window_at(bucket: Option<Bucket>, now: u64, window: u64) -> Bucket {
    match bucket {
        Some(b) if now <= b.resets_at => b,
        _ => Bucket {
            count: 0,
            resets_at: if now + window <= u64::MAX {
                (now + window) as u64
            } else {
                u64::MAX
            },
        },
    }
}

/// The window after it has counted one more request.
pub open spec fn counted(bucket: Bucket) -> Bucket {
    Bucket {
        count: if bucket.count < u32::MAX {
            (bucket.count + 1) as u32
        } else {
            bucket.count
        },
        ..bucket
    }
}

/// Counts a request of a client at the time `now` and says whether it is
/// allowed: a window allows its first `max` requests. The times are ticks
/// of any clock that does not run backwards.
pub fn count_request(bucket: Option<Bucket>, now: u64, window: u64, max: u32) -> (r: (Bucket, bool))
    ensures
        r.0 == counted(window_at(bucket, now, window)),
        r.1 == (window_at(bucket, now, window).count < max),
{
    let fresh = Bucket {
        count: 0,
        resets_at: if now <= u64::MAX - window {
            now + window
        } else {
            u64::MAX
        },
    };
    let current: Bucket = match bucket {
        Some(b) => if now <= b.resets_at {
            b
        } else {
            fresh
        },
        None => fresh,
    };
    let allowed: bool = current.count < max;
    let count: u32 = if current.count < u32::MAX {
        current.count + 1
    } else {
        current.count
    };
    (Bucket { count, resets_at: current.resets_at }, allowed)
}

} // verus!
