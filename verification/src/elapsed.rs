//! How long a run took, in the units in which it is reported.

use vstd::prelude::*;

verus! {

/// A span of time in its largest fitting unit and what is left over.
#[derive(Debug, Clone, Copy, PartialEq, Eq)]
pub enum Elapsed {
    /// A minute or more.
    Minutes { minutes: u128, seconds: u128, millis: u128 },
    /// A second or more, less than a minute.
    Seconds { seconds: u128, millis: u128 },
    /// Less than a second.
    Millis { millis: u128 },
}

/// `total_ms` milliseconds in minutes, seconds and milliseconds.
pub open spec fn split_of(total_ms: int) -> Elapsed {
    if total_ms >= 60000 {
        Elapsed::Minutes {
            minutes: (total_ms / 60000) as u128,
            seconds: ((total_ms % 60000) / 1000) as u128,
            millis: (total_ms % 1000) as u128,
        }
    } else if total_ms >= 1000 {
        Elapsed::Seconds { seconds: (total_ms / 1000) as u128, millis: (total_ms % 1000) as u128 }
    } else {
        Elapsed::Millis { millis: total_ms as u128 }
    }
}

/// Splits a span of `total_ms` milliseconds for display.
pub fn split_elapsed(total_ms: u128) -> (parts: Elapsed)
    ensures
        parts == split_of(total_ms as int),
{
    if total_ms >= 60000 {
        Elapsed::Minutes {
            minutes: total_ms / 60000,
            seconds: (total_ms % 60000) / 1000,
            millis: total_ms % 1000,
        }
    } else if total_ms >= 1000 {
        Elapsed::Seconds { seconds: total_ms / 1000, millis: total_ms % 1000 }
    } else {
        Elapsed::Millis { millis: total_ms }
    }
}

/// The parts of a span add up to it, and each part but the largest stays
/// below the next unit.
pub proof fn lemma_split_adds_up(total_ms: int)
    requires
        0 <= total_ms <= u128::MAX,
    ensures
        match split_of(total_ms) {
            Elapsed::Minutes { minutes, seconds, millis } => minutes * 60000 + seconds * 1000
                + millis == total_ms && minutes >= 1 && seconds < 60 && millis < 1000,
            Elapsed::Seconds { seconds, millis } => seconds * 1000 + millis == total_ms && 1
                <= seconds < 60 && millis < 1000,
            Elapsed::Millis { millis } => millis == total_ms && millis < 1000,
        },
{
}

} // verus!
