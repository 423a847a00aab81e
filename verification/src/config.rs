//! Process settings, computed from values the caller read from the
//! environment and the clock.

use vstd::prelude::*;
use vstd::string::*;
use crate::text::{parse_number, parsed_u64};

verus! {

/// The default time-to-live of an idle room, in seconds.
pub const DEFAULT_TTL_SECS: u64 = 3600;

/// The default pause between two sweeps, in seconds.
pub const DEFAULT_INTERVAL_SECS: u64 = 300;

/// The number that an environment value spells, if it is set and spells one.
pub fn env_u64(raw: Option<String>) -> (r: Option<u64>)
    ensures
        r == match raw {
            Some(text) => parsed_u64(text@),
            None => None,
        },
{
    match raw {
        Some(text) => parse_number(text.as_str()),
        None => None,
    }
}

/// Sixty times a number, stopping at the maximum.
pub open spec fn minutes_as_seconds(minutes: u64) -> u64 {
    if minutes as int * 60 > u64::MAX as int {
        u64::MAX
    } else {
        (minutes * 60) as u64
    }
}

/// The time-to-live of an idle room in seconds: the seconds setting if
/// present, else the minutes setting times sixty, else an hour.
pub fn lobby_ttl_duration(seconds: Option<u64>, minutes: Option<u64>) -> (r: u64)
    ensures
        r == match (seconds, minutes) {
            (Some(s), _) => s,
            (None, Some(m)) => minutes_as_seconds(m),
            (None, None) => 3600,
        },
{
    if let Some(s) = seconds {
        return s;
    }
    if let Some(m) = minutes {
        if m > u64::MAX / 60 {
            return u64::MAX;
        }
        return m * 60;
    }
    DEFAULT_TTL_SECS
}

/// The pause between two sweeps in seconds: the setting if present, else
/// five minutes.
pub fn cleanup_interval_duration(seconds: Option<u64>) -> (r: u64)
    ensures
        r == match seconds {
            Some(s) => s,
            None => 300,
        },
{
    match seconds {
        Some(s) => s,
        None => DEFAULT_INTERVAL_SECS,
    }
}

/// The pause the sweeper runs with: none when the time-to-live is zero,
/// which switches expiry off; a minute in place of a pause of zero.
pub fn sweep_every(ttl_secs: u64, interval_secs: u64) -> (r: Option<u64>)
    ensures
        r == if ttl_secs == 0 {
            None
        } else if interval_secs == 0 {
            Some(60u64)
        } else {
            Some(interval_secs)
        },
{
    if ttl_secs == 0 {
        None
    } else if interval_secs == 0 {
        Some(60)
    } else {
        Some(interval_secs)
    }
}

/// A time as milliseconds since the epoch: the elapsed milliseconds,
/// stopping at the maximum; zero for a time before the epoch.
pub fn timestamp_ms(since_epoch_millis: Option<u128>) -> (r: u64)
    ensures
        r == match since_epoch_millis {
            Some(ms) => if ms > u64::MAX {
                u64::MAX
            } else {
                ms as u64
            },
            None => 0,
        },
{
    match since_epoch_millis {
        Some(ms) => if ms > u64::MAX as u128 {
            u64::MAX
        } else {
            ms as u64
        },
        None => 0,
    }
}

} // verus!
