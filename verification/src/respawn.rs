//! Backoff bookkeeping for restarting the MCP child when it keeps dying:
//! 1 s, 2 s, 4 s, then give up until a healthy call resets the counter.

use vstd::prelude::*;

verus! {

/// Maximum number of consecutive respawn attempts before giving up.
pub const MAX_RESPAWN_ATTEMPTS: u32 = 3;

/// The backoff, in seconds, before attempt number `attempt` (from 0).
pub open spec fn backoff_secs(attempt: u32) -> u64 {
    if attempt == 0 {
        1
    } else if attempt == 1 {
        2
    } else {
        4
    }
}

/// The backoff stages, in seconds.
pub fn respawn_backoff_secs() -> (r: [u64; 3])
    ensures
        r@ == seq![1u64, 2u64, 4u64],
{
    [1, 2, 4]
}

/// Whether the user enabled auto-recovery and how many attempts were made.
#[derive(Debug, Default)]
pub struct RespawnState {
    pub enabled: bool,
    pub attempts: u32,
    pub last_attempt_unix_ms: i64,
}

impl RespawnState {
    /// Decides whether a new respawn should fire: the backoff in seconds for
    /// the next attempt, or `None` when auto-recovery is off or the attempts
    /// are used up. A granted attempt is counted and records `now_ms`, the
    /// caller's clock reading in milliseconds since the Unix epoch.
    pub fn next_backoff(&mut self, now_ms: i64) -> (r: Option<u64>)
        ensures
            final(self).enabled == old(self).enabled,
            (!old(self).enabled || old(self).attempts >= MAX_RESPAWN_ATTEMPTS) ==> (r is None
                && *final(self) == *old(self)),
            (old(self).enabled && old(self).attempts < MAX_RESPAWN_ATTEMPTS) ==> (r == Some(
                backoff_secs(old(self).attempts),
            ) && final(self).attempts == old(self).attempts + 1
                && final(self).last_attempt_unix_ms == now_ms),
    {
        if !self.enabled {
            return None;
        }
        if self.attempts >= MAX_RESPAWN_ATTEMPTS {
            return None;
        }
        let idx = self.attempts;
        self.attempts = self.attempts + 1;
        self.last_attempt_unix_ms = now_ms;
        let stages = respawn_backoff_secs();
        Some(stages[idx as usize])
    }

    /// Resets the attempts after a healthy call window.
    pub fn reset(&mut self)
        ensures
            final(self).enabled == old(self).enabled,
            final(self).attempts == 0,
            final(self).last_attempt_unix_ms == 0,
    {
        self.attempts = 0;
        self.last_attempt_unix_ms = 0;
    }

    /// Whether a failure should wake the watcher: auto-recovery is on and
    /// attempts remain.
    pub fn respawn_allowed(&self) -> (r: bool)
        ensures
            r == (self.enabled && self.attempts < MAX_RESPAWN_ATTEMPTS),
    {
        self.enabled && self.attempts < MAX_RESPAWN_ATTEMPTS
    }
}

} // verus!
