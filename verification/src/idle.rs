//! The `wait_idle` decision procedure: the caller samples a fingerprint of the
//! window's visual state, reports it with the current time, and sleeps, polls or
//! finishes as told. Times are milliseconds since the wait started.

use vstd::prelude::*;
use vstd::string::*;
use crate::protocol::ErrorKind;
use crate::server::HandlerError;
use crate::text::{decimal, decimal_string, owned};

verus! {

/// The poll interval for a quiet window: a third of it, kept within 15..=50 ms.
pub open spec fn poll_interval(quiet_ms: u64) -> u64 {
    let third = quiet_ms / 3;
    if third < 15 {
        15
    } else if third > 50 {
        50
    } else {
        third
    }
}

/// What the caller does next.
pub enum IdleStep {
    /// The state has been unchanged for the quiet window; `waited_ms` since the start.
    Idle { waited_ms: u64 },
    /// The timeout passed first.
    TimedOut(HandlerError),
    /// Sleep this long, then sample again.
    Sleep { ms: u64 },
}

/// Progress of one `wait_idle` request.
pub struct IdleWait {
    timeout_ms: u64,
    quiet_ms: u64,
    last_hash: u64,
    stable_since_ms: u64,
}

/// The message of a `wait_idle` timeout.
pub open spec fn timeout_message(timeout_ms: u64, quiet_ms: u64) -> Seq<char> {
    "window did not go idle within "@ + decimal(timeout_ms as nat) + " ms (quiet window: "@
        + decimal(quiet_ms as nat) + " ms)"@
}

impl IdleWait {
    pub closed spec fn timeout_ms(&self) -> u64 {
        self.timeout_ms
    }

    pub closed spec fn quiet_ms(&self) -> u64 {
        self.quiet_ms
    }

    /// The most recently sampled fingerprint.
    pub closed spec fn last_hash(&self) -> u64 {
        self.last_hash
    }

    /// When the fingerprint last changed (or the first sample was taken).
    pub closed spec fn stable_since_ms(&self) -> u64 {
        self.stable_since_ms
    }

    /// Starts waiting with the first sample `hash`, taken at `now_ms`.
    pub fn start(timeout_ms: u64, quiet_ms: u64, hash: u64, now_ms: u64) -> (w: Self)
        ensures
            w.timeout_ms() == timeout_ms,
            w.quiet_ms() == quiet_ms,
            w.last_hash() == hash,
            w.stable_since_ms() == now_ms,
    {
        IdleWait { timeout_ms, quiet_ms, last_hash: hash, stable_since_ms: now_ms }
    }

    /// The poll interval of this wait.
    pub fn poll_ms(&self) -> (ms: u64)
        ensures
            ms == poll_interval(self.quiet_ms()),
            15 <= ms <= 50,
    {
        let third = self.quiet_ms / 3;
        if third < 15 {
            15
        } else if third > 50 {
            50
        } else {
            third
        }
    }

    /// Decides at `now_ms`: idle once the fingerprint has been stable for the quiet
    /// window; otherwise a timeout once `timeout_ms` has passed; otherwise sleep for
    /// the poll interval.
    pub fn decide(&self, now_ms: u64) -> (step: IdleStep)
        requires
            self.stable_since_ms() <= now_ms,
        ensures
            now_ms - self.stable_since_ms() >= self.quiet_ms() ==> step == (IdleStep::Idle { waited_ms: now_ms }),
            now_ms - self.stable_since_ms() < self.quiet_ms() && now_ms >= self.timeout_ms() ==> (step matches IdleStep::TimedOut(e)
                && e.0 == ErrorKind::Timeout && e.1@ == timeout_message(self.timeout_ms(), self.quiet_ms())),
            now_ms - self.stable_since_ms() < self.quiet_ms() && now_ms < self.timeout_ms() ==> step == (IdleStep::Sleep {
                ms: poll_interval(self.quiet_ms()),
            }),
    {
        if now_ms - self.stable_since_ms >= self.quiet_ms {
            return IdleStep::Idle { waited_ms: now_ms };
        }
        if now_ms >= self.timeout_ms {
            let mut m = owned("window did not go idle within ");
            let t = decimal_string(self.timeout_ms);
            m.append(t.as_str());
            m.append(" ms (quiet window: ");
            let q = decimal_string(self.quiet_ms);
            m.append(q.as_str());
            m.append(" ms)");
            return IdleStep::TimedOut((ErrorKind::Timeout, m));
        }
        IdleStep::Sleep { ms: self.poll_ms() }
    }

    /// Records a new sample taken at `now_ms`: a changed fingerprint restarts the
    /// quiet window.
    pub fn observe(&mut self, hash: u64, now_ms: u64)
        requires
            old(self).stable_since_ms() <= now_ms,
        ensures
            final(self).timeout_ms() == old(self).timeout_ms(),
            final(self).quiet_ms() == old(self).quiet_ms(),
            final(self).last_hash() == hash,
            final(self).stable_since_ms() == if hash != old(self).last_hash() {
                now_ms
            } else {
                old(self).stable_since_ms()
            },
            final(self).stable_since_ms() <= now_ms,
    {
        if hash != self.last_hash {
            self.last_hash = hash;
            self.stable_since_ms = now_ms;
        }
    }
}

} // verus!
