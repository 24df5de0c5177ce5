//! The scheduler: when an evaluation tick starts, when it is skipped because
//! the one before is still running, and until when a running tick may start
//! further evaluations.

use crate::alerts::{bump, bumped};
use crate::config::PluginConfig;
use vstd::prelude::*;

verus! {

/// What the scheduler decides when it is asked for a tick.
#[derive(Debug, Clone, Copy, PartialEq, Eq, Structural)]
pub enum TickDecision {
    /// The next tick is not due yet.
    NotDue,
    /// A tick starts now.
    Started,
    /// A tick is due but the one before is still running: this one is skipped.
    Skipped,
}

/// The scheduler's bookkeeping.
#[derive(Debug, Clone, Copy, PartialEq, Eq, Structural)]
pub struct Scheduler {
    /// The time from which the next tick is due.
    pub next_due: u64,
    /// Start time of the tick that is running, if one is.
    pub running: Option<u64>,
    /// Ticks that were skipped so far.
    pub skipped: u64,
    /// Ticks that ran to their end so far.
    pub completed: u64,
}

/// `now + interval`, or the largest time where that is out of range.
pub open spec fn advance(now: u64, interval: int) -> u64 {
    if now + interval <= u64::MAX {
        (now + interval) as u64
    } else {
        u64::MAX
    }
}

impl Scheduler {
    /// A scheduler whose first tick is due at once.
    pub open spec fn initial() -> Scheduler {
        Scheduler { next_due: 0, running: None, skipped: 0, completed: 0 }
    }

    /// A tick is due at `now`.
    pub open spec fn due(self, now: u64) -> bool {
        now >= self.next_due
    }

    /// The scheduler after it was asked for a tick at `now`, and its answer.
    ///
    /// Before the due time nothing happens. A due tick starts unless another
    /// is running; then it is skipped and counted, and is not made up for
    /// later: either way the next tick is due one interval after `now`.
    pub open spec fn after_poll(self, now: u64, cfg: PluginConfig) -> (Scheduler, TickDecision) {
        if !self.due(now) {
            (self, TickDecision::NotDue)
        } else if self.running is Some {
            (
                Scheduler {
                    next_due: advance(now, cfg.interval_secs()),
                    skipped: bump(self.skipped),
                    ..self
                },
                TickDecision::Skipped,
            )
        } else {
            (
                Scheduler { next_due: advance(now, cfg.interval_secs()), running: Some(now), ..self },
                TickDecision::Started,
            )
        }
    }

    /// A tick is running at `now` and has not used up its time, which is one
    /// check interval: it may start another evaluation.
    pub open spec fn admits(self, now: u64, cfg: PluginConfig) -> bool {
        self.running matches Some(start) && now - start <= cfg.interval_secs()
    }

    /// The scheduler after the running tick has ended.
    pub open spec fn after_finish(self) -> Scheduler {
        if self.running is Some {
            Scheduler { running: None, completed: bump(self.completed), ..self }
        } else {
            self
        }
    }

    /// A scheduler whose first tick is due at once.
    pub fn new() -> (r: Self)
        ensures
            r == Scheduler::initial(),
    {
        Scheduler { next_due: 0, running: None, skipped: 0, completed: 0 }
    }

    /// Asks for a tick at `now`.
    pub fn poll(&mut self, now: u64, cfg: &PluginConfig) -> (decision: TickDecision)
        ensures
            *final(self) == old(self).after_poll(now, *cfg).0,
            decision == old(self).after_poll(now, *cfg).1,
            old(self).running is Some && old(self).due(now) ==> decision is Skipped && final(self).running == old(self).running && final(self).skipped == bump(old(self).skipped),
    {
        if now < self.next_due {
            return TickDecision::NotDue;
        }
        let interval: u64 = cfg.check_interval_secs();
        self.next_due = if now <= u64::MAX - interval {
            now + interval
        } else {
            u64::MAX
        };
        if self.running.is_some() {
            self.skipped = bumped(self.skipped);
            TickDecision::Skipped
        } else {
            self.running = Some(now);
            TickDecision::Started
        }
    }

    /// Whether the running tick may start another evaluation at `now`. Once
    /// its time is up no further evaluation is started; those under way are
    /// not touched.
    pub fn may_evaluate(&self, now: u64, cfg: &PluginConfig) -> (r: bool)
        ensures
            r == self.admits(now, *cfg),
    {
        match self.running {
            Some(start) => now < start || now - start <= cfg.check_interval_secs(),
            None => false,
        }
    }

    /// Ends the running tick.
    pub fn finish(&mut self)
        ensures
            *final(self) == old(self).after_finish(),
    {
        if self.running.is_some() {
            self.running = None;
            self.completed = bumped(self.completed);
        }
    }
}

/// A tick that falls due while another is running is skipped as a whole: the
/// running tick goes on untouched, no tick starts, and the skip shows in the
/// counter of skipped ticks.
pub proof fn lemma_overlapping_tick_is_skipped(s: Scheduler, now: u64, cfg: PluginConfig)
    requires
        s.running is Some,
        s.due(now),
    ensures
        s.after_poll(now, cfg).1 is Skipped,
        s.after_poll(now, cfg).0.running == s.running,
        s.after_poll(now, cfg).0.completed == s.completed,
        s.after_poll(now, cfg).0.skipped == bump(s.skipped),
        s.skipped < u64::MAX ==> s.after_poll(now, cfg).0.skipped == s.skipped + 1,
{
}

} // verus!
