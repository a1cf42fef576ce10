//! Countdowns, driven by the clock that the caller reads.

use crate::text::{decimal, decimal_str};
use vstd::prelude::*;
use vstd::string::*;

verus! {

broadcast use vstd::string::group_string_axioms;

/// The milliseconds that are left until the deadline.
pub open spec fn remaining_ms(deadline_ms: int, now_ms: int) -> int {
    if now_ms < deadline_ms {
        deadline_ms - now_ms
    } else {
        0
    }
}

/// Milliseconds in seconds, rounded up.
pub open spec fn seconds_up(ms: int) -> int {
    (ms + 999) / 1000
}

/// The seconds that are left until the deadline, rounded up.
pub fn seconds_left(deadline_ms: u128, now_ms: u128) -> (r: u64)
    requires
        deadline_ms <= u64::MAX * 1000,
    ensures
        r == seconds_up(remaining_ms(deadline_ms as int, now_ms as int)),
{
    let left: u128 = if now_ms < deadline_ms {
        deadline_ms - now_ms
    } else {
        0
    };
    ((left + 999) / 1000) as u64
}

/// What a step of a countdown tells.
#[derive(Debug, Clone, Copy, PartialEq, Eq, Structural)]
pub struct CountdownStep {
    /// The seconds that are left, where they have changed.
    pub tick: Option<u64>,
    /// Whether the countdown expired with this step.
    pub expire: bool,
    /// Whether it has expired by now.
    pub done: bool,
}

/// A countdown that tells each second and, once, that it has expired.
#[derive(Debug)]
pub struct CountdownTimer {
    pub deadline_ms: u128,
    pub last_seconds: u64,
    pub expired: bool,
}

/// Whether a tick leads from one state of the timer to another with the step.
pub open spec fn timer_ticked(
    before: CountdownTimer,
    after: CountdownTimer,
    now_ms: u64,
    r: CountdownStep,
) -> bool {
    let left = remaining_ms(before.deadline_ms as int, now_ms as int);
    &&& after.deadline_ms == before.deadline_ms
    &&& after.last_seconds == seconds_up(left)
    &&& r.tick == if seconds_up(left) != before.last_seconds {
        Some(after.last_seconds)
    } else {
        None
    }
    &&& r.done == (left == 0)
    &&& r.expire == (left == 0 && !before.expired)
    &&& after.expired == (before.expired || left == 0)
}

impl CountdownTimer {
    /// Whether the deadline is within what a countdown can tell.
    pub open spec fn wf(&self) -> bool {
        self.deadline_ms <= u64::MAX * 1000
    }

    /// A countdown from now. The seconds that are left are told at once.
    pub fn new(timeout_ms: u64, now_ms: u64) -> (r: Self)
        ensures
            r.wf(),
            r.deadline_ms == now_ms + timeout_ms,
            r.last_seconds == seconds_up(timeout_ms as int),
            !r.expired,
    {
        let deadline_ms: u128 = now_ms as u128 + timeout_ms as u128;
        CountdownTimer {
            deadline_ms,
            last_seconds: seconds_left(deadline_ms, now_ms as u128),
            expired: false,
        }
    }

    /// The seconds that were told last.
    #[must_use]
    pub fn remaining_seconds(&self) -> (r: u64)
        ensures
            r == self.last_seconds,
    {
        self.last_seconds
    }

    /// Advances the countdown to the time.
    pub fn tick(&mut self, now_ms: u64) -> (r: CountdownStep)
        requires
            old(self).wf(),
        ensures
            final(self).wf(),
            timer_ticked(*old(self), *final(self), now_ms, r),
    {
        let seconds = seconds_left(self.deadline_ms, now_ms as u128);
        let tick = if seconds != self.last_seconds {
            Some(seconds)
        } else {
            None
        };
        self.last_seconds = seconds;
        let done = now_ms as u128 >= self.deadline_ms;
        let expire = done && !self.expired;
        if done {
            self.expired = true;
        }
        CountdownStep { tick, expire, done }
    }
}

/// The countdown of a dialog, which cancels the dialog once when it expires.
#[derive(Debug, Clone, Copy, PartialEq, Eq, Structural)]
pub struct DialogCountdown {
    /// When the dialog is cancelled, if it ever is.
    pub deadline_ms: Option<u128>,
    pub expired: bool,
}

impl DialogCountdown {
    /// Whether the deadline is within what a countdown can tell.
    pub open spec fn wf(&self) -> bool {
        self.deadline_ms matches Some(deadline) ==> deadline <= u64::MAX * 1000
    }

    /// The seconds that are left at the time, if the dialog is timed.
    pub open spec fn seconds(self, now_ms: u64) -> Option<u64> {
        match self.deadline_ms {
            None => None,
            Some(deadline) => Some(
                seconds_up(remaining_ms(deadline as int, now_ms as int)) as u64,
            ),
        }
    }

    /// The countdown at the time, and whether the dialog is to be cancelled. It is cancelled once,
    /// and is no longer timed after that.
    pub open spec fn ticked(self, now_ms: u64) -> (DialogCountdown, bool) {
        match self.deadline_ms {
            Some(deadline) if now_ms >= deadline && !self.expired => (
                DialogCountdown { deadline_ms: None, expired: true },
                true,
            ),
            _ => (self, false),
        }
    }

    /// A dialog that stays open.
    pub fn none() -> (r: Self)
        ensures
            r.wf(),
            r.deadline_ms is None,
            !r.expired,
    {
        DialogCountdown { deadline_ms: None, expired: false }
    }

    /// A dialog that is cancelled after the timeout; with a timeout of zero it stays open.
    pub fn with_timeout(self, timeout_ms: u64, now_ms: u64) -> (r: Self)
        requires
            self.wf(),
        ensures
            r.wf(),
            r.expired == self.expired,
            r.deadline_ms == if timeout_ms > 0 {
                Some((now_ms + timeout_ms) as u128)
            } else {
                self.deadline_ms
            },
    {
        if timeout_ms > 0 {
            DialogCountdown {
                deadline_ms: Some(now_ms as u128 + timeout_ms as u128),
                expired: self.expired,
            }
        } else {
            self
        }
    }

    /// The seconds that are left, if the dialog is timed, and whether it is to be cancelled now. It
    /// is cancelled once, and is no longer timed after that.
    pub fn tick(&mut self, now_ms: u64) -> (r: (Option<u64>, bool))
        requires
            old(self).wf(),
        ensures
            final(self).wf(),
            r.0 == old(self).seconds(now_ms),
            (*final(self), r.1) == old(self).ticked(now_ms),
    {
        match self.deadline_ms {
            None => (None, false),
            Some(deadline) => {
                let seconds = seconds_left(deadline, now_ms as u128);
                let cancels = now_ms as u128 >= deadline && !self.expired;
                if cancels {
                    self.expired = true;
                    self.deadline_ms = None;
                }
                (Some(seconds), cancels)
            },
        }
    }
}

/// The title of a dialog, with the seconds that are left.
pub open spec fn timed_title(title: Seq<char>, seconds: Option<u64>) -> Seq<char> {
    match seconds {
        Some(s) => title + " ("@ + decimal(s as nat) + "s)"@,
        None => title,
    }
}

/// The title of a dialog, with the seconds that are left.
pub fn title_with_countdown(title: &str, seconds: Option<u64>) -> (r: String)
    ensures
        r@ == timed_title(title@, seconds),
{
    match seconds {
        Some(s) => title.to_owned().concat(" (").concat(decimal_str(s as u128).as_str()).concat(
            "s)",
        ),
        None => title.to_owned(),
    }
}

/// The seconds that are left never grow as time passes, and they are zero exactly from the deadline
/// on.
pub proof fn countdown_runs_down(deadline_ms: int, earlier_ms: int, later_ms: int)
    requires
        earlier_ms <= later_ms,
    ensures
        seconds_up(remaining_ms(deadline_ms, later_ms)) <= seconds_up(
            remaining_ms(deadline_ms, earlier_ms),
        ),
        seconds_up(remaining_ms(deadline_ms, later_ms)) == 0 <==> later_ms >= deadline_ms,
{
}

} // verus!
