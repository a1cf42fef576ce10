//! Working, retry, compaction, and branch-summary status indicators.

use crate::countdown_timer::{remaining_ms, seconds_left, seconds_up};
use crate::keybinding_hints::{bound_text, key_text, KeyTable};
use crate::style::{
    colored, fg, plain, push_blank, push_line, push_span, raw, span_lines, spans, Span, SpanView,
    ThemeColor,
};
use crate::text::{decimal, decimal_str};
use vstd::prelude::*;
use vstd::string::*;

verus! {

broadcast use vstd::string::group_string_axioms;

/// What is going on.
#[derive(Clone, Copy, Debug, PartialEq, Eq, Structural)]
pub enum StatusIndicatorKind {
    Working,
    Retry,
    Compaction,
    BranchSummary,
}

/// Why the context is compacted.
#[derive(Clone, Copy, Debug, PartialEq, Eq, Structural)]
pub enum CompactionStatusReason {
    Manual,
    Threshold,
    Overflow,
}

/// A retry that is waited for.
#[derive(Clone, Copy, Debug, PartialEq, Eq, Structural)]
pub struct RetryState {
    pub attempt: u32,
    pub max_attempts: u32,
    pub deadline_ms: u128,
}

/// A spinner with a message.
#[derive(Debug)]
pub struct StatusIndicator {
    pub kind: StatusIndicatorKind,
    pub message: String,
    pub started_ms: u64,
    pub frame: usize,
    pub retry: Option<RetryState>,
}

/// How the current work is cancelled.
pub open spec fn cancel_text(table: KeyTable) -> Seq<char> {
    "("@ + bound_text(table, "app.interrupt"@) + " to cancel)"@
}

fn cancel_hint(table: &KeyTable) -> (r: String)
    ensures
        r@ == cancel_text(*table),
{
    "(".to_owned().concat(key_text(table, "app.interrupt").as_str()).concat(" to cancel)")
}

/// The message while a retry is waited for.
pub open spec fn retry_text(retry: RetryState, now_ms: int, table: KeyTable) -> Seq<char> {
    "Retrying ("@ + decimal(retry.attempt as nat) + "/"@ + decimal(retry.max_attempts as nat)
        + ") in "@ + decimal(
        seconds_up(remaining_ms(retry.deadline_ms as int, now_ms)) as nat,
    ) + "s... "@ + cancel_text(table)
}

/// The message while the context is compacted.
pub open spec fn compaction_text(reason: CompactionStatusReason, table: KeyTable) -> Seq<char> {
    let what = match reason {
        CompactionStatusReason::Manual => "Compacting context... "@,
        CompactionStatusReason::Threshold => "Auto-compacting... "@,
        CompactionStatusReason::Overflow => "Context overflow detected, Auto-compacting... "@,
    };
    what + cancel_text(table)
}

/// The frames of the spinner.
pub open spec fn spinner(frame: nat) -> Seq<char> {
    let k = frame % 10;
    if k == 0 {
        "⠋"@
    } else if k == 1 {
        "⠙"@
    } else if k == 2 {
        "⠹"@
    } else if k == 3 {
        "⠸"@
    } else if k == 4 {
        "⠼"@
    } else if k == 5 {
        "⠴"@
    } else if k == 6 {
        "⠦"@
    } else if k == 7 {
        "⠧"@
    } else if k == 8 {
        "⠇"@
    } else {
        "⠏"@
    }
}

fn spinner_frame(frame: usize) -> (r: &'static str)
    ensures
        r@ == spinner(frame as nat),
{
    let k: usize = frame % 10;
    if k == 0 {
        "⠋"
    } else if k == 1 {
        "⠙"
    } else if k == 2 {
        "⠹"
    } else if k == 3 {
        "⠸"
    } else if k == 4 {
        "⠼"
    } else if k == 5 {
        "⠴"
    } else if k == 6 {
        "⠦"
    } else if k == 7 {
        "⠧"
    } else if k == 8 {
        "⠇"
    } else {
        "⠏"
    }
}

impl StatusIndicator {
    /// Whether the deadline of a retry is within what a countdown can tell.
    pub open spec fn wf(&self) -> bool {
        self.retry matches Some(retry) ==> retry.deadline_ms <= u64::MAX * 1000
    }

    /// An indicator that starts now.
    #[must_use]
    pub fn new(kind: StatusIndicatorKind, message: String, now_ms: u64) -> (r: Self)
        ensures
            r.wf(),
            r == (StatusIndicator { kind, message, started_ms: now_ms, frame: 0, retry: None }),
    {
        StatusIndicator { kind, message, started_ms: now_ms, frame: 0, retry: None }
    }

    /// The model is working.
    #[must_use]
    pub fn working(message: String, now_ms: u64) -> (r: Self)
        ensures
            r.wf(),
            r.kind == StatusIndicatorKind::Working,
            r.message == message,
            r.started_ms == now_ms,
            r.frame == 0,
            r.retry is None,
    {
        Self::new(StatusIndicatorKind::Working, message, now_ms)
    }

    /// A retry is waited for.
    #[must_use]
    pub fn retry(
        attempt: u32,
        max_attempts: u32,
        seconds: u64,
        now_ms: u64,
        table: &KeyTable,
    ) -> (r: Self)
        requires
            now_ms + seconds * 1000 <= u64::MAX * 1000,
        ensures
            r.wf(),
            r.kind == StatusIndicatorKind::Retry,
            r.started_ms == now_ms,
            r.frame == 0,
            r.retry == Some(
                RetryState {
                    attempt,
                    max_attempts,
                    deadline_ms: (now_ms + seconds * 1000) as u128,
                },
            ),
            r.message@ == retry_text(r.retry->0, now_ms as int, *table),
    {
        let mut r = Self::new(StatusIndicatorKind::Retry, String::new(), now_ms);
        r.retry =
        Some(
            RetryState {
                attempt,
                max_attempts,
                deadline_ms: now_ms as u128 + seconds as u128 * 1000,
            },
        );
        r.refresh_retry_message(now_ms, table);
        r
    }

    /// The context is compacted.
    #[must_use]
    pub fn compaction(reason: CompactionStatusReason, now_ms: u64, table: &KeyTable) -> (r: Self)
        ensures
            r.wf(),
            r.kind == StatusIndicatorKind::Compaction,
            r.message@ == compaction_text(reason, *table),
            r.started_ms == now_ms,
            r.frame == 0,
            r.retry is None,
    {
        let what = match reason {
            CompactionStatusReason::Manual => "Compacting context... ",
            CompactionStatusReason::Threshold => "Auto-compacting... ",
            CompactionStatusReason::Overflow => "Context overflow detected, Auto-compacting... ",
        };
        let message = what.to_owned().concat(cancel_hint(table).as_str());
        Self::new(StatusIndicatorKind::Compaction, message, now_ms)
    }

    /// A branch is summarized.
    #[must_use]
    pub fn branch_summary(now_ms: u64, table: &KeyTable) -> (r: Self)
        ensures
            r.wf(),
            r.kind == StatusIndicatorKind::BranchSummary,
            r.message@ == "Summarizing branch... "@ + cancel_text(*table),
            r.started_ms == now_ms,
            r.frame == 0,
            r.retry is None,
    {
        let message = "Summarizing branch... ".to_owned().concat(cancel_hint(table).as_str());
        Self::new(StatusIndicatorKind::BranchSummary, message, now_ms)
    }

    /// Replaces the message, and waits for no retry any more.
    pub fn set_message(&mut self, message: String)
        ensures
            *final(self) == (StatusIndicator { message, retry: None, ..*old(self) }),
    {
        self.message = message;
        self.retry = None;
    }

    /// Brings the message up to date while a retry is waited for.
    pub fn refresh_retry_message(&mut self, now_ms: u64, table: &KeyTable)
        requires
            old(self).wf(),
        ensures
            final(self).wf(),
            *final(self) == (StatusIndicator { message: final(self).message, ..*old(self) }),
            final(self).message@ == match old(self).retry {
                Some(retry) => retry_text(retry, now_ms as int, *table),
                None => old(self).message@,
            },
    {
        if let Some(retry) = self.retry {
            let seconds = seconds_left(retry.deadline_ms, now_ms as u128);
            self.message =
            "Retrying (".to_owned().concat(decimal_str(retry.attempt as u128).as_str()).concat(
                "/",
            ).concat(decimal_str(retry.max_attempts as u128).as_str()).concat(") in ").concat(
                decimal_str(seconds as u128).as_str(),
            ).concat("s... ").concat(cancel_hint(table).as_str());
        }
    }

    /// Turns the spinner one frame further, and around after the last.
    pub fn tick(&mut self)
        ensures
            *final(self) == (StatusIndicator {
                frame: if old(self).frame == usize::MAX {
                    0
                } else {
                    (old(self).frame + 1) as usize
                },
                ..*old(self)
            }),
    {
        self.frame = if self.frame == usize::MAX {
            0
        } else {
            self.frame + 1
        };
    }

    /// The whole seconds since the start.
    #[must_use]
    pub fn elapsed_seconds(&self, now_ms: u64) -> (r: u64)
        ensures
            r == if now_ms > self.started_ms {
                (now_ms - self.started_ms) / 1000
            } else {
                0
            },
    {
        if now_ms > self.started_ms {
            (now_ms - self.started_ms) / 1000
        } else {
            0
        }
    }

    /// The message.
    #[must_use]
    pub fn message(&self) -> (r: &str)
        ensures
            r@ == self.message@,
    {
        self.message.as_str()
    }

    /// The lines: an empty one, and the spinner with the message.
    pub open spec fn lines(&self) -> Seq<Seq<SpanView>> {
        seq![
            Seq::empty(),
            seq![
                colored(
                    if self.kind == StatusIndicatorKind::Retry {
                        ThemeColor::Warning
                    } else {
                        ThemeColor::Accent
                    },
                    spinner(self.frame as nat),
                ),
                plain(" "@),
                colored(ThemeColor::Muted, self.message@),
            ],
        ]
    }

    /// The lines, with the message brought up to date.
    pub fn render(&mut self, now_ms: u64, table: &KeyTable) -> (r: Vec<Vec<Span>>)
        requires
            old(self).wf(),
        ensures
            final(self).wf(),
            *final(self) == (StatusIndicator { message: final(self).message, ..*old(self) }),
            final(self).message@ == match old(self).retry {
                Some(retry) => retry_text(retry, now_ms as int, *table),
                None => old(self).message@,
            },
            span_lines(r@) == final(self).lines(),
    {
        self.refresh_retry_message(now_ms, table);
        let color = match self.kind {
            StatusIndicatorKind::Retry => ThemeColor::Warning,
            _ => ThemeColor::Accent,
        };
        let mut line: Vec<Span> = Vec::new();
        push_span(&mut line, fg(color, spinner_frame(self.frame)));
        push_span(&mut line, raw(" "));
        push_span(&mut line, fg(ThemeColor::Muted, self.message.as_str()));
        assert(spans(line@) =~= self.lines()[1]);
        let mut lines: Vec<Vec<Span>> = Vec::new();
        push_blank(&mut lines);
        push_line(&mut lines, line);
        assert(span_lines(lines@) =~= self.lines());
        lines
    }
}

} // verus!
