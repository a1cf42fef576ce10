//! Width-aware transcript output truncation.

use crate::text::{push_text, texts};
use vstd::prelude::*;

verus! {

/// The lines that are left of an output, and how many were cut.
#[derive(Debug, PartialEq, Eq)]
pub struct VisualTruncateResult {
    pub visual_lines: Vec<String>,
    pub skipped_count: usize,
}

/// How many lines are cut so that at most `max` are left.
pub open spec fn skipped_lines(total: nat, max: nat) -> nat {
    if total > max {
        (total - max) as nat
    } else {
        0
    }
}

/// Keeps the last lines of an output that was wrapped to the width.
pub fn truncate_to_visual_lines(rendered: &Vec<String>, max_visual_lines: usize) -> (r:
    VisualTruncateResult)
    ensures
        r.skipped_count == skipped_lines(rendered@.len(), max_visual_lines as nat),
        texts(r.visual_lines@) == texts(rendered@).skip(r.skipped_count as int),
{
    let total: usize = rendered.len();
    let start: usize = if total > max_visual_lines {
        total - max_visual_lines
    } else {
        0
    };
    let mut kept: Vec<String> = Vec::new();
    let mut i: usize = start;
    while i < total
        invariant
            start <= i <= total,
            total == rendered.len(),
            texts(kept@) =~= texts(rendered@).subrange(start as int, i as int),
        decreases total - i,
    {
        push_text(&mut kept, rendered[i].clone());
        i = i + 1;
    }
    assert(texts(kept@) =~= texts(rendered@).skip(start as int));
    VisualTruncateResult { visual_lines: kept, skipped_count: start }
}

/// The lines that are left and those that were cut are all lines, and never more than `max` are
/// left.
pub proof fn truncation_keeps_the_end(total: nat, max: nat)
    ensures
        skipped_lines(total, max) <= total,
        total - skipped_lines(total, max) <= max,
        total <= max ==> skipped_lines(total, max) == 0,
{
}

} // verus!
