//! The progress reporter: a shared counter and a human-readable line,
//! updated on every successful finalization.
//!
//! When the batch label is non-empty, the line is written to standard output
//! and refreshed in place; a final newline is emitted once the batch
//! completes. An empty label makes the reporter silent.

use crate::numeral::dec_str;
use crate::numeral::usize_to_string;
#[allow(unused_imports)]
use std::io::Write;
use vstd::prelude::*;

verus! {

/// The text of the progress line: `<label> => <completed>/<total>`.
pub open spec fn progress_line(label: Seq<char>, completed: nat, total: nat) -> Seq<char> {
    label + " => "@ + dec_str(completed) + "/"@ + dec_str(total)
}

/// Live progress of one batch.
pub struct Progress {
    label: String,
    completed: usize,
    total: usize,
    visible: bool,
}

impl Progress {
    pub closed spec fn label(&self) -> Seq<char> {
        self.label@
    }

    pub closed spec fn completed(&self) -> int {
        self.completed as int
    }

    pub closed spec fn total(&self) -> int {
        self.total as int
    }

    pub closed spec fn visible(&self) -> bool {
        self.visible
    }

    /// The counter never runs past the batch size, and the reporter is
    /// visible exactly when the label is non-empty.
    pub open spec fn wf(&self) -> bool {
        &&& self.completed() <= self.total()
        &&& self.visible() == (self.label().len() > 0)
    }

    /// A fresh reporter for a batch of `total` requests. Displays the
    /// initial line when `label` is non-empty.
    pub fn new(label: &str, total: usize) -> (r: Progress)
        ensures
            r.wf(),
            r.label() == label@,
            r.completed() == 0,
            r.total() == total,
            r.visible() == (label@.len() > 0),
    {
        let visible = !label.is_empty();
        let progress = Progress { label: label.to_owned(), completed: 0, total, visible };
        progress.show();
        progress
    }

    /// Counts one more finally-successful request and refreshes the line.
    pub fn make_progress(&mut self)
        requires
            old(self).wf(),
            old(self).completed() < old(self).total(),
        ensures
            final(self).wf(),
            final(self).completed() == old(self).completed() + 1,
            final(self).total() == old(self).total(),
            final(self).label() == old(self).label(),
            final(self).visible() == old(self).visible(),
    {
        self.completed = self.completed + 1;
        self.show();
    }

    /// The current value of the success counter.
    pub fn completed_value(&self) -> (r: usize)
        ensures
            r == self.completed(),
    {
        self.completed
    }

    /// The current progress line.
    pub fn render(&self) -> (r: String)
        ensures
            r@ == progress_line(self.label(), self.completed() as nat, self.total() as nat),
    {
        let mut line = self.label.clone();
        line.append(" => ");
        let completed_digits = usize_to_string(self.completed);
        line.append(completed_digits.as_str());
        line.append("/");
        let total_digits = usize_to_string(self.total);
        line.append(total_digits.as_str());
        line
    }

    /// Rewrites the single progress line in place, when visible.
    fn show(&self) {
        if self.visible {
            let line = self.render();
            emit_over_line(line.as_str());
            flush_console();
        }
    }

    /// Ends the progress line once the batch completes, when visible.
    pub fn finish(&self) {
        if self.visible {
            emit_line_break();
            flush_console();
        }
    }
}

/// Relies on std::io::Stdout (through the write! macro): rewrites the
/// current console line in place. Display only; carries no contract.
#[verifier::external_body]
fn emit_over_line(line: &str) {
    let _ = write!(std::io::stdout(), "\r{}", line);
}

/// Relies on std::io::Stdout (through the writeln! macro): ends the current
/// console line. Display only; carries no contract.
#[verifier::external_body]
fn emit_line_break() {
    let _ = writeln!(std::io::stdout());
}

/// Relies on std::io::Write::flush: makes the line appear at once. Display
/// only; carries no contract.
#[verifier::external_body]
fn flush_console() {
    let _ = std::io::Write::flush(&mut std::io::stdout());
}

} // verus!
