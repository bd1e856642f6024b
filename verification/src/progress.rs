//! Single-line progress reporting for terminal audit runs.
//!
//! The reporter decides what to write; the caller writes it to standard
//! output and flushes.

use vstd::prelude::*;

use crate::strs::{decimal, push_decimal};

verus! {

/// Progress reporter that updates one terminal line in place on terminals.
#[derive(Debug)]
pub struct ProgressReporter {
    /// Standard output is a terminal.
    pub interactive: bool,
    /// A status line is on screen and not yet cleared.
    pub has_live_line: bool,
}

/// Clears the current terminal line.
pub open spec fn clear_line() -> Seq<char> {
    "\r\x1b[2K"@
}

/// The status text for file `index` of `total`.
pub open spec fn status_text(index: usize, total: usize, path: Seq<char>) -> Seq<char> {
    "["@ + decimal(index as nat) + "/"@ + decimal(total as nat) + "] "@ + path
}

impl ProgressReporter {
    /// A reporter for an output that is a terminal or not.
    pub fn new(interactive: bool) -> (r: ProgressReporter)
        ensures
            r.interactive == interactive,
            !r.has_live_line,
    {
        ProgressReporter { interactive, has_live_line: false }
    }

    /// Text that shows the status of file `index` of `total`: on a terminal
    /// it replaces the live line, elsewhere it is printed on a line of its own.
    pub fn update(&mut self, index: usize, total: usize, path: &str) -> (r: String)
        ensures
            final(self).interactive == old(self).interactive,
            old(self).interactive ==> r@ == clear_line() + status_text(index, total, path@)
                && final(self).has_live_line,
            !old(self).interactive ==> r@ == status_text(index, total, path@) + "\n"@
                && final(self).has_live_line == old(self).has_live_line,
    {
        let mut out = String::new();
        if self.interactive {
            out.append("\r\x1b[2K");
        }
        out.append("[");
        push_decimal(&mut out, index);
        out.append("/");
        push_decimal(&mut out, total);
        out.append("] ");
        out.append(path);
        if self.interactive {
            self.has_live_line = true;
            assert(out@ =~= clear_line() + status_text(index, total, path@));
        } else {
            out.append("\n");
            assert(out@ =~= status_text(index, total, path@) + "\n"@);
        }
        out
    }

    /// Text that shows `text`, clearing the live status line first if one is shown.
    pub fn emit(&mut self, text: &str) -> (r: String)
        ensures
            final(self).interactive == old(self).interactive,
            old(self).interactive && old(self).has_live_line ==> r@ == clear_line() + text@,
            !(old(self).interactive && old(self).has_live_line) ==> r@ == text@,
            old(self).interactive ==> !final(self).has_live_line,
            !old(self).interactive ==> final(self).has_live_line == old(self).has_live_line,
    {
        let mut out = String::new();
        if self.interactive && self.has_live_line {
            out.append("\r\x1b[2K");
            self.has_live_line = false;
        }
        out.append(text);
        out
    }

    /// Text that clears the live status line after the scan, if one is shown.
    pub fn finish(&mut self) -> (r: String)
        ensures
            final(self).interactive == old(self).interactive,
            old(self).interactive && old(self).has_live_line ==> r@ == clear_line()
                && !final(self).has_live_line,
            !(old(self).interactive && old(self).has_live_line) ==> r@ == Seq::<char>::empty()
                && final(self).has_live_line == old(self).has_live_line,
    {
        let mut out = String::new();
        if self.interactive && self.has_live_line {
            out.append("\r\x1b[2K");
            self.has_live_line = false;
        }
        out
    }
}

} // verus!
