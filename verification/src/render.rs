//! The line renderer: the single consumer of the merge channel. For each
//! non-empty line it computes the exact byte sequence that overwrites the
//! terminal's status line: clear-current-line, the `[label] ` prefix, and
//! the sanitized, possibly truncated line. Empty lines produce no write and
//! do not count as having printed anything.

use vstd::prelude::*;
use crate::chars::push_char;
use crate::sanitize::{stripped_of, measured_of, strip_line_controls, strip_ansi};
use crate::truncate::{spec_truncate, truncate_with_ansi};
use crate::label::{prefix_of, make_prefix};
use vstd::string::{StrSliceExecFns, StringExecFns};

verus! {

/// Which standard stream a captured line came from. The merge channel
/// carries one tag with every line; delivery order is arrival order, not a
/// per-stream priority.
#[derive(Clone, Copy, PartialEq, Eq, Structural, Debug)]
pub enum StreamTag {
    Stdout,
    Stderr,
}

/// The width left for the line once the prefix took its share; a prefix as
/// wide as the terminal (or wider) leaves zero.
pub open spec fn avail_width(cols: int, prefix_len: int) -> nat {
    if cols > prefix_len {
        (cols - prefix_len) as nat
    } else {
        0
    }
}

/// What is shown of a raw line under a width budget: the render-safe line,
/// truncated only when its measured width exceeds the budget.
pub open spec fn display_of(line: Seq<char>, avail: nat) -> Seq<char> {
    let safe = stripped_of(line);
    if measured_of(safe).len() > avail {
        spec_truncate(safe, avail)
    } else {
        safe
    }
}

/// Return to column one and clear the whole line: what precedes every
/// status-line overwrite.
pub open spec fn clear_line_seq() -> Seq<char> {
    seq!['\r', '\u{1b}', '[', '2', 'K']
}

/// The full terminal write for one rendered line.
pub open spec fn rendered_of(prefix: Seq<char>, line: Seq<char>, cols: int) -> Seq<char> {
    clear_line_seq() + prefix + display_of(line, avail_width(cols, prefix.len() as int))
}

/// The renderer's state: the fixed prefix, the terminal column count
/// sampled once at startup, and whether anything was rendered yet.
pub struct Renderer {
    pub prefix: String,
    pub cols: u16,
    pub printed: bool,
}

impl Renderer {
    /// A renderer for the given label and terminal width; nothing rendered
    /// yet.
    pub fn new(label: &str, cols: u16) -> (r: Self)
        ensures
            r.prefix@ == prefix_of(label@),
            r.cols == cols,
            !r.printed,
    {
        Renderer { prefix: make_prefix(label), cols, printed: false }
    }

    /// Handles one line from the merge channel. An empty line yields no
    /// write and leaves the state untouched; a non-empty line yields exactly
    /// the clear-prefix-content overwrite and marks that something was
    /// printed.
    pub fn process_output_line(&mut self, line: &str) -> (out: Option<String>)
        ensures
            final(self).prefix == old(self).prefix,
            final(self).cols == old(self).cols,
            final(self).printed == (old(self).printed || line@.len() > 0),
            line@.len() == 0 ==> out is None,
            line@.len() > 0 ==> (out matches Some(w) && w@ == rendered_of(
                old(self).prefix@,
                line@,
                old(self).cols as int,
            )),
    {
        if line.is_empty() {
            return None;
        }
        let safe = strip_line_controls(line);
        let clean = strip_ansi(safe.as_str());
        let plen = self.prefix.as_str().unicode_len();
        let cols = self.cols as usize;
        let avail: usize = if cols > plen {
            cols - plen
        } else {
            0
        };
        let shown = if clean.as_str().unicode_len() > avail {
            truncate_with_ansi(safe.as_str(), avail)
        } else {
            safe
        };
        let mut w = String::new();
        push_char(&mut w, '\r');
        push_char(&mut w, '\u{1b}');
        push_char(&mut w, '[');
        push_char(&mut w, '2');
        push_char(&mut w, 'K');
        proof {
            assert(w@ =~= clear_line_seq());
        }
        w.append(self.prefix.as_str());
        w.append(shown.as_str());
        proof {
            assert(w@ =~= clear_line_seq() + self.prefix@ + display_of(
                line@,
                avail_width(self.cols as int, self.prefix@.len() as int),
            ));
        }
        self.printed = true;
        Some(w)
    }

    /// Whether at least one line was ever rendered: decides the trailing
    /// newline once the run settles.
    pub fn printed_any(&self) -> (r: bool)
        ensures
            r == self.printed,
    {
        self.printed
    }
}

} // verus!
