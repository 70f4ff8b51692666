//! The line sanitizer: a small scanner over escape sequences, used three ways.
//!
//! One two-state machine (`Normal` / inside-an-escape-sequence, entered at the
//! ESC introducer and left at the first ASCII-letter terminator) underlies the
//! whole crate's view of a line:
//! - `visible_from` / `visible_of`: the characters outside escape sequences,
//!   the ones the truncator counts against a width budget;
//! - `measured_from` / `measured_of`: the visible characters that actually
//!   take a column — the measurement line used to decide truncation;
//! - `stripped_of`: the render-safe line, with cursor- and line-editing
//!   control sequences removed but color and style sequences kept.

use vstd::prelude::*;
use crate::chars::{is_escape_start, is_escape_end, is_digit, is_zero_width};
use crate::chars::{exec_is_escape_end, exec_is_digit, push_char};
use vstd::string::StrSliceExecFns;

verus! {

/// One step of the scanner: the state after reading `c` in state `in_esc`.
pub open spec fn next_in_escape(in_esc: bool, c: char) -> bool {
    if in_esc {
        !is_escape_end(c)
    } else {
        is_escape_start(c)
    }
}

/// The scanner state after reading all of `s`, starting in state `in_esc`.
pub open spec fn state_thru(s: Seq<char>, in_esc: bool) -> bool
    decreases s.len(),
{
    if s.len() == 0 {
        in_esc
    } else {
        state_thru(s.drop_first(), next_in_escape(in_esc, s.first()))
    }
}

/// The characters of `s` that lie outside escape sequences, scanning from
/// state `in_esc`. The ESC introducer and everything up to the terminating
/// letter belong to the sequence and are not visible.
pub open spec fn visible_from(s: Seq<char>, in_esc: bool) -> Seq<char>
    decreases s.len(),
{
    if s.len() == 0 {
        Seq::empty()
    } else if in_esc || is_escape_start(s.first()) {
        visible_from(s.drop_first(), next_in_escape(in_esc, s.first()))
    } else {
        seq![s.first()] + visible_from(s.drop_first(), false)
    }
}

/// The visible characters of `s` (scan started outside any sequence).
pub open spec fn visible_of(s: Seq<char>) -> Seq<char> {
    visible_from(s, false)
}

/// The measurement line: visible characters that take a column, i.e. the
/// visible characters minus bells and the ellipsis glyph.
pub open spec fn measured_from(s: Seq<char>, in_esc: bool) -> Seq<char>
    decreases s.len(),
{
    if s.len() == 0 {
        Seq::empty()
    } else if in_esc || is_escape_start(s.first()) {
        measured_from(s.drop_first(), next_in_escape(in_esc, s.first()))
    } else if is_zero_width(s.first()) {
        measured_from(s.drop_first(), false)
    } else {
        seq![s.first()] + measured_from(s.drop_first(), false)
    }
}

/// The measurement line of `s` (scan started outside any sequence).
pub open spec fn measured_of(s: Seq<char>) -> Seq<char> {
    measured_from(s, false)
}

/// Scanning a concatenation is scanning the parts in turn: the state chains
/// through, and the visible and measured characters concatenate.
pub proof fn lemma_scan_split(a: Seq<char>, b: Seq<char>, st: bool)
    ensures
        state_thru(a + b, st) == state_thru(b, state_thru(a, st)),
        visible_from(a + b, st) == visible_from(a, st) + visible_from(b, state_thru(a, st)),
        measured_from(a + b, st) == measured_from(a, st) + measured_from(b, state_thru(a, st)),
    decreases a.len(),
{
    if a.len() == 0 {
        assert(a + b =~= b);
        assert(visible_from(a, st) + visible_from(b, st) =~= visible_from(b, st));
        assert(measured_from(a, st) + measured_from(b, st) =~= measured_from(b, st));
    } else {
        let c = a.first();
        let st2 = next_in_escape(st, c);
        assert((a + b).first() == c);
        assert((a + b).drop_first() =~= a.drop_first() + b);
        lemma_scan_split(a.drop_first(), b, st2);
        if !st && !is_escape_start(c) {
            assert(seq![c] + (visible_from(a.drop_first(), false) + visible_from(
                b,
                state_thru(a.drop_first(), false),
            )) =~= (seq![c] + visible_from(a.drop_first(), false)) + visible_from(
                b,
                state_thru(a.drop_first(), false),
            ));
            if !is_zero_width(c) {
                assert(seq![c] + (measured_from(a.drop_first(), false) + measured_from(
                    b,
                    state_thru(a.drop_first(), false),
                )) =~= (seq![c] + measured_from(a.drop_first(), false)) + measured_from(
                    b,
                    state_thru(a.drop_first(), false),
                ));
            }
        }
    }
}

/// Scanning a single character from state `st`.
pub proof fn lemma_scan_singleton(c: char, st: bool)
    ensures
        state_thru(seq![c], st) == next_in_escape(st, c),
        visible_from(seq![c], st) == (if st || is_escape_start(c) {
            Seq::<char>::empty()
        } else {
            seq![c]
        }),
        measured_from(seq![c], st) == (if st || is_escape_start(c) || is_zero_width(c) {
            Seq::<char>::empty()
        } else {
            seq![c]
        }),
{
    let e = seq![c].drop_first();
    let st2 = next_in_escape(st, c);
    assert(e =~= Seq::<char>::empty());
    assert(state_thru(e, st2) == st2);
    assert(visible_from(e, st2) =~= Seq::<char>::empty());
    assert(visible_from(e, false) =~= Seq::<char>::empty());
    assert(measured_from(e, st2) =~= Seq::<char>::empty());
    assert(measured_from(e, false) =~= Seq::<char>::empty());
    if !(st || is_escape_start(c)) {
        assert(seq![c] + Seq::<char>::empty() =~= seq![c]);
    }
}

/// The measurement line never has more characters than the visible line.
pub proof fn lemma_measured_le_visible(s: Seq<char>, st: bool)
    ensures
        measured_from(s, st).len() <= visible_from(s, st).len(),
    decreases s.len(),
{
    if s.len() > 0 {
        lemma_measured_le_visible(s.drop_first(), next_in_escape(st, s.first()));
        lemma_measured_le_visible(s.drop_first(), false);
    }
}

/// The length of the run of ASCII digits in `s` starting at index `i`.
pub open spec fn digit_run(s: Seq<char>, i: int) -> nat
    decreases s.len() - i,
{
    if 0 <= i < s.len() && is_digit(s[i]) {
        1 + digit_run(s, i + 1)
    } else {
        0
    }
}

/// The length of the cursor- or line-control sequence at the front of `s`,
/// or 0 when none starts there. Recognized, after `ESC [`:
/// a digit run ended by `G` (cursor column), `C` or `D` (relative move);
/// bare `K` (clear to end of line), `s` and `u` (cursor save and restore);
/// and `1K` or `2K` (clear to start, clear whole line).
pub open spec fn control_prefix_len(s: Seq<char>) -> int {
    if s.len() >= 2 && is_escape_start(s[0]) && s[1] == '[' {
        let d = digit_run(s, 2) as int;
        if 2 + d < s.len() && (s[2 + d] == 'G' || s[2 + d] == 'C' || s[2 + d] == 'D') {
            3 + d
        } else if d == 0 && 2 < s.len() && (s[2] == 'K' || s[2] == 's' || s[2] == 'u') {
            3
        } else if d == 1 && 3 < s.len() && (s[2] == '1' || s[2] == '2') && s[3] == 'K' {
            4
        } else {
            0
        }
    } else {
        0
    }
}

/// The render-safe line: `s` with carriage returns and the control sequences
/// of `control_prefix_len` removed, scanning left to right; everything else,
/// color and style sequences included, is kept.
pub open spec fn stripped_of(s: Seq<char>) -> Seq<char>
    decreases s.len(),
{
    if s.len() == 0 {
        Seq::empty()
    } else if s.first() == '\r' {
        stripped_of(s.drop_first())
    } else if control_prefix_len(s) > 0 {
        stripped_of(s.skip(control_prefix_len(s)))
    } else {
        seq![s.first()] + stripped_of(s.drop_first())
    }
}

/// Strips carriage returns and cursor- and line-editing control sequences,
/// keeping color and style sequences: the render-safe pass.
pub fn strip_line_controls(line: &str) -> (r: String)
    ensures
        r@ == stripped_of(line@),
{
    let n = line.unicode_len();
    let mut out = String::new();
    let mut i: usize = 0;
    proof {
        assert(line@.skip(0) =~= line@);
        assert(out@ + stripped_of(line@) =~= stripped_of(line@));
    }
    while i < n
        invariant
            i <= n,
            n == line@.len(),
            stripped_of(line@) == out@ + stripped_of(line@.skip(i as int)),
        decreases n - i,
    {
        let c = line.get_char(i);
        proof {
            assert(line@.skip(i as int).first() == c);
            assert(line@.skip(i as int).drop_first() =~= line@.skip(i as int + 1));
        }
        if c == '\r' {
            i = i + 1;
        } else {
            let is_csi = c == '\u{1b}' && i + 1 < n && line.get_char(i + 1) == '[';
            let mut matched: usize = 0;
            if is_csi {
                let mut j = i + 2;
                while j < n && exec_is_digit(line.get_char(j))
                    invariant
                        i + 2 <= j <= n,
                        n == line@.len(),
                        forall|k: int| i + 2 <= k < j ==> is_digit(line@[k]),
                        digit_run(line@.skip(i as int), 2) == j - i - 2 + digit_run(
                            line@.skip(i as int),
                            j - i,
                        ),
                    decreases n - j,
                {
                    proof {
                        assert(line@.skip(i as int)[j - i] == line@[j as int]);
                    }
                    j = j + 1;
                }
                proof {
                    if j < n {
                        assert(line@.skip(i as int)[j - i] == line@[j as int]);
                    }
                    assert(digit_run(line@.skip(i as int), j - i) == 0);
                }
                let d = j - (i + 2);
                let ghost su = line@.skip(i as int);
                if j < n && (line.get_char(j) == 'G' || line.get_char(j) == 'C' || line.get_char(j)
                    == 'D') {
                    proof {
                        assert(su[2 + d] == line@[j as int]);
                    }
                    matched = d + 3;
                } else if d == 0 && j < n && (line.get_char(j) == 'K' || line.get_char(j) == 's'
                    || line.get_char(j) == 'u') {
                    proof {
                        assert(su[2] == line@[j as int]);
                    }
                    matched = 3;
                } else if d == 1 && j < n && (line.get_char(i + 2) == '1' || line.get_char(i + 2)
                    == '2') && line.get_char(j) == 'K' {
                    proof {
                        assert(su[2] == line@[i as int + 2]);
                        assert(su[3] == line@[j as int]);
                    }
                    matched = 4;
                } else {
                    proof {
                        if 2 + d < su.len() {
                            assert(su[2 + d] == line@[j as int]);
                        }
                        if d == 0 && 2 < su.len() {
                            assert(su[2] == line@[j as int]);
                        }
                        if d == 1 && 3 < su.len() {
                            assert(su[2] == line@[i as int + 2]);
                            assert(su[3] == line@[j as int]);
                        }
                        assert(control_prefix_len(su) == 0);
                    }
                }
            }
            if matched > 0 {
                proof {
                    assert(control_prefix_len(line@.skip(i as int)) == matched);
                    assert(line@.skip(i as int).skip(matched as int) =~= line@.skip(
                        i as int + matched as int,
                    ));
                }
                i = i + matched;
            } else {
                proof {
                    assert(control_prefix_len(line@.skip(i as int)) == 0);
                    assert((out@ + seq![c]) + stripped_of(line@.skip(i as int + 1)) =~= out@ + (
                    seq![c] + stripped_of(line@.skip(i as int + 1))));
                }
                push_char(&mut out, c);
                i = i + 1;
            }
        }
    }
    proof {
        assert(line@.skip(n as int) =~= Seq::<char>::empty());
        assert(out@ + Seq::<char>::empty() =~= out@);
    }
    out
}

/// Strips all escape sequences, bells and the ellipsis glyph: the
/// measurement pass, whose result's length is the line's display width.
pub fn strip_ansi(line: &str) -> (r: String)
    ensures
        r@ == measured_of(line@),
{
    let n = line.unicode_len();
    let mut out = String::new();
    let mut in_esc = false;
    let mut i: usize = 0;
    proof {
        assert(line@.skip(0) =~= line@);
        assert(out@ + measured_of(line@) =~= measured_of(line@));
    }
    while i < n
        invariant
            i <= n,
            n == line@.len(),
            measured_of(line@) == out@ + measured_from(line@.skip(i as int), in_esc),
        decreases n - i,
    {
        let c = line.get_char(i);
        proof {
            assert(line@.skip(i as int).first() == c);
            assert(line@.skip(i as int).drop_first() =~= line@.skip(i as int + 1));
        }
        if in_esc {
            if exec_is_escape_end(c) {
                in_esc = false;
            }
        } else if c == '\u{1b}' {
            in_esc = true;
        } else if c == '\u{7}' || c == '\u{2026}' {
            // zero-width: dropped from the measurement line
        } else {
            proof {
                assert((out@ + seq![c]) + measured_from(line@.skip(i as int + 1), false) =~= out@
                    + (seq![c] + measured_from(line@.skip(i as int + 1), false)));
            }
            push_char(&mut out, c);
        }
        i = i + 1;
    }
    proof {
        assert(line@.skip(n as int) =~= Seq::<char>::empty());
        assert(out@ + Seq::<char>::empty() =~= out@);
    }
    out
}

} // verus!
