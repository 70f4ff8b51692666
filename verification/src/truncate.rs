//! The ellipsis truncator: shortens a line to a visible-character budget
//! without splitting an escape sequence, marking the cut with an ellipsis.

use vstd::prelude::*;
use crate::chars::{is_escape_start, push_char};
use crate::sanitize::{
    next_in_escape, state_thru, visible_from, visible_of, measured_of, lemma_scan_split,
    lemma_scan_singleton, lemma_measured_le_visible,
};
use vstd::string::StrSliceExecFns;

verus! {

/// The ellipsis marker planted where a line was cut.
pub open spec fn ellipsis() -> char {
    '\u{2026}'
}

/// Truncation from scanner state `in_esc` with `left` visible characters of
/// budget remaining. Escape-sequence characters are copied without touching
/// the budget. A visible character is copied while budget remains — unless it
/// is the last budgeted one and more visible text follows, in which case the
/// ellipsis takes its place and the rest of the line (trailing escape
/// sequences included) is discarded. A visible character past the budget is
/// likewise replaced by the ellipsis.
pub open spec fn truncate_from(s: Seq<char>, in_esc: bool, left: nat) -> Seq<char>
    decreases s.len(),
{
    if s.len() == 0 {
        Seq::empty()
    } else if in_esc || is_escape_start(s.first()) {
        seq![s.first()] + truncate_from(s.drop_first(), next_in_escape(in_esc, s.first()), left)
    } else if left == 0 {
        seq![ellipsis()]
    } else if left == 1 && visible_from(s.drop_first(), false).len() > 0 {
        seq![ellipsis()]
    } else {
        seq![s.first()] + truncate_from(s.drop_first(), false, (left - 1) as nat)
    }
}

/// What `truncate_with_ansi` returns: `s` cut to at most `max` visible
/// characters, the last of them the ellipsis when anything was cut.
pub open spec fn spec_truncate(s: Seq<char>, max: nat) -> Seq<char> {
    truncate_from(s, false, max)
}

/// A line within its budget is returned unchanged.
pub proof fn lemma_truncate_id(s: Seq<char>, st: bool, left: nat)
    requires
        visible_from(s, st).len() <= left,
    ensures
        truncate_from(s, st, left) == s,
    decreases s.len(),
{
    if s.len() > 0 {
        let c = s.first();
        if st || is_escape_start(c) {
            lemma_truncate_id(s.drop_first(), next_in_escape(st, c), left);
            assert(seq![c] + s.drop_first() =~= s);
        } else {
            lemma_truncate_id(s.drop_first(), false, (left - 1) as nat);
            assert(seq![c] + s.drop_first() =~= s);
        }
    }
}

/// When the budget is exceeded, the result is the prefix up to (excluding)
/// the last budgeted visible character, with the ellipsis in its place.
/// `cut` is that character's position: it is visible there, and exactly
/// `left - 1` visible characters precede it (none when the budget is 0).
pub proof fn lemma_truncate_is_cut(s: Seq<char>, st: bool, left: nat, cut: int)
    requires
        0 <= cut < s.len(),
        visible_from(s.take(cut), st).len() == (if left == 0 { 0int } else { left - 1 }),
        !state_thru(s.take(cut), st),
        !is_escape_start(s[cut]),
        visible_from(s, st).len() > left,
    ensures
        truncate_from(s, st, left) == s.take(cut) + seq![ellipsis()],
    decreases s.len(),
{
    let c = s.first();
    let rest = s.drop_first();
    if st || is_escape_start(c) {
        let st2 = next_in_escape(st, c);
        assert(cut != 0) by {
            if cut == 0 {
                assert(visible_from(s.take(0), st) =~= Seq::<char>::empty());
                assert(state_thru(s.take(0), st) == st);
                assert(s[0] == c);
            }
        }
        assert(s.take(cut).drop_first() =~= rest.take(cut - 1));
        assert(s.take(cut).first() == c);
        lemma_truncate_is_cut(rest, st2, left, cut - 1);
        assert(seq![c] + (rest.take(cut - 1) + seq![ellipsis()]) =~= s.take(cut) + seq![
            ellipsis(),
        ]);
    } else {
        if cut == 0 {
            assert(visible_from(s.take(0), st) =~= Seq::<char>::empty());
            if left == 0 {
                assert(truncate_from(s, st, left) == seq![ellipsis()]);
                assert(s.take(0) + seq![ellipsis()] =~= seq![ellipsis()]);
            } else {
                assert(left == 1);
                assert(visible_from(s, st) == seq![c] + visible_from(rest, false));
                assert(visible_from(rest, false).len() > 0);
                assert(truncate_from(s, st, left) == seq![ellipsis()]);
                assert(s.take(0) + seq![ellipsis()] =~= seq![ellipsis()]);
            }
        } else {
            assert(s.take(cut).drop_first() =~= rest.take(cut - 1));
            assert(s.take(cut).first() == c);
            assert(visible_from(s.take(cut), st) == seq![c] + visible_from(
                rest.take(cut - 1),
                false,
            ));
            assert(left >= 2);
            lemma_truncate_is_cut(rest, false, (left - 1) as nat, cut - 1);
            assert(seq![c] + (rest.take(cut - 1) + seq![ellipsis()]) =~= s.take(cut) + seq![
                ellipsis(),
            ]);
        }
    }
}

/// The visible characters of a truncated line: the first `left - 1` visible
/// characters of the input, then the ellipsis; and the result ends outside
/// any escape sequence.
pub proof fn lemma_truncate_visible(s: Seq<char>, st: bool, left: nat)
    requires
        visible_from(s, st).len() > left,
    ensures
        visible_from(truncate_from(s, st, left), st) == (if left == 0 {
            Seq::<char>::empty()
        } else {
            visible_from(s, st).take(left - 1)
        }).push(ellipsis()),
        !state_thru(truncate_from(s, st, left), st),
    decreases s.len(),
{
    let c = s.first();
    let rest = s.drop_first();
    let t = truncate_from(s, st, left);
    if st || is_escape_start(c) {
        let st2 = next_in_escape(st, c);
        lemma_truncate_visible(rest, st2, left);
        let t2 = truncate_from(rest, st2, left);
        assert(t == seq![c] + t2);
        lemma_scan_split(seq![c], t2, st);
        lemma_scan_singleton(c, st);
        assert(Seq::<char>::empty() + visible_from(t2, st2) =~= visible_from(t2, st2));
        assert(visible_from(t, st) =~= visible_from(t2, st2));
        assert(visible_from(s, st) == visible_from(rest, st2));
    } else {
        if left == 0 || (left == 1 && visible_from(rest, false).len() > 0) {
            assert(t == seq![ellipsis()]);
            lemma_scan_singleton(ellipsis(), st);
            assert(visible_from(t, st) =~= seq![ellipsis()]);
            if left == 0 {
                assert(Seq::<char>::empty().push(ellipsis()) =~= seq![ellipsis()]);
            } else {
                assert(visible_from(s, st).take(0) =~= Seq::<char>::empty());
                assert(visible_from(s, st).take(0).push(ellipsis()) =~= seq![ellipsis()]);
            }
        } else {
            assert(visible_from(s, st) == seq![c] + visible_from(rest, false));
            assert(left >= 2 || visible_from(rest, false).len() == 0);
            assert(visible_from(rest, false).len() > left - 1);
            lemma_truncate_visible(rest, false, (left - 1) as nat);
            let t2 = truncate_from(rest, false, (left - 1) as nat);
            assert(t == seq![c] + t2);
            lemma_scan_split(seq![c], t2, st);
            lemma_scan_singleton(c, st);
            assert(visible_from(t, st) == seq![c] + visible_from(t2, false));
            assert(visible_from(t2, false) == visible_from(rest, false).take(
                left - 2,
            ).push(ellipsis()));
            assert(seq![c] + visible_from(rest, false).take(left - 2).push(ellipsis())
                =~= visible_from(s, st).take(left - 1).push(ellipsis()));
        }
    }
}

/// The truncation law: when a line's measured width exceeds the budget
/// `w >= 1`, the truncated line has exactly `w` visible characters — the
/// first `w - 1` of the input followed by the ellipsis — its measured width
/// stays within `w`, and the scan of the result ends outside any escape
/// sequence, so no sequence was split.
pub proof fn lemma_truncate_width(s: Seq<char>, w: nat)
    requires
        1 <= w,
        measured_of(s).len() > w,
    ensures
        visible_of(spec_truncate(s, w)) == visible_of(s).take(w - 1).push(ellipsis()),
        visible_of(spec_truncate(s, w)).len() == w,
        visible_of(spec_truncate(s, w)).last() == ellipsis(),
        measured_of(spec_truncate(s, w)).len() <= w,
        !state_thru(spec_truncate(s, w), false),
{
    lemma_measured_le_visible(s, false);
    lemma_truncate_visible(s, false, w);
    lemma_measured_le_visible(spec_truncate(s, w), false);
}

/// Shortens `input` to at most `max_len` visible characters, copying escape
/// sequences whole and free of charge; if anything was cut, the last visible
/// character of the result is the ellipsis marker.
pub fn truncate_with_ansi(input: &str, max_len: usize) -> (r: String)
    ensures
        r@ == spec_truncate(input@, max_len as nat),
{
    let n = input.unicode_len();
    let budget: usize = if max_len == 0 {
        0
    } else {
        max_len - 1
    };
    let mut i: usize = 0;
    let mut in_esc = false;
    let mut cnt: usize = 0;
    let mut cut: usize = 0;
    let mut have_cut = false;
    proof {
        assert(input@.take(0) =~= Seq::<char>::empty());
    }
    while i < n
        invariant
            i <= n,
            n == input@.len(),
            budget == (if max_len == 0 { 0int } else { max_len - 1 }),
            in_esc == state_thru(input@.take(i as int), false),
            cnt == visible_from(input@.take(i as int), false).len(),
            cnt <= i,
            have_cut <==> cnt > budget,
            have_cut ==> 0 <= cut < n && visible_from(input@.take(cut as int), false).len()
                == budget && !state_thru(input@.take(cut as int), false) && !is_escape_start(
                input@[cut as int],
            ),
        decreases n - i,
    {
        let c = input.get_char(i);
        proof {
            assert(input@.take(i as int + 1) =~= input@.take(i as int) + seq![c]);
            lemma_scan_split(input@.take(i as int), seq![c], false);
            lemma_scan_singleton(c, in_esc);
            if in_esc || is_escape_start(c) {
                assert(visible_from(input@.take(i as int + 1), false) =~= visible_from(
                    input@.take(i as int),
                    false,
                ));
            }
        }
        if in_esc {
            if crate::chars::exec_is_escape_end(c) {
                in_esc = false;
            }
        } else if c == '\u{1b}' {
            in_esc = true;
        } else {
            if cnt == budget {
                cut = i;
                have_cut = true;
            }
            cnt = cnt + 1;
        }
        i = i + 1;
    }
    proof {
        assert(input@.take(n as int) =~= input@);
    }
    if cnt <= max_len {
        proof {
            lemma_truncate_id(input@, false, max_len as nat);
        }
        input.to_owned()
    } else {
        proof {
            lemma_truncate_is_cut(input@, false, max_len as nat, cut as int);
        }
        let head = input.substring_char(0, cut);
        let mut r = head.to_owned();
        push_char(&mut r, '\u{2026}');
        proof {
            assert(input@.subrange(0, cut as int) =~= input@.take(cut as int));
            assert(r@ =~= input@.take(cut as int) + seq![ellipsis()]);
        }
        r
    }
}

} // verus!
