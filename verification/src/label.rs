//! Label derivation: the display label shown in the status-line prefix.
//!
//! Without an explicit label, one is derived from the leading contiguous
//! non-flag tokens of the command line, joined with single spaces, and cut to
//! 32 visible characters plus a trailing ellipsis when longer.

use vstd::prelude::*;
use crate::chars::push_char;
use vstd::string::{StrSliceExecFns, StringExecFns};

verus! {

/// A flag token: one that starts with `-`.
pub open spec fn is_flag(t: Seq<char>) -> bool {
    t.len() > 0 && t[0] == '-'
}

/// The leading contiguous run of non-flag tokens.
pub open spec fn leading_plain(ts: Seq<Seq<char>>) -> Seq<Seq<char>>
    decreases ts.len(),
{
    if ts.len() == 0 {
        Seq::empty()
    } else if is_flag(ts.first()) {
        Seq::empty()
    } else {
        seq![ts.first()] + leading_plain(ts.drop_first())
    }
}

/// The tokens joined with single spaces.
pub open spec fn joined(ts: Seq<Seq<char>>) -> Seq<char>
    decreases ts.len(),
{
    if ts.len() == 0 {
        Seq::empty()
    } else if ts.len() == 1 {
        ts[0]
    } else {
        joined(ts.drop_last()) + seq![' '] + ts.last()
    }
}

/// The 32-character cap: a longer label is cut to its first 32 characters
/// with the ellipsis appended (33 in all).
pub open spec fn capped(l: Seq<char>) -> Seq<char> {
    if l.len() > 32 {
        l.take(32).push('\u{2026}')
    } else {
        l
    }
}

/// The derived label of a command line.
pub open spec fn label_of(ts: Seq<Seq<char>>) -> Seq<char> {
    capped(joined(leading_plain(ts)))
}

/// The status-line prefix built around a label.
pub open spec fn prefix_of(label: Seq<char>) -> Seq<char> {
    seq!['['] + label + seq![']', ' ']
}

/// The derived label never exceeds 33 characters; a joined run longer than
/// 32 characters is cut to exactly 32 plus the trailing ellipsis, and a
/// shorter one is kept as it is.
pub proof fn lemma_label_cap(ts: Seq<Seq<char>>)
    ensures
        label_of(ts).len() <= 33,
        joined(leading_plain(ts)).len() > 32 ==> label_of(ts) == joined(leading_plain(ts)).take(
            32,
        ).push('\u{2026}') && label_of(ts).len() == 33 && label_of(ts).last() == '\u{2026}',
        joined(leading_plain(ts)).len() <= 32 ==> label_of(ts) == joined(leading_plain(ts)),
{
}

/// The leading run is the prefix up to the first flag token.
pub proof fn lemma_leading_plain(ts: Seq<Seq<char>>, k: int)
    requires
        0 <= k <= ts.len(),
        forall|i: int| 0 <= i < k ==> !is_flag(ts[i]),
        k < ts.len() ==> is_flag(ts[k]),
    ensures
        leading_plain(ts) == ts.take(k),
    decreases ts.len(),
{
    if ts.len() == 0 {
        assert(ts.take(0) =~= Seq::<Seq<char>>::empty());
    } else if k == 0 {
        assert(ts.take(0) =~= Seq::<Seq<char>>::empty());
    } else {
        assert(!is_flag(ts[0]));
        let rest = ts.drop_first();
        assert(forall|i: int| 0 <= i < k - 1 ==> rest[i] == ts[i + 1] && !is_flag(rest[i]));
        lemma_leading_plain(rest, k - 1);
        assert(rest.take(k - 1) =~= ts.take(k).drop_first());
        assert(seq![ts.first()] + ts.take(k).drop_first() =~= ts.take(k));
    }
}

fn token_is_flag(t: &String) -> (r: bool)
    ensures
        r == is_flag(t@),
{
    t.as_str().unicode_len() > 0 && t.as_str().get_char(0) == '-'
}

/// The count of leading non-flag tokens.
fn leading_count(tokens: &Vec<String>) -> (k: usize)
    ensures
        k <= tokens.len(),
        forall|i: int| 0 <= i < k ==> !is_flag(tokens.deep_view()[i]),
        k < tokens.len() ==> is_flag(tokens.deep_view()[k as int]),
{
    let n = tokens.len();
    let mut k: usize = 0;
    while k < n
        invariant
            k <= n,
            n == tokens.len(),
            forall|i: int| 0 <= i < k ==> !is_flag(tokens.deep_view()[i]),
        decreases n - k,
    {
        if token_is_flag(&tokens[k]) {
            return k;
        }
        k = k + 1;
    }
    k
}

/// Derives the label from the command tokens: the leading non-flag tokens,
/// joined with single spaces, capped at 32 characters plus an ellipsis.
pub fn derive_label(tokens: &Vec<String>) -> (r: String)
    ensures
        r@ == label_of(tokens.deep_view()),
{
    let ghost ts = tokens.deep_view();
    let k = leading_count(tokens);
    proof {
        lemma_leading_plain(ts, k as int);
    }
    let mut label = String::new();
    let mut j: usize = 0;
    proof {
        assert(ts.take(0) =~= Seq::<Seq<char>>::empty());
    }
    while j < k
        invariant
            j <= k <= tokens.len(),
            ts == tokens.deep_view(),
            ts.len() == tokens.len(),
            label@ == joined(ts.take(j as int)),
        decreases k - j,
    {
        proof {
            assert(ts.take(j as int + 1).drop_last() =~= ts.take(j as int));
            assert(ts.take(j as int + 1).last() == ts[j as int]);
        }
        if j > 0 {
            push_char(&mut label, ' ');
        }
        label.append(tokens[j].as_str());
        proof {
            if j == 0 {
                assert(label@ =~= ts[0]);
                assert(joined(ts.take(1)) == ts.take(1)[0]);
            } else {
                assert(label@ =~= joined(ts.take(j as int)) + seq![' '] + ts[j as int]);
            }
        }
        j = j + 1;
    }
    let len = label.as_str().unicode_len();
    if len > 32 {
        let head = label.as_str().substring_char(0, 32);
        let mut r = head.to_owned();
        push_char(&mut r, '\u{2026}');
        proof {
            assert(label@.subrange(0, 32) =~= label@.take(32));
            assert(r@ =~= label@.take(32).push('\u{2026}'));
        }
        r
    } else {
        label
    }
}

/// Builds the status-line prefix `[label] ` shown before every rendered line.
pub fn make_prefix(label: &str) -> (r: String)
    ensures
        r@ == prefix_of(label@),
{
    let mut r = String::new();
    push_char(&mut r, '[');
    r.append(label);
    push_char(&mut r, ']');
    push_char(&mut r, ' ');
    proof {
        assert(r@ =~= prefix_of(label@));
    }
    r
}

} // verus!
