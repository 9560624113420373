//! Text layout: the display width of a glyph sequence and the window of a line
//! that fits a column budget while a required position stays visible.

use vstd::prelude::*;
use vstd::slice::slice_subrange;

verus! {

/// Columns that one glyph takes: one where it encodes as a single UTF-8 byte,
/// two otherwise.
pub open spec fn char_width(c: char) -> nat {
    if (c as u32) < 0x80 {
        1
    } else {
        2
    }
}

/// Columns that a glyph sequence takes: the sum of its glyphs' widths.
pub open spec fn display_width_spec(s: Seq<char>) -> nat
    decreases s.len(),
{
    if s.len() == 0 {
        0
    } else {
        char_width(s[0]) + display_width_spec(s.drop_first())
    }
}

/// The number of leading glyphs of `s` that together fit into `budget` columns.
pub open spec fn fit_left(s: Seq<char>, budget: nat) -> nat
    decreases s.len(),
{
    if s.len() == 0 || char_width(s[0]) > budget {
        0
    } else {
        1 + fit_left(s.drop_first(), (budget - char_width(s[0])) as nat)
    }
}

/// The number of trailing glyphs of `s` that together fit into `budget` columns.
pub open spec fn fit_right(s: Seq<char>, budget: nat) -> nat
    decreases s.len(),
{
    if s.len() == 0 || char_width(s.last()) > budget {
        0
    } else {
        1 + fit_right(s.drop_last(), (budget - char_width(s.last())) as nat)
    }
}

/// Index of the last glyph that still fits when `s` is filled from the left;
/// 0 for an empty budget.
pub open spec fn left_fixed_spec(s: Seq<char>, budget: nat) -> int {
    if budget == 0 {
        0
    } else {
        fit_left(s, budget) - 1
    }
}

/// Index of the first glyph whose suffix still fits when `s` is filled from the
/// right; the last index for an empty budget.
pub open spec fn right_fixed_spec(s: Seq<char>, budget: nat) -> int {
    if budget == 0 {
        s.len() - 1
    } else {
        s.len() - fit_right(s, budget)
    }
}

/// `width` less `reserve` columns, never below zero.
pub open spec fn budget_less(width: nat, reserve: nat) -> nat {
    if width >= reserve {
        (width - reserve) as nat
    } else {
        0
    }
}

/// The two-glyph truncation marker.
pub open spec fn marker() -> Seq<char> {
    seq!['.', '.']
}

/// The visible slice of `text` from `start` on and the index of its first
/// drawn glyph, for a budget of `width` columns and a position `must_show`
/// that has to stay inside the slice. `None` where no window is defined: the
/// start lies behind the text, the required position lies behind it while the
/// text has to be cut, the first glyph alone is wider than the budget left of
/// the trailing marker, or the leading marker would begin before index 0.
pub open spec fn reshape_spec(text: Seq<char>, width: nat, start: nat, must_show: nat) -> Option<
    (Seq<char>, nat),
> {
    if start > text.len() {
        None
    } else {
        let tail = text.subrange(start as int, text.len() as int);
        if display_width_spec(tail) <= width {
            Some((tail, start))
        } else {
            let inner = budget_less(width, 2);
            if must_show >= text.len() || (inner > 0 && fit_left(tail, inner) == 0) {
                None
            } else {
                let reach = start + left_fixed_spec(tail, inner);
                let right = 1 + if must_show >= reach {
                    must_show as int
                } else {
                    reach
                };
                let window = text.subrange(start as int, right);
                if right_fixed_spec(window, inner) > 0 {
                    let left = start + right_fixed_spec(window, budget_less(width, 4));
                    if left < 2 {
                        None
                    } else {
                        Some((marker() + text.subrange(left, right) + marker(), (left - 2) as nat))
                    }
                } else {
                    Some((window + marker(), start))
                }
            }
        }
    }
}

/// No more glyphs fit from the left than the sequence has.
pub proof fn lemma_fit_left_bound(s: Seq<char>, budget: nat)
    ensures
        fit_left(s, budget) <= s.len(),
    decreases s.len(),
{
    if s.len() > 0 && char_width(s[0]) <= budget {
        lemma_fit_left_bound(s.drop_first(), (budget - char_width(s[0])) as nat);
    }
}

/// No more glyphs fit from the right than the sequence has.
pub proof fn lemma_fit_right_bound(s: Seq<char>, budget: nat)
    ensures
        fit_right(s, budget) <= s.len(),
    decreases s.len(),
{
    if s.len() > 0 && char_width(s.last()) <= budget {
        lemma_fit_right_bound(s.drop_last(), (budget - char_width(s.last())) as nat);
    }
}

/// The width of a sequence is the width of all its glyphs but the last, plus
/// that of the last.
pub proof fn lemma_width_drop_last(s: Seq<char>)
    requires
        s.len() > 0,
    ensures
        display_width_spec(s) == display_width_spec(s.drop_last()) + char_width(s.last()),
    decreases s.len(),
{
    if s.len() == 1 {
        assert(s.drop_last() == s.drop_first());
    } else {
        lemma_width_drop_last(s.drop_first());
        assert(s.drop_first().drop_last() == s.drop_last().drop_first());
    }
}

/// The display width adds up over a concatenation: it is the sum of the
/// widths of the glyphs.
pub proof fn lemma_width_concat(a: Seq<char>, b: Seq<char>)
    ensures
        display_width_spec(a + b) == display_width_spec(a) + display_width_spec(b),
    decreases a.len(),
{
    if a.len() == 0 {
        assert(a + b == b);
    } else {
        lemma_width_concat(a.drop_first(), b);
        assert((a + b).drop_first() == a.drop_first() + b);
    }
}

/// Every glyph takes one or two columns, so a sequence takes at least as many
/// columns as it has glyphs and at most twice as many.
pub proof fn lemma_width_bounds(s: Seq<char>)
    ensures
        s.len() <= display_width_spec(s) <= 2 * s.len(),
    decreases s.len(),
{
    if s.len() > 0 {
        lemma_width_bounds(s.drop_first());
    }
}

/// A sequence takes exactly as many columns as it has glyphs where, and only
/// where, each of its glyphs takes one column.
pub proof fn lemma_width_all_narrow(s: Seq<char>)
    ensures
        display_width_spec(s) == s.len() <==> forall|i: int|
            0 <= i < s.len() ==> char_width(#[trigger] s[i]) == 1,
    decreases s.len(),
{
    if s.len() > 0 {
        let rest = s.drop_first();
        lemma_width_all_narrow(rest);
        lemma_width_bounds(rest);
        if display_width_spec(s) == s.len() {
            assert forall|i: int| 0 <= i < s.len() implies char_width(#[trigger] s[i]) == 1 by {
                if i > 0 {
                    assert(s[i] == rest[i - 1]);
                }
            }
        }
        if forall|i: int| 0 <= i < s.len() ==> char_width(#[trigger] s[i]) == 1 {
            assert forall|i: int| 0 <= i < rest.len() implies char_width(#[trigger] rest[i])
                == 1 by {
                assert(rest[i] == s[i + 1]);
            }
        }
    }
}

/// Filling from the left selects a prefix that fits the budget and cannot
/// take one glyph more.
pub proof fn lemma_fit_left_maximal(s: Seq<char>, budget: nat)
    ensures
        fit_left(s, budget) <= s.len(),
        display_width_spec(s.take(fit_left(s, budget) as int)) <= budget,
        fit_left(s, budget) < s.len() ==> display_width_spec(
            s.take(fit_left(s, budget) as int + 1),
        ) > budget,
    decreases s.len(),
{
    let k = fit_left(s, budget) as int;
    if s.len() == 0 {
        assert(s.take(0) == Seq::<char>::empty());
    } else if char_width(s[0]) > budget {
        assert(s.take(0).len() == 0);
        assert(s.take(1).drop_first().len() == 0);
        assert(display_width_spec(s.take(1).drop_first()) == 0);
    } else {
        let rest = s.drop_first();
        let left = (budget - char_width(s[0])) as nat;
        lemma_fit_left_maximal(rest, left);
        assert(s.take(k).drop_first() == rest.take(k - 1));
        if k < s.len() {
            assert(s.take(k + 1).drop_first() == rest.take(k));
        }
    }
}

/// Filling from the right selects a suffix that fits the budget and cannot
/// take one glyph more.
pub proof fn lemma_fit_right_maximal(s: Seq<char>, budget: nat)
    ensures
        fit_right(s, budget) <= s.len(),
        display_width_spec(s.skip(s.len() - fit_right(s, budget))) <= budget,
        fit_right(s, budget) < s.len() ==> display_width_spec(
            s.skip(s.len() - fit_right(s, budget) - 1),
        ) > budget,
    decreases s.len(),
{
    let k = fit_right(s, budget) as int;
    let n = s.len() as int;
    if n == 0 {
        assert(s.skip(0).len() == 0);
    } else if char_width(s.last()) > budget {
        assert(s.skip(n).len() == 0);
        lemma_width_drop_last(s.skip(n - 1));
        assert(s.skip(n - 1).drop_last().len() == 0);
        assert(display_width_spec(s.skip(n - 1).drop_last()) == 0);
    } else {
        let rest = s.drop_last();
        let left = (budget - char_width(s.last())) as nat;
        lemma_fit_right_maximal(rest, left);
        lemma_width_drop_last(s.skip(n - k));
        assert(s.skip(n - k).drop_last() == rest.skip(n - 1 - (k - 1)));
        if k < n {
            lemma_width_drop_last(s.skip(n - k - 1));
            assert(s.skip(n - k - 1).drop_last() == rest.skip(n - 1 - (k - 1) - 1));
        }
    }
}

/// Filling from the right is filling the reversed sequence from the left: the
/// right-fixed index of a sequence and the left-fixed index of its reverse
/// name the same glyph, counted from either end.
pub proof fn lemma_fit_right_mirrors_left(s: Seq<char>, budget: nat)
    ensures
        fit_right(s, budget) == fit_left(s.reverse(), budget),
        right_fixed_spec(s, budget) + left_fixed_spec(s.reverse(), budget) == s.len() - 1,
    decreases s.len(),
{
    if s.len() > 0 {
        assert(s.reverse()[0] == s.last());
        if char_width(s.last()) <= budget {
            lemma_fit_right_mirrors_left(s.drop_last(), (budget - char_width(s.last())) as nat);
            assert(s.reverse().drop_first() == s.drop_last().reverse());
        }
    }
}

/// A sequence that fits the budget as a whole is selected whole from either
/// side: the left-fixed index is then its last index and the right-fixed
/// index is 0.
pub proof fn lemma_fit_whole(s: Seq<char>, budget: nat)
    requires
        display_width_spec(s) <= budget,
    ensures
        fit_left(s, budget) == s.len(),
        fit_right(s, budget) == s.len(),
        budget > 0 ==> left_fixed_spec(s, budget) == s.len() - 1,
        budget > 0 ==> right_fixed_spec(s, budget) == 0,
    decreases s.len(),
{
    if s.len() > 0 {
        lemma_width_drop_last(s);
        lemma_fit_whole(s.drop_first(), (budget - char_width(s[0])) as nat);
        lemma_fit_whole(s.drop_last(), (budget - char_width(s.last())) as nat);
    }
}

/// The two windows that the fixed indices select, for a budget of at least
/// one column: the prefix up to and including the left-fixed index and the
/// suffix from the right-fixed index on both fit the budget.
pub proof fn lemma_fixed_windows_fit(s: Seq<char>, budget: nat)
    requires
        budget > 0,
    ensures
        -1 <= left_fixed_spec(s, budget) < s.len(),
        0 <= right_fixed_spec(s, budget) <= s.len(),
        display_width_spec(s.take(left_fixed_spec(s, budget) + 1)) <= budget,
        display_width_spec(s.skip(right_fixed_spec(s, budget))) <= budget,
{
    lemma_fit_left_maximal(s, budget);
    lemma_fit_right_maximal(s, budget);
}

/// The exclusive end of the window that `reshape_spec` cuts out of `text`
/// where the text from `start` on does not fit.
pub open spec fn window_end(text: Seq<char>, width: nat, start: nat, must_show: nat) -> int {
    let tail = text.subrange(start as int, text.len() as int);
    let reach = start + left_fixed_spec(tail, budget_less(width, 2));
    1 + if must_show >= reach {
        must_show as int
    } else {
        reach
    }
}

/// A text that fits from `start` on is shown whole from `start`, without a
/// marker.
pub proof fn lemma_reshape_fitting(text: Seq<char>, width: nat, start: nat, must_show: nat)
    requires
        start <= text.len(),
        display_width_spec(text.subrange(start as int, text.len() as int)) <= width,
    ensures
        reshape_spec(text, width, start, must_show) == Some(
            (text.subrange(start as int, text.len() as int), start),
        ),
{
}

/// The shape of a cut window. It ends behind the required position and inside
/// the text, and a trailing marker follows it in any case. Either it begins
/// at `start`, which is then the anchor, or a leading marker stands before it
/// and the anchor lies two places before its first glyph. Either way a glyph
/// of the text stands in the result at its offset less the anchor.
pub proof fn lemma_reshape_cut(text: Seq<char>, width: nat, start: nat, must_show: nat)
    requires
        start <= text.len(),
        display_width_spec(text.subrange(start as int, text.len() as int)) > width,
        reshape_spec(text, width, start, must_show).is_some(),
    ensures
        ({
            let shown = reshape_spec(text, width, start, must_show).unwrap();
            let right = window_end(text, width, start, must_show);
            &&& start < right <= text.len()
            &&& must_show < right
            &&& right == shown.1 + shown.0.len() - 2
            &&& shown.0.skip(shown.0.len() - 2) == marker()
            &&& {
                ||| shown.1 == start && shown.0 == text.subrange(start as int, right) + marker()
                ||| start <= shown.1 + 2 <= right && shown.0 == marker() + text.subrange(
                    shown.1 as int + 2,
                    right,
                ) + marker()
            }
        }),
{
    let tail = text.subrange(start as int, text.len() as int);
    let inner = budget_less(width, 2);
    let right = window_end(text, width, start, must_show);
    let window = text.subrange(start as int, right);
    let shown = reshape_spec(text, width, start, must_show).unwrap();
    lemma_fit_left_bound(tail, inner);
    lemma_fit_right_bound(window, inner);
    lemma_fit_right_bound(window, budget_less(width, 4));
    assert(tail.len() > 0) by {
        if tail.len() == 0 {
            assert(display_width_spec(tail) == 0);
        }
    }
    assert(shown.0.skip(shown.0.len() - 2) =~= marker());
}

/// A cut window fits the columns it was cut for, markers included, where
/// these are at least five: enough for both markers and one more column.
pub proof fn lemma_reshape_fits(text: Seq<char>, width: nat, start: nat, must_show: nat)
    requires
        width >= 5,
        reshape_spec(text, width, start, must_show).is_some(),
    ensures
        display_width_spec(reshape_spec(text, width, start, must_show).unwrap().0) <= width,
{
    let tail = text.subrange(start as int, text.len() as int);
    if display_width_spec(tail) > width {
        let inner = budget_less(width, 2);
        let right = window_end(text, width, start, must_show);
        let window = text.subrange(start as int, right);
        lemma_fit_left_bound(tail, inner);
        lemma_fit_right_maximal(window, inner);
        lemma_fit_right_maximal(window, budget_less(width, 4));
        assert(display_width_spec(marker()) == 2) by {
            assert(marker().drop_first() =~= seq!['.']);
            assert(marker().drop_first().drop_first() =~= Seq::<char>::empty());
            assert(display_width_spec(marker().drop_first().drop_first()) == 0);
            assert(display_width_spec(marker().drop_first()) == 1);
        }
        if right_fixed_spec(window, inner) > 0 {
            let left = start + right_fixed_spec(window, budget_less(width, 4));
            assert(window.skip(left - start) == text.subrange(left, right));
            lemma_width_concat(marker(), text.subrange(left, right));
            lemma_width_concat(marker() + text.subrange(left, right), marker());
        } else {
            assert(window.skip(0) == window);
            lemma_width_concat(window, marker());
        }
    }
}

/// Columns of one glyph.
pub fn glyph_width(c: char) -> (w: usize)
    ensures
        w == char_width(c),
        1 <= w <= 2,
{
    if (c as u32) < 0x80 {
        1
    } else {
        2
    }
}

/// The display width of `text`.
pub fn display_width(text: &[char]) -> (w: usize)
    requires
        display_width_spec(text@) <= usize::MAX,
    ensures
        w == display_width_spec(text@),
        text@.len() <= w <= 2 * text@.len(),
{
    proof {
        lemma_width_bounds(text@);
    }
    let n: usize = text.len();
    let mut w: usize = 0;
    let mut i: usize = 0;
    assert(text@.subrange(0, n as int) == text@);
    while i < n
        invariant
            n == text@.len(),
            i <= n,
            display_width_spec(text@) == w + display_width_spec(text@.subrange(i as int, n as int)),
            display_width_spec(text@) <= usize::MAX,
        decreases n - i,
    {
        assert(text@.subrange(i as int, n as int).drop_first() == text@.subrange(
            i as int + 1,
            n as int,
        ));
        w = w + glyph_width(text[i]);
        i = i + 1;
    }
    w
}

/// Whether `text` from index `from` on fits into `budget` columns.
pub fn tail_fits(text: &[char], from: usize, budget: usize) -> (b: bool)
    requires
        from <= text@.len(),
    ensures
        b == (display_width_spec(text@.subrange(from as int, text@.len() as int)) <= budget),
{
    let n: usize = text.len();
    let mut rest: usize = budget;
    let mut i: usize = from;
    while i < n
        invariant
            n == text@.len(),
            from <= i <= n,
            rest <= budget,
            display_width_spec(text@.subrange(from as int, n as int)) == (budget - rest)
                + display_width_spec(text@.subrange(i as int, n as int)),
        decreases n - i,
    {
        assert(text@.subrange(i as int, n as int).drop_first() == text@.subrange(
            i as int + 1,
            n as int,
        ));
        let w: usize = glyph_width(text[i]);
        if w > rest {
            return false;
        }
        rest = rest - w;
        i = i + 1;
    }
    true
}

/// Fills `text` from the left and returns the index of the last glyph that
/// still fits into `max_x` columns: the index before the first glyph that
/// overflows, or the last index where everything fits. With no budget the
/// answer is 0. With a budget, the first glyph has to fit.
pub fn left_fixed(text: &[char], max_x: usize) -> (idx: usize)
    requires
        max_x > 0 ==> text@.len() > 0 && char_width(text@[0]) <= max_x,
    ensures
        idx == left_fixed_spec(text@, max_x as nat),
{
    if max_x == 0 {
        return 0;
    }
    let n: usize = text.len();
    let mut rest: usize = max_x;
    let mut i: usize = 0;
    assert(text@.subrange(0, n as int) == text@);
    while i < n
        invariant
            n == text@.len(),
            i <= n,
            rest <= max_x,
            n > 0,
            char_width(text@[0]) <= max_x,
            i == 0 ==> rest == max_x,
            fit_left(text@, max_x as nat) == i + fit_left(
                text@.subrange(i as int, n as int),
                rest as nat,
            ),
        decreases n - i,
    {
        assert(text@.subrange(i as int, n as int).drop_first() == text@.subrange(
            i as int + 1,
            n as int,
        ));
        let w: usize = glyph_width(text[i]);
        if w > rest {
            return i - 1;
        }
        rest = rest - w;
        i = i + 1;
    }
    n - 1
}

/// Fills `text` from the right and returns the index of the first glyph from
/// which the rest still fits into `max_x` columns: 0 where everything fits.
/// With no budget the answer is the last index.
pub fn right_fixed(text: &[char], max_x: usize) -> (idx: usize)
    requires
        max_x == 0 ==> text@.len() > 0,
    ensures
        idx == right_fixed_spec(text@, max_x as nat),
{
    let n: usize = text.len();
    if max_x == 0 {
        return n - 1;
    }
    let mut rest: usize = max_x;
    let mut i: usize = n;
    assert(text@.subrange(0, n as int) == text@);
    while i > 0
        invariant
            n == text@.len(),
            i <= n,
            0 < max_x,
            rest <= max_x,
            fit_right(text@, max_x as nat) == (n - i) + fit_right(
                text@.subrange(0, i as int),
                rest as nat,
            ),
        decreases i,
    {
        assert(text@.subrange(0, i as int).drop_last() == text@.subrange(0, i as int - 1));
        assert(text@.subrange(0, i as int).last() == text@[i as int - 1]);
        let w: usize = glyph_width(text[i - 1]);
        if w > rest {
            return i;
        }
        rest = rest - w;
        i = i - 1;
    }
    0
}

/// Appends the glyphs of `text` from index `from` up to `to` to `out`.
pub fn push_range(out: &mut Vec<char>, text: &[char], from: usize, to: usize)
    requires
        from <= to <= text@.len(),
    ensures
        final(out)@ == old(out)@ + text@.subrange(from as int, to as int),
{
    let mut i: usize = from;
    assert(text@.subrange(from as int, from as int) == Seq::<char>::empty());
    while i < to
        invariant
            from <= i <= to <= text@.len(),
            out@ == old(out)@ + text@.subrange(from as int, i as int),
        decreases to - i,
    {
        out.push(text[i]);
        assert(text@.subrange(from as int, i as int + 1) == text@.subrange(
            from as int,
            i as int,
        ).push(text@[i as int]));
        i = i + 1;
    }
}

/// Appends the truncation marker to `out`.
pub fn push_marker(out: &mut Vec<char>)
    ensures
        final(out)@ == old(out)@ + marker(),
{
    out.push('.');
    out.push('.');
    assert(out@ == old(out)@ + marker());
}

/// The window of `text` that is drawn and the index of its first drawn glyph,
/// or `None` where no window is defined for these arguments.
///
/// Where the text from `text_start_pos` on fits into `container_width` columns
/// it is returned whole. Otherwise two columns are kept for a trailing marker,
/// the window ends just behind the later of `matched_end_pos` and the last
/// glyph that fits from the start, and it begins at the start if that fits or,
/// with two more columns kept for a leading marker, as far left as fits.
pub fn reshape_checked(
    text: &Vec<char>,
    container_width: usize,
    text_start_pos: usize,
    matched_end_pos: usize,
) -> (r: Option<(Vec<char>, usize)>)
    ensures
        match reshape_spec(
            text@,
            container_width as nat,
            text_start_pos as nat,
            matched_end_pos as nat,
        ) {
            Some(want) => r.is_some() && r.unwrap().0@ == want.0 && r.unwrap().1 == want.1,
            None => r.is_none(),
        },
{
    let n: usize = text.len();
    if text_start_pos > n {
        return None;
    }
    let mut ret: Vec<char> = Vec::new();
    if tail_fits(text.as_slice(), text_start_pos, container_width) {
        push_range(&mut ret, text.as_slice(), text_start_pos, n);
        return Some((ret, text_start_pos));
    }
    let inner: usize = if container_width >= 2 {
        container_width - 2
    } else {
        0
    };
    let tail = slice_subrange(text.as_slice(), text_start_pos, n);
    assert(tail@.len() > 0) by {
        if tail@.len() == 0 {
            assert(display_width_spec(tail@) == 0);
        }
    }
    if matched_end_pos >= n || (inner > 0 && glyph_width(tail[0]) > inner) {
        return None;
    }
    proof {
        lemma_fit_left_bound(tail@, inner as nat);
    }
    let reach: usize = text_start_pos + left_fixed(tail, inner);
    let right_pos: usize = 1 + if matched_end_pos >= reach {
        matched_end_pos
    } else {
        reach
    };
    let window = slice_subrange(text.as_slice(), text_start_pos, right_pos);
    proof {
        lemma_fit_right_bound(window@, inner as nat);
    }
    let first: usize = right_fixed(window, inner);
    if first > 0 {
        let narrow: usize = if container_width >= 4 {
            container_width - 4
        } else {
            0
        };
        proof {
            lemma_fit_right_bound(window@, narrow as nat);
        }
        let left_pos: usize = text_start_pos + right_fixed(window, narrow);
        if left_pos < 2 {
            return None;
        }
        push_marker(&mut ret);
        push_range(&mut ret, text.as_slice(), left_pos, right_pos);
        push_marker(&mut ret);
        Some((ret, left_pos - 2))
    } else {
        push_range(&mut ret, text.as_slice(), text_start_pos, right_pos);
        push_marker(&mut ret);
        Some((ret, text_start_pos))
    }
}

/// The window of `text` that is drawn and the index of its first drawn glyph,
/// where that window is defined.
pub fn reshape_string(
    text: &Vec<char>,
    container_width: usize,
    text_start_pos: usize,
    matched_end_pos: usize,
) -> (r: (Vec<char>, usize))
    requires
        reshape_spec(
            text@,
            container_width as nat,
            text_start_pos as nat,
            matched_end_pos as nat,
        ).is_some(),
    ensures
        r.0@ == reshape_spec(
            text@,
            container_width as nat,
            text_start_pos as nat,
            matched_end_pos as nat,
        ).unwrap().0,
        r.1 == reshape_spec(
            text@,
            container_width as nat,
            text_start_pos as nat,
            matched_end_pos as nat,
        ).unwrap().1,
{
    match reshape_checked(text, container_width, text_start_pos, matched_end_pos) {
        Some(r) => r,
        None => (Vec::new(), 0),
    }
}

} // verus!
