//! A frame as plain drawing commands: which ranked matches stand on which
//! screen rows, and each row glyph by glyph with its style.

use crate::layout::{reshape_checked, reshape_spec};
use crate::model::{MatchedItem, MatchedRange, Model, QueryBuffer};
use vstd::prelude::*;

verus! {

broadcast use vstd::std_specs::hash::group_hash_axioms;

/// The style of a drawn glyph.
#[derive(Clone, Copy, Debug, PartialEq, Eq, Structural)]
pub enum Color {
    Normal,
    Matched,
    Current,
    Cursor,
    Selected,
}

/// One glyph to draw.
#[derive(Clone, Copy, Debug, PartialEq, Eq, Structural)]
pub struct Glyph {
    pub ch: char,
    pub color: Color,
    pub bold: bool,
}

/// One row of the list: the screen row and its glyphs from column 0 on.
pub struct Row {
    pub y: usize,
    pub cells: Vec<Glyph>,
}

/// Whether glyph offset `p` of a line lies in its highlight span.
pub open spec fn highlighted(range: Option<MatchedRange>, p: int) -> bool {
    match range {
        Some(MatchedRange::Chars(v)) => exists|j: int| 0 <= j < v@.len() && v@[j] == p,
        Some(MatchedRange::Range(a, b)) => a <= p < b,
        None => false,
    }
}

/// The last offset of the highlight span, 0 where there is none.
pub open spec fn must_show(range: Option<MatchedRange>) -> nat {
    match range {
        Some(MatchedRange::Chars(v)) => if v@.len() > 0 {
            v@.last() as nat
        } else {
            0
        },
        Some(MatchedRange::Range(a, b)) => if b > a {
            (b - 1) as nat
        } else {
            0
        },
        None => 0,
    }
}

/// Single offsets of a highlight span ascend strictly.
pub open spec fn ascending(range: Option<MatchedRange>) -> bool {
    match range {
        Some(MatchedRange::Chars(v)) => forall|i: int, j: int|
            0 <= i < j < v@.len() ==> v@[i] < v@[j],
        _ => true,
    }
}

/// The place in the single offsets `v` from `j` on of the first offset that
/// is not below `anchor`: offsets before the window's first glyph are passed
/// over.
pub open spec fn skipped(v: Seq<usize>, j: int, anchor: int) -> int
    decreases v.len() - j,
{
    if 0 <= j < v.len() && v[j] < anchor {
        skipped(v, j + 1, anchor)
    } else {
        j
    }
}

/// The place in the single offsets `v` that the walk along a window has
/// reached before its glyph at place `k`: the walk starts behind the offsets
/// below `anchor` and goes one offset on at each glyph whose own offset it
/// meets there.
pub open spec fn walked(v: Seq<usize>, anchor: int, k: nat) -> int
    decreases k,
{
    if k == 0 {
        skipped(v, 0, anchor)
    } else {
        let j = walked(v, anchor, (k - 1) as nat);
        if 0 <= j < v.len() && v[j] == anchor + k - 1 {
            j + 1
        } else {
            j
        }
    }
}

/// Whether the glyph at place `k` of a window whose first glyph counts as
/// offset `anchor` is drawn as matched. Single offsets are walked along with
/// the glyphs; a range is asked directly.
pub open spec fn lit(range: Option<MatchedRange>, anchor: int, k: int) -> bool {
    match range {
        Some(MatchedRange::Chars(v)) => {
            let j = walked(v@, anchor, k as nat);
            0 <= j < v@.len() && v@[j] == anchor + k
        },
        Some(MatchedRange::Range(a, b)) => a <= anchor + k < b,
        None => false,
    }
}

/// The offsets before place `j` being below `anchor`, so are those before the
/// place that `skipped` gives, and the offset at that place is not.
pub proof fn lemma_skipped(v: Seq<usize>, j: int, anchor: int)
    requires
        0 <= j <= v.len(),
        forall|m: int| 0 <= m < j ==> v[m] < anchor,
    ensures
        j <= skipped(v, j, anchor) <= v.len(),
        forall|m: int| 0 <= m < skipped(v, j, anchor) ==> v[m] < anchor,
        skipped(v, j, anchor) < v.len() ==> v[skipped(v, j, anchor)] >= anchor,
    decreases v.len() - j,
{
    if j < v.len() && v[j] < anchor {
        lemma_skipped(v, j + 1, anchor);
    }
}

/// Along strictly ascending offsets the walk stands, before the glyph at
/// place `k`, behind every offset below that glyph's and before every other.
pub proof fn lemma_walked(v: Seq<usize>, anchor: int, k: nat)
    requires
        forall|i: int, j: int| 0 <= i < j < v.len() ==> v[i] < v[j],
    ensures
        0 <= walked(v, anchor, k) <= v.len(),
        forall|m: int| 0 <= m < walked(v, anchor, k) ==> v[m] < anchor + k,
        forall|m: int| walked(v, anchor, k) <= m < v.len() ==> v[m] >= anchor + k,
    decreases k,
{
    if k == 0 {
        lemma_skipped(v, 0, anchor);
        let j = skipped(v, 0, anchor);
        assert forall|m: int| j <= m < v.len() implies v[m] >= anchor by {
            if m > j {
                assert(v[j] < v[m]);
            }
        }
    } else {
        lemma_walked(v, anchor, (k - 1) as nat);
        let j0 = walked(v, anchor, (k - 1) as nat);
        let j = walked(v, anchor, k);
        assert forall|m: int| j <= m < v.len() implies v[m] >= anchor + k by {
            if j0 < v.len() && m > j0 {
                assert(v[j0] < v[m]);
            }
        }
    }
}

/// Where the single offsets of a span ascend strictly, a glyph is drawn as
/// matched exactly where its offset lies in the span.
pub proof fn lemma_lit_is_highlighted(range: Option<MatchedRange>, anchor: nat, k: nat)
    requires
        ascending(range),
    ensures
        lit(range, anchor as int, k as int) == highlighted(range, (anchor + k) as int),
{
    match range {
        Some(MatchedRange::Chars(v)) => {
            lemma_walked(v@, anchor as int, k);
            let j = walked(v@, anchor as int, k);
            if highlighted(range, (anchor + k) as int) {
                let m = choose|m: int| 0 <= m < v@.len() && v@[m] == anchor + k;
                assert(m >= j);
                if m > j {
                    assert(v@[j] < v@[m]);
                }
            }
        },
        _ => {},
    }
}

/// The style of a glyph that is not highlighted.
pub open spec fn plain(current: bool) -> Color {
    if current {
        Color::Current
    } else {
        Color::Normal
    }
}

/// The drawn glyph at place `k` of a window `slice` whose first glyph counts
/// as offset `anchor`: drawn as matched where the walk along the highlight
/// span meets its offset.
pub open spec fn text_cell(
    slice: Seq<char>,
    anchor: nat,
    range: Option<MatchedRange>,
    current: bool,
    k: int,
) -> Glyph {
    Glyph {
        ch: slice[k],
        color: if lit(range, anchor as int, k) {
            Color::Matched
        } else {
            plain(current)
        },
        bold: current,
    }
}

/// The drawn glyphs of a window `slice` whose first glyph counts as offset
/// `anchor`.
pub open spec fn text_cells(
    slice: Seq<char>,
    anchor: nat,
    range: Option<MatchedRange>,
    current: bool,
) -> Seq<Glyph> {
    Seq::new(slice.len(), |k: int| text_cell(slice, anchor, range, current, k))
}

/// The cursor column of a row.
pub open spec fn cursor_cell(current: bool) -> Glyph {
    Glyph {
        ch: if current {
            '>'
        } else {
            ' '
        },
        color: Color::Cursor,
        bold: true,
    }
}

/// The selection column of a row.
pub open spec fn select_cell(selected: bool, current: bool) -> Glyph {
    if selected {
        Glyph { ch: '>', color: Color::Selected, bold: true }
    } else {
        Glyph { ch: ' ', color: plain(current), bold: false }
    }
}

/// The columns left for the text of a line on a screen `max_x` columns wide.
pub open spec fn container(max_x: i32) -> nat {
    if max_x >= 3 {
        (max_x - 3) as nat
    } else {
        0
    }
}

/// The number of spaces that stand for a tab drawn at screen column `x`: up
/// to the next multiple of `tabstop`, counted from the first text column.
pub open spec fn tab_fill(x: int, tabstop: int) -> int {
    if x >= 2 {
        tabstop - (x - 2) % tabstop
    } else {
        tabstop + (2 - x) % tabstop
    }
}

/// The columns left for the text of a line.
pub fn container_width(max_x: i32) -> (w: usize)
    ensures
        w == container(max_x),
{
    if max_x >= 3 {
        (max_x - 3) as usize
    } else {
        0
    }
}

/// The last offset of the highlight span, 0 where there is none.
pub fn matched_end(range: &Option<MatchedRange>) -> (p: usize)
    ensures
        p == must_show(*range),
{
    match range {
        Some(MatchedRange::Chars(v)) => if v.len() > 0 {
            v[v.len() - 1]
        } else {
            0
        },
        Some(MatchedRange::Range(a, b)) => if *b > *a {
            *b - 1
        } else {
            0
        },
        None => 0,
    }
}

impl<Q: QueryBuffer> Model<Q> {
    /// Whether the rows of the list can be drawn: the cursor pair and the tab
    /// stop are in order, and every ranked match names a line of the table.
    pub fn can_draw(&self) -> (b: bool)
        ensures
            b == (self.wf() && self.matches_resolve()),
    {
        if self.line_cursor > self.item_cursor || self.tabstop == 0 || self.tabstop > 0x7fff_ffff {
            return false;
        }
        let n: usize = self.matched_items.len();
        let mut i: usize = 0;
        while i < n
            invariant
                n == self.matched_items@.len(),
                i <= n,
                forall|k: int|
                    0 <= k < i ==> (#[trigger] self.matched_items@[k]).index < self.items@.len(),
            decreases n - i,
        {
            if self.matched_items[i].index >= self.items.len() {
                return false;
            }
            i = i + 1;
        }
        true
    }

    /// Every ranked match names a line of the table.
    pub open spec fn matches_resolve(&self) -> bool {
        forall|i: int|
            0 <= i < self.matched_items@.len() ==> (#[trigger] self.matched_items@[i]).index
                < self.items@.len()
    }

    /// The rank position on the bottom row of the list.
    pub open spec fn window_start(&self) -> int {
        self.item_cursor - self.line_cursor
    }

    /// The number of rows of the list that hold a match.
    pub open spec fn visible_count(&self) -> int {
        let rest = self.matched_items@.len() - self.window_start();
        if rest <= 0 {
            0
        } else if rest < self.height {
            rest
        } else {
            self.height as int
        }
    }

    /// The glyphs of the row of `matched` behind the cursor column: the
    /// selection column, then the window of the line's text. Nothing follows
    /// the selection column where no window is defined.
    pub open spec fn item_cells(&self, matched: MatchedItem, current: bool) -> Seq<Glyph> {
        seq![select_cell(self.selection().contains(matched.index), current)] + match reshape_spec(
            self.items@[matched.index as int].text@,
            container(self.max_x),
            self.hscroll_offset as nat,
            must_show(matched.matched_range),
        ) {
            Some(shown) => text_cells(shown.0, shown.1, matched.matched_range, current),
            None => Seq::empty(),
        }
    }

    /// The rows of the list, bottom row first: one for each ranked match from
    /// the window's start on, as far as the visible rows and the matches go.
    pub fn print_items(&self) -> (rows: Vec<Row>)
        requires
            self.wf(),
            self.matches_resolve(),
        ensures
            rows@.len() == self.visible_count(),
            forall|i: int|
                0 <= i < rows@.len() ==> {
                    &&& (#[trigger] rows@[i]).y == self.height - i - 1
                    &&& rows@[i].cells@ == seq![cursor_cell(i == self.line_cursor)]
                        + self.item_cells(
                        self.matched_items@[self.window_start() + i],
                        i == self.line_cursor,
                    )
                },
    {
        let mut rows: Vec<Row> = Vec::new();
        let n: usize = self.matched_items.len();
        let item_start_pos: usize = self.item_cursor - self.line_cursor;
        if item_start_pos >= n {
            return rows;
        }
        let mut i: usize = 0;
        while i < self.height && i < n - item_start_pos
            invariant
                self.matches_resolve(),
                n == self.matched_items@.len(),
                item_start_pos == self.window_start(),
                item_start_pos < n,
                i <= self.height,
                i <= n - item_start_pos,
                rows@.len() == i,
                forall|k: int|
                    0 <= k < rows@.len() ==> {
                        &&& (#[trigger] rows@[k]).y == self.height - k - 1
                        &&& rows@[k].cells@ == seq![cursor_cell(k == self.line_cursor)]
                            + self.item_cells(
                            self.matched_items@[self.window_start() + k],
                            k == self.line_cursor,
                        )
                    },
            decreases self.height - i,
        {
            let is_current_line: bool = i == self.line_cursor;
            let mut cells: Vec<Glyph> = Vec::new();
            cells.push(
                Glyph {
                    ch: if is_current_line {
                        '>'
                    } else {
                        ' '
                    },
                    color: Color::Cursor,
                    bold: true,
                },
            );
            self.print_item(&mut cells, &self.matched_items[item_start_pos + i], is_current_line);
            rows.push(Row { y: self.height - i - 1, cells: cells });
            i = i + 1;
        }
        rows
    }

    /// Appends to `out` the glyphs of the row of `matched` behind the cursor
    /// column.
    pub fn print_item(&self, out: &mut Vec<Glyph>, matched: &MatchedItem, is_current: bool)
        requires
            matched.index < self.items@.len(),
        ensures
            final(out)@ == old(out)@ + self.item_cells(*matched, is_current),
    {
        let is_selected: bool = self.selected_indics.contains(&matched.index);
        let base: Color = if is_current {
            Color::Current
        } else {
            Color::Normal
        };
        if is_selected {
            out.push(Glyph { ch: '>', color: Color::Selected, bold: true });
        } else {
            out.push(Glyph { ch: ' ', color: base, bold: false });
        }
        let ghost head = out@;
        assert(head == old(out)@ + seq![
            select_cell(self.selection().contains(matched.index), is_current),
        ]);
        let shown = reshape_checked(
            &self.items[matched.index].text,
            container_width(self.max_x),
            self.hscroll_offset,
            matched_end(&matched.matched_range),
        );
        match shown {
            None => {
                assert(out@ == old(out)@ + self.item_cells(*matched, is_current));
            },
            Some((text, anchor)) => {
                let ghost want = text_cells(text@, anchor as nat, matched.matched_range, is_current);
                assert(self.item_cells(*matched, is_current) == seq![
                    select_cell(self.selection().contains(matched.index), is_current),
                ] + want);
                let mut j: usize = 0;
                match &matched.matched_range {
                    Some(MatchedRange::Chars(v)) => {
                        while j < v.len() && anchor > v[j]
                            invariant
                                j <= v@.len(),
                                skipped(v@, 0, anchor as int) == skipped(
                                    v@,
                                    j as int,
                                    anchor as int,
                                ),
                            decreases v@.len() - j,
                        {
                            j = j + 1;
                        }
                    },
                    _ => {},
                }
                let mut k: usize = 0;
                while k < text.len()
                    invariant
                        k <= text@.len(),
                        want == text_cells(
                            text@,
                            anchor as nat,
                            matched.matched_range,
                            is_current,
                        ),
                        base == plain(is_current),
                        want.len() == text@.len(),
                        out@ == head + want.subrange(0, k as int),
                        matched.matched_range matches Some(MatchedRange::Chars(v)) ==> j
                            <= v@.len() && j == walked(v@, anchor as int, k as nat),
                    decreases text@.len() - k,
                {
                    let p: u128 = anchor as u128 + k as u128;
                    let lit: bool = match &matched.matched_range {
                        Some(MatchedRange::Chars(v)) => {
                            if j < v.len() && v[j] as u128 == p {
                                j = j + 1;
                                true
                            } else {
                                false
                            }
                        },
                        Some(MatchedRange::Range(a, b)) => *a as u128 <= p && p < *b as u128,
                        None => false,
                    };
                    out.push(
                        Glyph {
                            ch: text[k],
                            color: if lit {
                                Color::Matched
                            } else {
                                base
                            },
                            bold: is_current,
                        },
                    );
                    assert(want[k as int] == out@.last());
                    assert(want.subrange(0, k as int + 1) == want.subrange(0, k as int).push(
                        want[k as int],
                    ));
                    k = k + 1;
                }
                assert(want.subrange(0, k as int) == want);
            },
        }
    }

    /// What is drawn for one glyph at screen column `x`: the glyph itself, or
    /// for a tab the spaces up to the next tab stop.
    pub fn print_char(&self, ch: char, color: Color, is_bold: bool, x: usize) -> (cells: Vec<Glyph>)
        requires
            0 < self.tabstop <= i32::MAX,
        ensures
            ch != '\t' ==> cells@ == seq![Glyph { ch: ch, color: color, bold: is_bold }],
            ch == '\t' ==> cells@ == Seq::new(
                tab_fill(x as int, self.tabstop as int) as nat,
                |i: int| Glyph { ch: ' ', color: color, bold: is_bold },
            ),
    {
        let mut cells: Vec<Glyph> = Vec::new();
        if ch != '\t' {
            cells.push(Glyph { ch: ch, color: color, bold: is_bold });
        } else {
            let rest: usize = if x >= 2 {
                self.tabstop - (x - 2) % self.tabstop
            } else {
                self.tabstop + (2 - x) % self.tabstop
            };
            let mut i: usize = 0;
            while i < rest
                invariant
                    i <= rest,
                    cells@ == Seq::new(
                        i as nat,
                        |i: int| Glyph { ch: ' ', color: color, bold: is_bold },
                    ),
                decreases rest - i,
            {
                cells.push(Glyph { ch: ' ', color: color, bold: is_bold });
                i = i + 1;
            }
        }
        cells
    }
}

} // verus!
