//! The state of the finder: the table of candidate lines, the ranked matches,
//! the cursor pair that addresses them, the multi-select set and the screen
//! geometry, with the actions that change them.

use std::collections::HashSet;
use vstd::prelude::*;
use vstd::std_specs::hash::*;

verus! {

broadcast use vstd::std_specs::hash::group_hash_axioms;

/// A candidate line. Its identity is its position in the table of all lines.
pub struct Item {
    pub text: Vec<char>,
}

/// The part of a line that matched the query.
pub enum MatchedRange {
    /// Single glyph offsets, ascending.
    Chars(Vec<usize>),
    /// The offsets from the first number up to, not including, the second.
    Range(usize, usize),
}

/// A ranked match: the identity of a line and what to highlight in it.
pub struct MatchedItem {
    pub index: usize,
    pub matched_range: Option<MatchedRange>,
}

/// The edit buffer of the query line. The model forwards edit commands to it
/// and asks it for the text and the cursor offset; how it edits is its own.
pub trait QueryBuffer {
    fn add_char(&mut self, ch: char) -> bool;

    fn backward_delete_char(&mut self) -> bool;

    fn backward_kill_word(&mut self) -> bool;

    fn delete_char(&mut self) -> bool;

    fn kill_line(&mut self) -> bool;

    fn kill_word(&mut self) -> bool;

    fn line_discard(&mut self) -> bool;

    fn backward_char(&mut self);

    fn backward_word(&mut self);

    fn beginning_of_line(&mut self);

    fn end_of_line(&mut self);

    fn forward_char(&mut self);

    fn forward_word(&mut self);

    fn get_query(&self) -> String;

    fn pos(&self) -> usize;
}

/// What the status row shows.
#[derive(Clone, Copy, Debug, PartialEq, Eq)]
pub struct StatusLine {
    pub row: i64,
    pub matched: u64,
    pub total: u64,
    /// The share of lines processed, shown only while it is not 100.
    pub percentage: Option<u64>,
}

/// What the query row shows, and where the terminal's cursor stands in it.
pub struct QueryLine {
    pub row: i64,
    pub prompt_width: usize,
    pub query: String,
    pub cursor_column: u128,
}

/// The state of the finder over a query buffer `Q`.
pub struct Model<Q: QueryBuffer> {
    pub query: Q,
    pub num_matched: u64,
    pub num_total: u64,
    pub items: Vec<Item>,
    pub selected_indics: HashSet<usize>,
    pub matched_items: Vec<MatchedItem>,
    pub processed_percentage: u64,
    /// Rank position of the match under the cursor.
    pub item_cursor: usize,
    /// Screen row of the cursor, counted from the bottom row of the list.
    pub line_cursor: usize,
    pub hscroll_offset: usize,
    pub max_y: i32,
    pub max_x: i32,
    pub width: usize,
    pub height: usize,
    pub tabstop: usize,
}

/// `size` less the two reserved rows or columns, never below zero.
pub open spec fn usable(size: i32) -> nat {
    if size >= 2 {
        (size - 2) as nat
    } else {
        0
    }
}

/// The screen row of the cursor after a move by `delta` over `total` matches
/// on `rows` visible rows. Without matches the row is 0.
pub open spec fn moved_row(row: int, delta: int, rows: int, total: int) -> int {
    if total <= 0 {
        0
    } else if delta > 0 {
        let a = if row + delta < rows - 1 {
            row + delta
        } else {
            rows - 1
        };
        let b = if a < total - 1 {
            a
        } else {
            total - 1
        };
        if b < 0 {
            0
        } else {
            b
        }
    } else if row + delta < 0 {
        0
    } else {
        row + delta
    }
}

/// The rank position of the cursor after a move by `delta` over `total`
/// matches. Without matches the position is 0.
pub open spec fn moved_rank(rank: int, delta: int, total: int) -> int {
    if total <= 0 {
        0
    } else if delta > 0 {
        let b = if rank + delta < total - 1 {
            rank + delta
        } else {
            total - 1
        };
        if b < 0 {
            0
        } else {
            b
        }
    } else if rank + delta < 0 {
        0
    } else {
        rank + delta
    }
}

/// The rank positions below `total`.
pub open spec fn positions(total: nat) -> Set<usize> {
    Set::new(|i: usize| i < total)
}

/// The rank positions below `total` that are not in `selected`.
pub open spec fn toggled(selected: Set<usize>, total: nat) -> Set<usize> {
    Set::new(|i: usize| i < total && !selected.contains(i))
}

/// The selection after a toggle of identity `id`: forced to `to` where it is
/// given, flipped where it is not.
pub open spec fn toggled_one(selected: Set<usize>, id: usize, to: Option<bool>) -> Set<usize> {
    match to {
        Some(true) => selected.insert(id),
        Some(false) => selected.remove(id),
        None => if selected.contains(id) {
            selected.remove(id)
        } else {
            selected.insert(id)
        },
    }
}

/// The texts of the lines among the first `upto` of `items` whose identity is
/// in `selected`, by ascending identity.
pub open spec fn selected_texts(items: Seq<Item>, selected: Set<usize>, upto: nat) -> Seq<
    Seq<char>,
>
    recommends
        upto <= items.len(),
    decreases upto,
{
    if upto == 0 {
        Seq::empty()
    } else {
        let before = selected_texts(items, selected, (upto - 1) as nat);
        if selected.contains((upto - 1) as usize) {
            before.push(items[upto - 1].text@)
        } else {
            before
        }
    }
}

/// The percentage shown while lines are still being processed.
pub open spec fn percentage_of(processed: u64, total: u64) -> int {
    (processed + 1) * 100 / (total + 1)
}

/// A notice, where there is one, carries the text that the buffer `query`
/// gives as its own.
pub open spec fn raised<Q: QueryBuffer>(query: Q, notice: Option<String>) -> bool {
    notice matches Some(text) ==> call_ensures(Q::get_query, (&query,), text)
}

/// A move down the ranking by at least the cursor's rank position brings
/// both cursors to 0.
pub proof fn lemma_move_far_back(row: int, rank: int, delta: int, rows: int, total: int)
    requires
        0 <= row <= rank,
        delta <= 0,
        rank + delta <= 0,
    ensures
        moved_row(row, delta, rows, total) == 0,
        moved_rank(rank, delta, total) == 0,
{
}

/// Without matches every move brings both cursors to 0, wherever they stood.
pub proof fn lemma_move_without_matches(row: int, rank: int, delta: int, rows: int)
    ensures
        moved_row(row, delta, rows, 0) == 0,
        moved_rank(rank, delta, 0) == 0,
{
}

/// A move keeps the cursor's row at or below its rank position and inside
/// the visible rows, and both cursors inside the ranking where it has
/// matches.
pub proof fn lemma_move_keeps_window(row: int, rank: int, delta: int, rows: int, total: int)
    requires
        0 <= row <= rank,
    ensures
        0 <= moved_row(row, delta, rows, total) <= moved_rank(rank, delta, total),
        row < rows ==> moved_row(row, delta, rows, total) < rows,
        delta > 0 && total > 0 ==> moved_rank(rank, delta, total) < total,
        rank < total ==> moved_rank(rank, delta, total) < total,
{
}

/// Once the row has reached the top visible row, a move up the ranking
/// leaves it there while the rank position goes on: the window scrolls.
pub proof fn lemma_move_scrolls(row: int, rank: int, delta: int, rows: int, total: int)
    requires
        0 <= row <= rank,
        rows >= 1,
        row == rows - 1,
        delta > 0,
        rank + delta < total,
    ensures
        moved_row(row, delta, rows, total) == row,
        moved_rank(rank, delta, total) == rank + delta,
{
}

/// Toggling all twice gives back a selection that held rank positions of the
/// ranking only.
pub proof fn lemma_toggle_all_twice(selected: Set<usize>, total: nat)
    requires
        selected.subset_of(positions(total)),
    ensures
        toggled(toggled(selected, total), total) == selected,
{
    assert(toggled(toggled(selected, total), total) =~= selected);
}

/// Toggling all selects exactly the rank positions that selecting all would
/// add and that were not selected before.
pub proof fn lemma_toggle_all_complements(selected: Set<usize>, total: nat)
    ensures
        toggled(selected, total) == positions(total).difference(selected),
        toggled(selected, total).union(selected) == selected.union(positions(total)),
{
    assert(toggled(selected, total) =~= positions(total).difference(selected));
    assert(toggled(selected, total).union(selected) =~= selected.union(positions(total)));
}

/// Toggling one identity twice without a forced state gives the selection
/// back.
pub proof fn lemma_toggle_one_twice(selected: Set<usize>, id: usize)
    ensures
        toggled_one(toggled_one(selected, id, None), id, None) == selected,
{
    assert(toggled_one(toggled_one(selected, id, None), id, None) =~= selected);
}

impl<Q: QueryBuffer> Model<Q> {
    /// The current selection: a set of line identities.
    pub open spec fn selection(&self) -> Set<usize> {
        self.selected_indics@
    }

    /// The cursor's row is not above its rank, and the tab stop is a positive
    /// column count.
    pub open spec fn wf(&self) -> bool {
        &&& self.line_cursor <= self.item_cursor
        &&& 0 < self.tabstop <= i32::MAX
    }

    /// Everything but the query buffer is as in `other`.
    pub open spec fn same_but_query(&self, other: &Self) -> bool {
        &&& self.num_matched == other.num_matched
        &&& self.num_total == other.num_total
        &&& self.items == other.items
        &&& self.selected_indics == other.selected_indics
        &&& self.matched_items == other.matched_items
        &&& self.processed_percentage == other.processed_percentage
        &&& self.item_cursor == other.item_cursor
        &&& self.line_cursor == other.line_cursor
        &&& self.hscroll_offset == other.hscroll_offset
        &&& self.max_y == other.max_y
        &&& self.max_x == other.max_x
        &&& self.width == other.width
        &&& self.height == other.height
        &&& self.tabstop == other.tabstop
    }

    /// A model for a screen of `max_y` rows and `max_x` columns: no lines, no
    /// matches, nothing selected, the cursor on the first match.
    pub fn new(query: Q, max_y: i32, max_x: i32) -> (m: Self)
        ensures
            m.wf(),
            m.query == query,
            m.num_matched == 0,
            m.num_total == 0,
            m.items@.len() == 0,
            m.selection() == Set::<usize>::empty(),
            m.matched_items@.len() == 0,
            m.processed_percentage == 100,
            m.item_cursor == 0,
            m.line_cursor == 0,
            m.hscroll_offset == 0,
            m.max_y == max_y,
            m.max_x == max_x,
            m.width == usable(max_x),
            m.height == usable(max_y),
            m.tabstop == 8,
    {
        Model {
            query: query,
            num_matched: 0,
            num_total: 0,
            items: Vec::new(),
            selected_indics: HashSet::new(),
            matched_items: Vec::new(),
            processed_percentage: 100,
            item_cursor: 0,
            line_cursor: 0,
            hscroll_offset: 0,
            max_y: max_y,
            max_x: max_x,
            width: usable_size(max_x),
            height: usable_size(max_y),
            tabstop: 8,
        }
    }

    /// The texts of the selected lines, by ascending identity. A selected
    /// identity that names no line of the table gives no text.
    pub fn output(&self) -> (lines: Vec<Vec<char>>)
        ensures
            lines@.len() == selected_texts(self.items@, self.selection(), self.items@.len()).len(),
            forall|k: int|
                0 <= k < lines@.len() ==> lines@[k]@ == selected_texts(
                    self.items@,
                    self.selection(),
                    self.items@.len(),
                )[k],
    {
        let mut lines: Vec<Vec<char>> = Vec::new();
        let n: usize = self.items.len();
        let mut i: usize = 0;
        while i < n
            invariant
                n == self.items@.len(),
                i <= n,
                lines@.len() == selected_texts(self.items@, self.selection(), i as nat).len(),
                forall|k: int|
                    0 <= k < lines@.len() ==> lines@[k]@ == selected_texts(
                        self.items@,
                        self.selection(),
                        i as nat,
                    )[k],
            decreases n - i,
        {
            if self.selected_indics.contains(&i) {
                let mut line: Vec<char> = Vec::new();
                crate::layout::push_range(
                    &mut line,
                    self.items[i].text.as_slice(),
                    0,
                    self.items[i].text.len(),
                );
                assert(line@ == self.items@[i as int].text@) by {
                    assert(self.items@[i as int].text@.subrange(
                        0,
                        self.items@[i as int].text@.len() as int,
                    ) == self.items@[i as int].text@);
                }
                lines.push(line);
            }
            i = i + 1;
        }
        lines
    }

    /// Takes over a snapshot of the matcher's progress.
    pub fn update_process_info(&mut self, matched: u64, total: u64, processed: u64)
        requires
            (processed + 1) * 100 <= u64::MAX,
            total < u64::MAX,
        ensures
            *final(self) == (Model {
                num_matched: matched,
                num_total: total,
                processed_percentage: percentage_of(processed, total) as u64,
                ..*old(self)
            }),
            final(self).processed_percentage == percentage_of(processed, total),
    {
        self.num_matched = matched;
        self.num_total = total;
        self.processed_percentage = (processed + 1) * 100 / (total + 1);
    }

    /// Appends a match behind the ranked ones. The selection stays.
    pub fn push_item(&mut self, item: MatchedItem)
        ensures
            *final(self) == (Model {
                matched_items: final(self).matched_items,
                ..*old(self)
            }),
            final(self).matched_items@ == old(self).matched_items@.push(item),
    {
        self.matched_items.push(item);
    }

    /// Drops all ranked matches. The selection and the cursor stay.
    pub fn clear_items(&mut self)
        ensures
            *final(self) == (Model {
                matched_items: final(self).matched_items,
                ..*old(self)
            }),
            final(self).matched_items@.len() == 0,
    {
        self.matched_items.clear();
    }

    /// The status row: the counts, and the percentage while it is not 100.
    pub fn print_info(&self) -> (line: StatusLine)
        ensures
            line.row == self.max_y - 2,
            line.matched == self.num_matched,
            line.total == self.num_total,
            line.percentage == if self.processed_percentage == 100 {
                None
            } else {
                Some(self.processed_percentage)
            },
    {
        StatusLine {
            row: self.max_y as i64 - 2,
            matched: self.num_matched,
            total: self.num_total,
            percentage: if self.processed_percentage == 100 {
                None
            } else {
                Some(self.processed_percentage)
            },
        }
    }

    /// The query row: it stands on the last screen row and shows, behind a
    /// prompt of two columns, the text that the buffer gives as its own, with
    /// the cursor at the buffer's offset behind the prompt.
    pub fn print_query(&self) -> (line: QueryLine)
        ensures
            line.row == self.max_y - 1,
            line.prompt_width == 2,
            call_ensures(Q::get_query, (&self.query,), line.query),
            exists|pos: usize|
                #[trigger] call_ensures(Q::pos, (&self.query,), pos) && line.cursor_column == pos
                    + 2,
    {
        let text = self.query.get_query();
        let pos: usize = self.query.pos();
        query_line(self.max_y, text, pos)
    }

    /// Takes over a new screen size.
    pub fn resize(&mut self, max_y: i32, max_x: i32)
        ensures
            *final(self) == (Model {
                max_y: max_y,
                max_x: max_x,
                width: usable(max_x) as usize,
                height: usable(max_y) as usize,
                ..*old(self)
            }),
    {
        self.max_y = max_y;
        self.max_x = max_x;
        self.width = usable_size(max_x);
        self.height = usable_size(max_y);
    }

    /// The notice for the ranking side after an edit: the new query text
    /// where the edit changed the buffer, nothing where it did not.
    pub fn query_notice(&self, changed: bool) -> (notice: Option<String>)
        ensures
            notice.is_some() == changed,
            raised(self.query, notice),
    {
        if changed {
            Some(self.query.get_query())
        } else {
            None
        }
    }

    /// Inserts `ch` into the query at its cursor. Returns the new query text
    /// for the ranking side where the buffer changed.
    pub fn act_add_char(&mut self, ch: char) -> (notice: Option<String>)
        ensures
            final(self).same_but_query(old(self)),
            exists|buffer: &mut Q|
                mut_ref_current(buffer) == old(self).query
                    && mut_ref_future(buffer) == final(self).query
                    && #[trigger] call_ensures(Q::add_char, (buffer, ch), notice.is_some()),
            raised(final(self).query, notice),
    {
        let changed = self.query.add_char(ch);
        self.query_notice(changed)
    }

    /// Moves the query's cursor one glyph back. Raises no notice.
    pub fn act_backward_char(&mut self)
        ensures
            final(self).same_but_query(old(self)),
            exists|buffer: &mut Q|
                mut_ref_current(buffer) == old(self).query
                    && mut_ref_future(buffer) == final(self).query
                    && #[trigger] call_ensures(Q::backward_char, (buffer,), ()),
    {
        self.query.backward_char();
    }

    /// Deletes the glyph before the query's cursor. Returns the new query
    /// text for the ranking side where the buffer changed.
    pub fn act_backward_delete_char(&mut self) -> (notice: Option<String>)
        ensures
            final(self).same_but_query(old(self)),
            exists|buffer: &mut Q|
                mut_ref_current(buffer) == old(self).query
                    && mut_ref_future(buffer) == final(self).query
                    && #[trigger] call_ensures(Q::backward_delete_char, (buffer,), notice.is_some()),
            raised(final(self).query, notice),
    {
        let changed = self.query.backward_delete_char();
        self.query_notice(changed)
    }

    /// Deletes the word before the query's cursor. Returns the new query text
    /// for the ranking side where the buffer changed.
    pub fn act_backward_kill_word(&mut self) -> (notice: Option<String>)
        ensures
            final(self).same_but_query(old(self)),
            exists|buffer: &mut Q|
                mut_ref_current(buffer) == old(self).query
                    && mut_ref_future(buffer) == final(self).query
                    && #[trigger] call_ensures(Q::backward_kill_word, (buffer,), notice.is_some()),
            raised(final(self).query, notice),
    {
        let changed = self.query.backward_kill_word();
        self.query_notice(changed)
    }

    /// Moves the query's cursor one word back. Raises no notice.
    pub fn act_backward_word(&mut self)
        ensures
            final(self).same_but_query(old(self)),
            exists|buffer: &mut Q|
                mut_ref_current(buffer) == old(self).query
                    && mut_ref_future(buffer) == final(self).query
                    && #[trigger] call_ensures(Q::backward_word, (buffer,), ()),
    {
        self.query.backward_word();
    }

    /// Moves the query's cursor to the start of the line. Raises no notice.
    pub fn act_beginning_of_line(&mut self)
        ensures
            final(self).same_but_query(old(self)),
            exists|buffer: &mut Q|
                mut_ref_current(buffer) == old(self).query
                    && mut_ref_future(buffer) == final(self).query
                    && #[trigger] call_ensures(Q::beginning_of_line, (buffer,), ()),
    {
        self.query.beginning_of_line();
    }

    /// Deletes the glyph under the query's cursor. Returns the new query text
    /// for the ranking side where the buffer changed.
    pub fn act_delete_char(&mut self) -> (notice: Option<String>)
        ensures
            final(self).same_but_query(old(self)),
            exists|buffer: &mut Q|
                mut_ref_current(buffer) == old(self).query
                    && mut_ref_future(buffer) == final(self).query
                    && #[trigger] call_ensures(Q::delete_char, (buffer,), notice.is_some()),
            raised(final(self).query, notice),
    {
        let changed = self.query.delete_char();
        self.query_notice(changed)
    }

    /// Empties the selection.
    pub fn act_deselect_all(&mut self)
        ensures
            *final(self) == (Model {
                selected_indics: final(self).selected_indics,
                ..*old(self)
            }),
            final(self).selection() == Set::<usize>::empty(),
    {
        self.selected_indics.clear();
    }

    /// Moves the query's cursor to the end of the line. Raises no notice.
    pub fn act_end_of_line(&mut self)
        ensures
            final(self).same_but_query(old(self)),
            exists|buffer: &mut Q|
                mut_ref_current(buffer) == old(self).query
                    && mut_ref_future(buffer) == final(self).query
                    && #[trigger] call_ensures(Q::end_of_line, (buffer,), ()),
    {
        self.query.end_of_line();
    }

    /// Moves the query's cursor one glyph on. Raises no notice.
    pub fn act_forward_char(&mut self)
        ensures
            final(self).same_but_query(old(self)),
            exists|buffer: &mut Q|
                mut_ref_current(buffer) == old(self).query
                    && mut_ref_future(buffer) == final(self).query
                    && #[trigger] call_ensures(Q::forward_char, (buffer,), ()),
    {
        self.query.forward_char();
    }

    /// Moves the query's cursor one word on. Raises no notice.
    pub fn act_forward_word(&mut self)
        ensures
            final(self).same_but_query(old(self)),
            exists|buffer: &mut Q|
                mut_ref_current(buffer) == old(self).query
                    && mut_ref_future(buffer) == final(self).query
                    && #[trigger] call_ensures(Q::forward_word, (buffer,), ()),
    {
        self.query.forward_word();
    }

    /// Deletes the query from its cursor to the end. Returns the new query
    /// text for the ranking side where the buffer changed.
    pub fn act_kill_line(&mut self) -> (notice: Option<String>)
        ensures
            final(self).same_but_query(old(self)),
            exists|buffer: &mut Q|
                mut_ref_current(buffer) == old(self).query
                    && mut_ref_future(buffer) == final(self).query
                    && #[trigger] call_ensures(Q::kill_line, (buffer,), notice.is_some()),
            raised(final(self).query, notice),
    {
        let changed = self.query.kill_line();
        self.query_notice(changed)
    }

    /// Deletes the word behind the query's cursor. Returns the new query text
    /// for the ranking side where the buffer changed.
    pub fn act_kill_word(&mut self) -> (notice: Option<String>)
        ensures
            final(self).same_but_query(old(self)),
            exists|buffer: &mut Q|
                mut_ref_current(buffer) == old(self).query
                    && mut_ref_future(buffer) == final(self).query
                    && #[trigger] call_ensures(Q::kill_word, (buffer,), notice.is_some()),
            raised(final(self).query, notice),
    {
        let changed = self.query.kill_word();
        self.query_notice(changed)
    }

    /// Deletes the query up to its cursor. Returns the new query text for the
    /// ranking side where the buffer changed.
    pub fn act_line_discard(&mut self) -> (notice: Option<String>)
        ensures
            final(self).same_but_query(old(self)),
            exists|buffer: &mut Q|
                mut_ref_current(buffer) == old(self).query
                    && mut_ref_future(buffer) == final(self).query
                    && #[trigger] call_ensures(Q::line_discard, (buffer,), notice.is_some()),
            raised(final(self).query, notice),
    {
        let changed = self.query.line_discard();
        self.query_notice(changed)
    }

    /// Adds every rank position of the ranked matches to the selection.
    pub fn act_select_all(&mut self)
        ensures
            *final(self) == (Model {
                selected_indics: final(self).selected_indics,
                ..*old(self)
            }),
            final(self).selection() == old(self).selection().union(
                positions(old(self).matched_items@.len()),
            ),
    {
        let n: usize = self.matched_items.len();
        let mut i: usize = 0;
        while i < n
            invariant
                i <= n,
                *self == (Model { selected_indics: self.selected_indics, ..*old(self) }),
                self.selection() =~= old(self).selection().union(positions(i as nat)),
            decreases n - i,
        {
            self.selected_indics.insert(i);
            i = i + 1;
        }
        assert(final(self).selection() =~= old(self).selection().union(
            positions(old(self).matched_items@.len()),
        ));
    }

    /// Replaces the selection by the rank positions of the ranked matches
    /// that were not selected.
    pub fn act_toggle_all(&mut self)
        ensures
            *final(self) == (Model {
                selected_indics: final(self).selected_indics,
                ..*old(self)
            }),
            final(self).selection() == toggled(
                old(self).selection(),
                old(self).matched_items@.len(),
            ),
    {
        let n: usize = self.matched_items.len();
        let mut fresh: HashSet<usize> = HashSet::new();
        let mut i: usize = 0;
        while i < n
            invariant
                i <= n,
                *self == *old(self),
                fresh@ =~= toggled(self.selection(), i as nat),
            decreases n - i,
        {
            if !self.selected_indics.contains(&i) {
                fresh.insert(i);
            }
            i = i + 1;
        }
        self.selected_indics = fresh;
    }

    /// Toggles the line under the cursor: forced to `selected` where it is
    /// given, flipped where it is not. Without a match under the cursor
    /// nothing changes.
    pub fn act_toggle(&mut self, selected: Option<bool>)
        ensures
            *final(self) == (Model {
                selected_indics: final(self).selected_indics,
                ..*old(self)
            }),
            final(self).selection() == if old(self).item_cursor < old(self).matched_items@.len() {
                toggled_one(
                    old(self).selection(),
                    old(self).matched_items@[old(self).item_cursor as int].index,
                    selected,
                )
            } else {
                old(self).selection()
            },
    {
        if self.item_cursor >= self.matched_items.len() {
            return;
        }
        let index: usize = self.matched_items[self.item_cursor].index;
        match selected {
            Some(true) => {
                let _ = self.selected_indics.insert(index);
            },
            Some(false) => {
                let _ = self.selected_indics.remove(&index);
            },
            None => {
                if self.selected_indics.contains(&index) {
                    let _ = self.selected_indics.remove(&index);
                } else {
                    let _ = self.selected_indics.insert(index);
                }
            },
        }
    }

    /// The number of selected identities.
    pub fn get_num_selected(&self) -> (n: usize)
        ensures
            n == self.selection().len(),
    {
        self.selected_indics.len()
    }

    /// Whether the line of identity `index` is selected.
    pub fn is_selected(&self, index: usize) -> (b: bool)
        ensures
            b == self.selection().contains(index),
    {
        self.selected_indics.contains(&index)
    }

    /// Moves both cursors by `delta`, each clamped on its own; without
    /// matches both go to 0.
    fn shift(&mut self, delta: i128)
        requires
            -0x1_0000_0000_0000_0000_0000_0000 <= delta <= 0x1_0000_0000_0000_0000_0000_0000,
        ensures
            *final(self) == (Model {
                line_cursor: final(self).line_cursor,
                item_cursor: final(self).item_cursor,
                ..*old(self)
            }),
            final(self).line_cursor == moved_row(
                old(self).line_cursor as int,
                delta as int,
                old(self).height as int,
                old(self).matched_items@.len() as int,
            ),
            final(self).item_cursor == moved_rank(
                old(self).item_cursor as int,
                delta as int,
                old(self).matched_items@.len() as int,
            ),
    {
        let total: i128 = self.matched_items.len() as i128;
        let rows: i128 = self.height as i128;
        let y: i128 = self.line_cursor as i128 + delta;
        let item_y: i128 = self.item_cursor as i128 + delta;
        if total == 0 {
            self.line_cursor = 0;
            self.item_cursor = 0;
        } else if delta > 0 {
            let a: i128 = if y < rows - 1 {
                y
            } else {
                rows - 1
            };
            let b: i128 = if a < total - 1 {
                a
            } else {
                total - 1
            };
            self.line_cursor = if b < 0 {
                0
            } else {
                b as usize
            };
            let c: i128 = if item_y < total - 1 {
                item_y
            } else {
                total - 1
            };
            self.item_cursor = if c < 0 {
                0
            } else {
                c as usize
            };
        } else {
            self.line_cursor = if y < 0 {
                0
            } else {
                y as usize
            };
            self.item_cursor = if item_y < 0 {
                0
            } else {
                item_y as usize
            };
        }
    }

    /// Moves the cursor by `diff` matches: up the ranking for a positive
    /// number. The row stops at the top visible row and at the last match, the
    /// rank position at the last match; both stop at 0. Without matches both
    /// become 0, wherever they stood.
    pub fn act_move_line_cursor(&mut self, diff: i32)
        ensures
            *final(self) == (Model {
                line_cursor: final(self).line_cursor,
                item_cursor: final(self).item_cursor,
                ..*old(self)
            }),
            final(self).line_cursor == moved_row(
                old(self).line_cursor as int,
                diff as int,
                old(self).height as int,
                old(self).matched_items@.len() as int,
            ),
            final(self).item_cursor == moved_rank(
                old(self).item_cursor as int,
                diff as int,
                old(self).matched_items@.len() as int,
            ),
            old(self).wf() ==> final(self).wf(),
            old(self).line_cursor < old(self).height ==> final(self).line_cursor < old(
                self
            ).height,
    {
        self.shift(diff as i128);
    }

    /// Moves the cursor by `pages` screens of visible rows.
    pub fn act_move_page(&mut self, pages: i32)
        ensures
            *final(self) == (Model {
                line_cursor: final(self).line_cursor,
                item_cursor: final(self).item_cursor,
                ..*old(self)
            }),
            final(self).line_cursor == moved_row(
                old(self).line_cursor as int,
                old(self).height * pages,
                old(self).height as int,
                old(self).matched_items@.len() as int,
            ),
            final(self).item_cursor == moved_rank(
                old(self).item_cursor as int,
                old(self).height * pages,
                old(self).matched_items@.len() as int,
            ),
            old(self).wf() ==> final(self).wf(),
            old(self).line_cursor < old(self).height ==> final(self).line_cursor < old(
                self
            ).height,
    {
        let rows: i128 = self.height as i128;
        let count: i128 = pages as i128;
        assert(-0x1_0000_0000_0000_0000_0000_0000 <= rows * count
            <= 0x1_0000_0000_0000_0000_0000_0000) by (nonlinear_arith)
            requires
                0 <= rows <= 0xffff_ffff_ffff_ffff,
                -0x8000_0000 <= count <= 0x7fff_ffff,
        ;
        self.shift(rows * count);
    }
}

/// The query row of a screen of `max_y` rows for the buffer's text `query`
/// and cursor offset `pos`: the last screen row, a prompt of two columns, and
/// the cursor at the offset behind the prompt.
pub fn query_line(max_y: i32, query: String, pos: usize) -> (line: QueryLine)
    ensures
        line.row == max_y - 1,
        line.prompt_width == 2,
        line.query == query,
        line.cursor_column == pos + 2,
{
    QueryLine { row: max_y as i64 - 1, prompt_width: 2, query: query, cursor_column: pos as u128 + 2 }
}

/// `size` less the two reserved rows or columns, never below zero.
pub fn usable_size(size: i32) -> (n: usize)
    ensures
        n == usable(size),
{
    if size >= 2 {
        (size - 2) as usize
    } else {
        0
    }
}

} // verus!
