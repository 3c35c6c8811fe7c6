//! The line that the user types, with its cursor, and the history of such
//! lines. Characters that take no column on the screen stay with the
//! character before them: the cursor never rests on one, and deleting
//! takes them along.

use crate::text::{char_width, white_space, width_of};
use vstd::prelude::*;

verus! {

/// Whether a character takes no column.
pub open spec fn zero_width(c: char) -> bool {
    char_width(c) == Some(0usize)
}

/// An input line as plain values: the characters, and the number of
/// characters before the cursor.
pub struct InputView {
    pub buffer: Seq<char>,
    pub cursor: int,
}

impl InputView {
    /// Whether the cursor is inside the line or at its end.
    pub open spec fn wf(self) -> bool {
        0 <= self.cursor <= self.buffer.len()
    }

    /// Whether there is a character at `index` and it takes no column.
    pub open spec fn zero_width_at(self, index: int) -> bool {
        0 <= index < self.buffer.len() && zero_width(self.buffer[index])
    }

    /// The character before the cursor, if there is one.
    pub open spec fn prev_char(self) -> Option<char> {
        if 0 < self.cursor <= self.buffer.len() {
            Some(self.buffer[self.cursor - 1])
        } else {
            None
        }
    }

    /// The line with the cursor at `new`, or at the end where `new` is
    /// beyond it.
    pub open spec fn with_cursor(self, new: int) -> InputView {
        InputView {
            cursor: if new <= self.buffer.len() {
                new
            } else {
                self.buffer.len() as int
            },
            ..self
        }
    }

    /// The line after `c` was typed: `c` stands where the cursor was, and
    /// the cursor behind it.
    pub open spec fn insert(self, c: char) -> InputView {
        InputView { buffer: self.buffer.insert(self.cursor, c), cursor: self.cursor + 1 }
    }

    /// Where a backspace from `cursor` stops: behind the nearest character
    /// to the left that takes a column, which it deletes, or at the start
    /// of the line.
    pub open spec fn backspace_start(self, cursor: int) -> int
        decreases cursor,
    {
        if cursor <= 0 {
            0
        } else if zero_width(self.buffer[cursor - 1]) {
            self.backspace_start(cursor - 1)
        } else {
            cursor - 1
        }
    }

    /// The line after a backspace: the character before the cursor is gone,
    /// and where it took no column, so are the characters before it up to
    /// and with the first that takes one.
    pub open spec fn backspace(self) -> InputView {
        let start = self.backspace_start(self.cursor);
        InputView {
            buffer: self.buffer.take(start) + self.buffer.skip(self.cursor),
            cursor: start,
        }
    }

    /// The first index from `index` on that holds no character without
    /// width.
    pub open spec fn skip_zero_width(self, index: int) -> int
        decreases self.buffer.len() - index,
    {
        if self.zero_width_at(index) {
            self.skip_zero_width(index + 1)
        } else {
            index
        }
    }

    /// The line after a delete: the character at the cursor is gone, and so
    /// are the characters without width that follow it. At the end of the
    /// line nothing changes.
    pub open spec fn delete(self) -> InputView {
        if 0 <= self.cursor < self.buffer.len() {
            InputView {
                buffer: self.buffer.take(self.cursor) + self.buffer.skip(
                    self.skip_zero_width(self.cursor + 1),
                ),
                ..self
            }
        } else {
            self
        }
    }

    /// The line after backspaces for as long as the character before the
    /// cursor is white space.
    pub open spec fn strip_space(self) -> InputView
        decreases self.cursor,
    {
        if self.wf() && self.prev_char() is Some && white_space(self.prev_char()->0) {
            proof {
                lemma_backspace_moves_left(self);
            }
            self.backspace().strip_space()
        } else {
            self
        }
    }

    /// The line after backspaces for as long as there is a character before
    /// the cursor and it is no white space.
    pub open spec fn strip_word(self) -> InputView
        decreases self.cursor,
    {
        if self.wf() && self.prev_char() is Some && !white_space(self.prev_char()->0) {
            proof {
                lemma_backspace_moves_left(self);
            }
            self.backspace().strip_word()
        } else {
            self
        }
    }

    /// The line after the word before the cursor was deleted: first the
    /// white space before the cursor, then what is no white space.
    pub open spec fn backspace_word(self) -> InputView {
        self.strip_space().strip_word()
    }

    /// Where the cursor stands after moving right by `num` from `cursor`:
    /// `num` characters on, or at the end of the line, and on from there by
    /// the same step while it stands on a character without width. A step
    /// of 0, or one that leads past the largest `usize`, moves nothing.
    pub open spec fn right_of(self, cursor: int, num: int) -> int
        decreases self.buffer.len() - cursor,
    {
        if num <= 0 || cursor + num > usize::MAX || cursor < 0 {
            cursor
        } else {
            let next = if cursor + num <= self.buffer.len() {
                cursor + num
            } else {
                self.buffer.len() as int
            };
            if self.zero_width_at(next) {
                self.right_of(next, num)
            } else {
                next
            }
        }
    }

    /// Where the cursor stands after moving left by `num` from `cursor`:
    /// `num` characters back, or at the start of the line, and back from
    /// there by the same step while it stands on a character without
    /// width. A step of 0 moves nothing.
    pub open spec fn left_of(self, cursor: int, num: int) -> int
        decreases cursor,
    {
        if num <= 0 || cursor <= 0 {
            cursor
        } else {
            let next = if cursor - num >= 0 {
                cursor - num
            } else {
                0
            };
            if self.zero_width_at(next) && next > 0 {
                self.left_of(next, num)
            } else {
                next
            }
        }
    }

    /// The scan that finds the part of the line to show: from `pos` to the
    /// left, as long as there are characters and columns wanted, each
    /// character taking its width off the columns wanted. Gives where the
    /// scan stops and the columns still wanted then.
    pub open spec fn scan_back(self, pos: int, want: int) -> (int, int)
        decreases pos,
    {
        if pos > 0 && want > 0 {
            let w = match char_width(self.buffer[pos - 1]) {
                Some(w) => w as int,
                None => 0,
            };
            self.scan_back(
                pos - 1,
                if want >= w {
                    want - w
                } else {
                    0
                },
            )
        } else {
            (pos, want)
        }
    }

    /// What is shown of the line in a field `width` columns wide: the
    /// characters from some point before the cursor on, and the column of
    /// the cursor in them. Up to three quarters of the width, in whole
    /// quarters, are given to what stands before the cursor.
    pub open spec fn shown(self, width: int) -> (Seq<char>, int) {
        let max_cols = 3 * (width / 4);
        let (start, want) = self.scan_back(self.cursor, max_cols);
        (self.buffer.skip(start), max_cols - want)
    }
}

/// The line that the user types, with its cursor.
#[derive(Clone, Debug)]
pub struct Input {
    /// The characters of the line.
    buffer: Vec<char>,
    /// The number of characters before the cursor.
    cursor: usize,
}

/// The string of the characters from `start` on.
fn collect_from(buffer: &Vec<char>, start: usize) -> (s: String)
    requires
        start <= buffer.len(),
    ensures
        s@ == buffer@.skip(start as int),
{
    let mut s = String::new();
    let mut i: usize = start;
    while i < buffer.len()
        invariant
            start <= i <= buffer.len(),
            s@ == buffer@.subrange(start as int, i as int),
        decreases buffer.len() - i,
    {
        s.push(buffer[i]);
        assert(buffer@.subrange(start as int, i + 1) =~= buffer@.subrange(
            start as int,
            i as int,
        ).push(buffer@[i as int]));
        i += 1;
    }
    assert(buffer@.subrange(start as int, i as int) =~= buffer@.skip(start as int));
    s
}

impl Input {
    /// The line as plain values.
    pub closed spec fn model(self) -> InputView {
        InputView { buffer: self.buffer@, cursor: self.cursor as int }
    }

    /// Whether the cursor is inside the line or at its end. Every line
    /// that this module hands out is so.
    pub open spec fn wf(self) -> bool {
        self.model().wf()
    }

    /// An empty line.
    pub fn new() -> (input: Input)
        ensures
            input.wf(),
            input.model() == (InputView { buffer: Seq::empty(), cursor: 0 }),
    {
        Input { buffer: Vec::new(), cursor: 0 }
    }

    /// The characters of the line as a string.
    pub fn get_string(&self) -> (s: String)
        ensures
            s@ == self.model().buffer,
    {
        let s = collect_from(&self.buffer, 0);
        assert(self.buffer@.skip(0) =~= self.buffer@);
        s
    }

    /// The number of characters before the cursor.
    pub fn cursor(&self) -> (cursor: usize)
        ensures
            cursor == self.model().cursor,
    {
        self.cursor
    }

    /// Whether the line holds no character.
    pub fn is_empty(&self) -> (empty: bool)
        ensures
            empty == (self.model().buffer.len() == 0),
    {
        self.buffer.len() == 0
    }

    /// What to show of the line in a field `width` columns wide, and the
    /// column of the cursor in it.
    pub fn view(&self, width: usize) -> (r: (String, usize))
        requires
            self.wf(),
        ensures
            r.0@ == self.model().shown(width as int).0,
            r.1 == self.model().shown(width as int).1,
    {
        let quarter = width / 4;
        let max_cols = 3 * quarter;
        let mut want_cols = max_cols;
        let mut start_pos = self.cursor;
        while start_pos > 0 && want_cols > 0
            invariant
                start_pos <= self.cursor <= self.buffer@.len(),
                want_cols <= max_cols,
                self.model().scan_back(self.cursor as int, max_cols as int) == self.model().scan_back(
                    start_pos as int,
                    want_cols as int,
                ),
            decreases start_pos,
        {
            start_pos -= 1;
            match width_of(self.buffer[start_pos]) {
                Some(w) => {
                    want_cols = if want_cols >= w {
                        want_cols - w
                    } else {
                        0
                    };
                },
                None => {},
            }
        }
        let ret = collect_from(&self.buffer, start_pos);
        (ret, max_cols - want_cols)
    }

    /// Puts the cursor at `new`, or at the end of the line where `new` is
    /// beyond it.
    fn set_cursor(&mut self, new: usize)
        ensures
            final(self).wf(),
            final(self).model() == old(self).model().with_cursor(new as int),
    {
        let max = self.buffer.len();
        self.cursor = if new < max {
            new
        } else {
            max
        };
    }

    /// Types a character at the cursor.
    pub fn insert(&mut self, c: char)
        requires
            old(self).wf(),
        ensures
            final(self).wf(),
            final(self).model() == old(self).model().insert(c),
    {
        self.buffer.insert(self.cursor, c);
        let len = self.buffer.len();
        assert(self.cursor < len);
        self.cursor = self.cursor + 1;
    }

    /// Deletes the character before the cursor, and with a character that
    /// takes no column the characters before it, up to and with the first
    /// that takes one.
    pub fn backspace(&mut self)
        requires
            old(self).wf(),
        ensures
            final(self).wf(),
            final(self).model() == old(self).model().backspace(),
    {
        let ghost start = self.model();
        loop
            invariant_except_break
                self.cursor <= start.cursor <= start.buffer.len(),
                self.buffer@ == start.buffer.take(self.cursor as int) + start.buffer.skip(
                    start.cursor,
                ),
                start.backspace_start(start.cursor) == start.backspace_start(self.cursor as int),
            ensures
                self.wf(),
                self.model() == start.backspace(),
            decreases self.cursor,
        {
            if self.cursor == 0 {
                assert(self.buffer@ =~= start.backspace().buffer);
                break ;
            }
            let n = self.cursor - 1;
            self.cursor = n;
            let removed = self.buffer.remove(n);
            assert(removed == start.buffer[n as int]);
            assert(self.buffer@ =~= start.buffer.take(n as int) + start.buffer.skip(start.cursor));
            match width_of(removed) {
                Some(0) => {},
                _ => {
                    break ;
                },
            }
        }
    }

    /// Deletes the character at the cursor and the characters without
    /// width that follow it.
    pub fn delete(&mut self)
        requires
            old(self).wf(),
        ensures
            final(self).wf(),
            final(self).model() == old(self).model().delete(),
    {
        let ghost start = self.model();
        if self.cursor >= self.buffer.len() {
            return ;
        }
        self.buffer.remove(self.cursor);
        let ghost end = start.cursor + 1;
        assert(self.buffer@ =~= start.buffer.take(start.cursor) + start.buffer.skip(end));
        while self.is_zero_width(self.cursor)
            invariant
                self.cursor == start.cursor,
                start.cursor < end <= start.buffer.len(),
                self.buffer@ == start.buffer.take(start.cursor) + start.buffer.skip(end),
                start.skip_zero_width(start.cursor + 1) == start.skip_zero_width(end),
            decreases start.buffer.len() - end,
        {
            assert(self.buffer@[self.cursor as int] == start.buffer[end]);
            self.buffer.remove(self.cursor);
            proof {
                end = end + 1;
            }
            assert(self.buffer@ =~= start.buffer.take(start.cursor) + start.buffer.skip(end));
        }
        proof {
            if end < start.buffer.len() {
                assert(self.buffer@[self.cursor as int] == start.buffer[end]);
            }
        }
    }

    /// The character before the cursor.
    fn prev_char(&self) -> (c: Option<char>)
        requires
            self.wf(),
        ensures
            c == self.model().prev_char(),
    {
        if self.cursor > 0 {
            Some(self.buffer[self.cursor - 1])
        } else {
            None
        }
    }

    /// Deletes the word before the cursor: first the white space before
    /// the cursor, then the characters before it that are no white space.
    pub fn backspace_word(&mut self)
        requires
            old(self).wf(),
        ensures
            final(self).wf(),
            final(self).model() == old(self).model().backspace_word(),
    {
        let ghost start = self.model();
        loop
            invariant_except_break
                start.strip_space() == self.model().strip_space(),
            invariant
                self.wf(),
            ensures
                self.model() == start.strip_space(),
            decreases self.model().cursor,
        {
            match self.prev_char() {
                Some(c) => {
                    if c.is_whitespace() {
                        proof {
                            lemma_backspace_moves_left(self.model());
                        }
                        self.backspace();
                    } else {
                        break ;
                    }
                },
                None => {
                    break ;
                },
            }
        }
        let ghost middle = self.model();
        loop
            invariant_except_break
                middle.strip_word() == self.model().strip_word(),
            invariant
                self.wf(),
            ensures
                self.model() == middle.strip_word(),
            decreases self.model().cursor,
        {
            match self.prev_char() {
                Some(c) => {
                    if c.is_whitespace() {
                        break ;
                    } else {
                        proof {
                            lemma_backspace_moves_left(self.model());
                        }
                        self.backspace();
                    }
                },
                None => {
                    break ;
                },
            }
        }
    }

    /// Whether there is a character at `index` and it takes no column.
    fn is_zero_width(&self, index: usize) -> (r: bool)
        ensures
            r == self.model().zero_width_at(index as int),
    {
        if index < self.buffer.len() {
            match width_of(self.buffer[index]) {
                Some(0) => true,
                _ => false,
            }
        } else {
            false
        }
    }

    /// Moves the cursor right by `num` characters, and on by the same step
    /// while it stands on a character without width.
    pub fn move_right(&mut self, num: usize)
        requires
            old(self).wf(),
        ensures
            final(self).wf(),
            final(self).model() == (InputView {
                cursor: old(self).model().right_of(old(self).model().cursor, num as int),
                ..old(self).model()
            }),
    {
        let ghost start = self.model();
        if num == 0 {
            return ;
        }
        loop
            invariant_except_break
                num > 0,
                self.buffer@ == start.buffer,
                self.cursor <= self.buffer@.len(),
                start.right_of(start.cursor, num as int) == start.right_of(
                    self.cursor as int,
                    num as int,
                ),
            ensures
                self.buffer@ == start.buffer,
                self.cursor <= self.buffer@.len(),
                self.cursor == start.right_of(start.cursor, num as int),
            decreases self.buffer@.len() - self.cursor,
        {
            match self.cursor.checked_add(num) {
                Some(n) => {
                    self.set_cursor(n);
                },
                None => {
                    break ;
                },
            }
            if !self.is_zero_width(self.cursor) {
                break ;
            }
        }
    }

    /// Moves the cursor left by `num` characters, and back by the same
    /// step while it stands on a character without width.
    pub fn move_left(&mut self, num: usize)
        requires
            old(self).wf(),
        ensures
            final(self).wf(),
            final(self).model() == (InputView {
                cursor: old(self).model().left_of(old(self).model().cursor, num as int),
                ..old(self).model()
            }),
    {
        let ghost start = self.model();
        if num == 0 || self.cursor == 0 {
            return ;
        }
        loop
            invariant_except_break
                num > 0,
                self.buffer@ == start.buffer,
                0 < self.cursor <= self.buffer@.len(),
                start.left_of(start.cursor, num as int) == start.left_of(
                    self.cursor as int,
                    num as int,
                ),
            ensures
                self.buffer@ == start.buffer,
                self.cursor <= self.buffer@.len(),
                self.cursor == start.left_of(start.cursor, num as int),
            decreases self.cursor,
        {
            self.cursor = if self.cursor >= num {
                self.cursor - num
            } else {
                0
            };
            if self.cursor == 0 || !self.is_zero_width(self.cursor) {
                break ;
            }
        }
    }

    /// Moves the cursor to the end of the line.
    pub fn move_to_end(&mut self)
        requires
            old(self).wf(),
        ensures
            final(self).wf(),
            final(self).model() == (InputView {
                cursor: old(self).model().buffer.len() as int,
                ..old(self).model()
            }),
    {
        let end = self.buffer.len();
        self.set_cursor(end);
    }

    /// Moves the cursor to the start of the line.
    pub fn move_to_start(&mut self)
        requires
            old(self).wf(),
        ensures
            final(self).wf(),
            final(self).model() == (InputView { cursor: 0, ..old(self).model() }),
    {
        self.cursor = 0;
    }
}

/// A history as plain values: its lines, oldest first, and the index of the
/// line that is being edited.
pub struct HistoryView {
    pub entries: Seq<InputView>,
    pub index: int,
}

impl HistoryView {
    /// Whether there is a line at the index, and every line is well formed.
    pub open spec fn wf(self) -> bool {
        &&& 0 <= self.index < self.entries.len()
        &&& forall|i: int| 0 <= i < self.entries.len() ==> (#[trigger] self.entries[i]).wf()
    }

    /// The history after a step to the next line: the last line is the
    /// furthest.
    pub open spec fn next(self) -> HistoryView {
        HistoryView {
            index: if self.index + 1 < self.entries.len() {
                self.index + 1
            } else {
                self.entries.len() - 1
            },
            ..self
        }
    }

    /// The history after a step to the line before: the first line is the
    /// furthest.
    pub open spec fn prev(self) -> HistoryView {
        HistoryView {
            index: if self.index > 0 {
                self.index - 1
            } else {
                0
            },
            ..self
        }
    }

    /// The history after a new line was begun: an empty line is added at
    /// the end, unless the last line is empty already, and the last line is
    /// the one that is edited.
    pub open spec fn new_line(self) -> HistoryView {
        let entries = if self.entries.len() > 0 && self.entries.last().buffer.len() == 0 {
            self.entries
        } else {
            self.entries.push(InputView { buffer: Seq::empty(), cursor: 0 })
        };
        HistoryView { entries, index: entries.len() - 1 }
    }
}

/// The lines that the user typed, and the one that is being edited.
#[derive(Clone, Debug)]
pub struct History {
    /// The lines, oldest first.
    history: Vec<Input>,
    /// The index of the line that is being edited.
    index: usize,
}

impl History {
    /// The history as plain values.
    pub closed spec fn model(self) -> HistoryView {
        HistoryView {
            entries: self.history@.map_values(|input: Input| input.model()),
            index: self.index as int,
        }
    }

    /// Whether the history is well formed. Every history that this module
    /// hands out is so.
    pub open spec fn wf(self) -> bool {
        self.model().wf()
    }

    /// The line that is being edited.
    pub closed spec fn spec_current(self) -> Input {
        self.history@[self.index as int]
    }

    /// A history of one empty line.
    pub fn new() -> (h: History)
        ensures
            h.wf(),
            h.model() == (HistoryView {
                entries: seq![InputView { buffer: Seq::empty(), cursor: 0 }],
                index: 0,
            }),
    {
        let mut history: Vec<Input> = Vec::with_capacity(100);
        history.push(Input::new());
        let h = History { history, index: 0 };
        assert(h.model().entries =~= seq![InputView { buffer: Seq::empty(), cursor: 0 }]);
        h
    }

    /// Steps to the next line, if there is one.
    pub fn next(&mut self)
        requires
            old(self).wf(),
        ensures
            final(self).wf(),
            final(self).model() == old(self).model().next(),
    {
        let max = self.history.len() - 1;
        self.index = if self.index < max {
            self.index + 1
        } else {
            max
        };
    }

    /// Steps to the line before, if there is one.
    pub fn prev(&mut self)
        requires
            old(self).wf(),
        ensures
            final(self).wf(),
            final(self).model() == old(self).model().prev(),
    {
        self.index = if self.index > 0 {
            self.index - 1
        } else {
            0
        };
    }

    /// Begins a new line at the end of the history and makes it the one
    /// that is edited. Where the last line is empty, it is that line.
    pub fn new_line(&mut self)
        requires
            old(self).wf(),
        ensures
            final(self).wf(),
            final(self).model() == old(self).model().new_line(),
    {
        let last = self.history.len() - 1;
        if !self.history[last].is_empty() {
            let ghost before = self.model().entries;
            self.history.push(Input::new());
            assert(self.model().entries =~= before.push(
                InputView { buffer: Seq::empty(), cursor: 0 },
            ));
        }
        self.index = self.history.len() - 1;
    }

    /// The line that is being edited.
    pub fn current(&self) -> (input: &Input)
        requires
            self.wf(),
        ensures
            input.wf(),
            input.model() == self.model().entries[self.model().index],
    {
        assert(self.model().entries[self.index as int].wf());
        &self.history[self.index]
    }

    /// The line that is being edited, to edit it. The history is as
    /// before but for that line, and is well formed as long as the line is
    /// left well formed.
    pub fn current_mut(&mut self) -> (input: &mut Input)
        requires
            old(self).wf(),
        ensures
            input.wf(),
            input.model() == old(self).model().entries[old(self).model().index],
            final(self).model() == (HistoryView {
                entries: old(self).model().entries.update(
                    old(self).model().index,
                    final(input).model(),
                ),
                ..old(self).model()
            }),
    {
        let ghost before = self.history@;
        let i = self.index;
        assert(self.model().entries[i as int].wf());
        let input = &mut self.history[i];
        assert(before.update(i as int, *final(input)).map_values(|x: Input| x.model())
            =~= before.map_values(|x: Input| x.model()).update(i as int, final(input).model()));
        input
    }
}

/// A backspace leaves the cursor inside the line, and moves it left where
/// it was not at the start.
pub proof fn lemma_backspace_moves_left(v: InputView)
    requires
        v.wf(),
    ensures
        v.backspace().wf(),
        v.cursor > 0 ==> v.backspace().cursor < v.cursor,
        v.cursor == 0 ==> v.backspace() == v,
{
    lemma_backspace_start_bounds(v, v.cursor);
    if v.cursor == 0 {
        assert(v.buffer.take(0) + v.buffer.skip(0) =~= v.buffer);
    }
}

/// A backspace from `cursor` stops at or after the start of the line, and
/// before `cursor` where that is not the start.
pub proof fn lemma_backspace_start_bounds(v: InputView, cursor: int)
    requires
        0 <= cursor <= v.buffer.len(),
    ensures
        0 <= v.backspace_start(cursor) <= cursor,
        cursor > 0 ==> v.backspace_start(cursor) < cursor,
    decreases cursor,
{
    if cursor > 0 && zero_width(v.buffer[cursor - 1]) {
        lemma_backspace_start_bounds(v, cursor - 1);
    }
}

} // verus!
