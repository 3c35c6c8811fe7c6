//! A view of one chat that follows its last line and can be scrolled.

use crate::message::{text_option_view, Message, MessageView};
use crate::text::{split_words, text_width, width_of_text, words_of};
use vstd::prelude::*;
use vstd::string::StringExecFns;

verus! {

/// The options that say how a view shows its lines and how it behaves.
#[derive(Clone, Copy, Debug, PartialEq, Eq, Structural)]
pub struct ViewOptions {
    pub show_date: bool,
    pub show_arrivals: bool,
    pub show_departures: bool,
    pub autoscroll: bool,
}

impl ViewOptions {
    /// The options of a new view: no date, arrivals and departures shown,
    /// and the view follows its last line.
    pub fn new() -> (opts: ViewOptions)
        ensures
            opts == (ViewOptions {
                show_date: false,
                show_arrivals: true,
                show_departures: true,
                autoscroll: true,
            }),
    {
        ViewOptions { show_date: false, show_arrivals: true, show_departures: true, autoscroll: true }
    }
}

/// The part of the screen that a view is drawn in, in columns and rows.
#[derive(Clone, Copy, Debug, PartialEq, Eq, Structural)]
pub struct Area {
    pub width: u16,
    pub height: u16,
}

/// The largest height that is counted.
pub const MAX_HEIGHT: usize = 65535;

/// The rows in use and the columns taken in the last of them, after a word
/// `word` columns wide was set behind what `state` holds, in a view `width`
/// columns wide. The word begins a new row where it does not fit behind the
/// words of the row. A word wider than the view is cut into rows; in a view
/// without width it takes more rows than are counted. Behind the word
/// stands a space.
pub open spec fn wrap_step(state: (int, int), word: int, width: int) -> (int, int) {
    let (h, w) = if state.1 + word > width && state.1 > 0 {
        (state.0 + 1, 0int)
    } else {
        state
    };
    if word <= width {
        (h, w + word + 1)
    } else if width > 0 {
        (h + (word - 1) / width, w + (word - 1) % width + 2)
    } else {
        (h + MAX_HEIGHT, w + 1)
    }
}

/// The rows in use and the columns taken in the last of them, after the
/// words of the given widths were set in a view `width` columns wide, from
/// one empty row on.
pub open spec fn wrap_all(words: Seq<usize>, width: int) -> (int, int)
    decreases words.len(),
{
    if words.len() == 0 {
        (1, 0)
    } else {
        wrap_step(wrap_all(words.drop_last(), width), words.last() as int, width)
    }
}

/// The number of rows that words of the given widths take in a view `width`
/// columns wide, as far as rows are counted.
pub open spec fn wrapped_height(words: Seq<usize>, width: int) -> int {
    if wrap_all(words, width).0 < MAX_HEIGHT {
        wrap_all(words, width).0
    } else {
        MAX_HEIGHT as int
    }
}

/// The widths of the words of a text.
pub open spec fn word_widths(text: Seq<char>) -> Seq<usize> {
    words_of(text).map_values(|word: Seq<char>| text_width(word))
}

/// The number of rows that a message takes in a view `width` columns wide
/// under the given options: none where it is hidden.
pub open spec fn message_height(message: MessageView, opts: ViewOptions, width: int) -> int {
    match message.render(opts) {
        Some(text) => wrapped_height(word_widths(text), width),
        None => 0,
    }
}

/// Setting a word never takes rows away, and in a view with width the
/// columns taken in the last row are at most one more than the view has.
pub proof fn lemma_wrap_step_bounds(state: (int, int), word: int, width: int)
    requires
        state.0 >= 1,
        0 <= state.1,
        0 <= word,
        0 <= width,
        width > 0 ==> state.1 <= width + 1,
        width == 0 ==> state.1 <= 1,
    ensures
        wrap_step(state, word, width).0 >= state.0,
        0 <= wrap_step(state, word, width).1,
        width > 0 ==> wrap_step(state, word, width).1 <= width + 1,
        width == 0 && word == 0 ==> wrap_step(state, word, width).1 <= 1,
{
    if word > width && width > 0 {
        assert(0 <= (word - 1) % width < width) by (nonlinear_arith)
            requires
                width > 0,
                word > 0,
        ;
        assert((word - 1) / width >= 0) by (nonlinear_arith)
            requires
                width > 0,
                word > 0,
        ;
    }
}

/// The number of rows that words of the given widths take in a view
/// `view_width` columns wide.
pub fn count_rows(words: &Vec<usize>, view_width: u16) -> (h: u16)
    ensures
        h == wrapped_height(words@, view_width as int),
{
    let width = view_width as usize;
    let mut h: usize = 1;
    let mut w: usize = 0;
    let mut i: usize = 0;
    assert(words@.take(0) =~= Seq::<usize>::empty());
    while i < words.len()
        invariant
            i <= words.len(),
            width == view_width,
            1 <= h < MAX_HEIGHT,
            (h as int, w as int) == wrap_all(words@.take(i as int), width as int),
            width > 0 ==> w <= width + 1,
            width == 0 ==> w <= 1,
        decreases words.len() - i,
    {
        let word = words[i];
        proof {
            let after = words@.take(i + 1);
            assert(after.drop_last() =~= words@.take(i as int));
            assert(after.last() == word);
            lemma_wrap_step_bounds((h as int, w as int), word as int, width as int);
            lemma_wrap_grows(words@, i + 1, width as int);
        }
        if w > 0 && (w > width || word > width - w) {
            h += 1;
            w = 0;
        }
        if word <= width {
            w = w + word + 1;
        } else if width > 0 {
            let extra = (word - 1) / width;
            if extra >= MAX_HEIGHT - h {
                return u16::MAX;
            }
            h = h + extra;
            w = w + (word - 1) % width + 2;
        } else {
            return u16::MAX;
        }
        if h >= MAX_HEIGHT {
            return u16::MAX;
        }
        i += 1;
    }
    assert(words@.take(i as int) =~= words@);
    h as u16
}

/// The rows and columns that `wrap_all` gives are in their bounds.
proof fn lemma_wrap_all_bounds(words: Seq<usize>, width: int)
    requires
        0 <= width,
    ensures
        wrap_all(words, width).0 >= 1,
        0 <= wrap_all(words, width).1,
        width > 0 ==> wrap_all(words, width).1 <= width + 1,
    decreases words.len(),
{
    if words.len() > 0 {
        lemma_wrap_all_bounds(words.drop_last(), width);
        let state = wrap_all(words.drop_last(), width);
        let word = words.last() as int;
        if width > 0 {
            lemma_wrap_step_bounds(state, word, width);
        } else {
            assert(wrap_step(state, word, width).0 >= state.0);
            assert(wrap_step(state, word, width).1 >= 0);
        }
    }
}

/// The rows in use never get fewer as more words are set.
pub proof fn lemma_wrap_grows(words: Seq<usize>, n: int, width: int)
    requires
        0 <= n <= words.len(),
        0 <= width,
    ensures
        1 <= wrap_all(words.take(n), width).0 <= wrap_all(words, width).0,
    decreases words.len() - n,
{
    lemma_wrap_all_bounds(words.take(n), width);
    if n == words.len() {
        assert(words.take(n) =~= words);
    } else {
        lemma_wrap_grows(words, n + 1, width);
        let after = words.take(n + 1);
        assert(after.drop_last() =~= words.take(n));
        let state = wrap_all(words.take(n), width);
        let word = after.last() as int;
        if word > width && width > 0 {
            assert((word - 1) / width >= 0) by (nonlinear_arith)
                requires
                    width > 0,
                    word > 0,
            ;
        }
    }
}

/// One line of a view: a message.
#[derive(Clone, Debug)]
struct Line {
    message: Message,
}

impl Line {
    fn new(message: Message) -> (line: Line)
        ensures
            line.message == message,
    {
        Line { message }
    }

    /// The number of rows that the line takes in a view `view_width_16`
    /// columns wide.
    fn height(&self, view_options: &ViewOptions, view_width_16: u16) -> (h: u16)
        ensures
            h == message_height(self.message@, *view_options, view_width_16 as int),
    {
        let text = match self.message.render(view_options) {
            Some(text) => text,
            None => {
                return 0;
            },
        };
        let words = split_words(text.as_str());
        let mut widths: Vec<usize> = Vec::new();
        let mut i: usize = 0;
        while i < words.len()
            invariant
                i <= words.len(),
                words.deep_view() == words_of(text@),
                widths@ == word_widths(text@).take(i as int),
            decreases words.len() - i,
        {
            let w = width_of_text(words[i]);
            assert(words.deep_view()[i as int] == words@[i as int]@);
            assert(word_widths(text@).take(i + 1) =~= word_widths(text@).take(i as int).push(w));
            widths.push(w);
            i += 1;
        }
        assert(word_widths(text@).take(i as int) =~= word_widths(text@));
        count_rows(&widths, view_width_16)
    }
}

/// A view as plain values: its lines, oldest first; the index of the first
/// line that is drawn; the largest such index that leaves the view filled;
/// the options; the name of the chat; and whether its lines are logged.
pub struct TailViewModel {
    pub lines: Seq<MessageView>,
    pub start: int,
    pub max_start: int,
    pub options: ViewOptions,
    pub name: Seq<char>,
    pub logging: bool,
}

/// How far a view of the given height scrolls at once: half its height, and
/// one row at least.
pub open spec fn scroll_delta(height: u16) -> int {
    if height > 1 {
        height as int / 2
    } else {
        1
    }
}

/// The rows that the lines from index `from` on take together.
pub open spec fn rows_from(lines: Seq<MessageView>, opts: ViewOptions, width: int, from: int) -> int
    decreases lines.len() - from,
{
    if from < 0 || from >= lines.len() {
        0
    } else {
        message_height(lines[from], opts, width) + rows_from(lines, opts, width, from + 1)
    }
}

/// The texts of the lines that are not hidden, in their order.
pub open spec fn shown(lines: Seq<MessageView>, opts: ViewOptions) -> Seq<Seq<char>>
    decreases lines.len(),
{
    if lines.len() == 0 {
        Seq::empty()
    } else {
        let head = shown(lines.drop_last(), opts);
        match lines.last().render(opts) {
            Some(text) => head.push(text),
            None => head,
        }
    }
}

impl TailViewModel {
    /// The view after it was scrolled up in an area of the given height.
    pub open spec fn scroll_up(self, height: u16) -> TailViewModel {
        TailViewModel {
            start: if self.start >= scroll_delta(height) {
                self.start - scroll_delta(height)
            } else {
                0
            },
            ..self
        }
    }

    /// The view after it was scrolled down in an area of the given height:
    /// never beyond the point that leaves the view filled.
    pub open spec fn scroll_down(self, height: u16) -> TailViewModel {
        let moved = if self.start + scroll_delta(height) <= usize::MAX {
            self.start + scroll_delta(height)
        } else {
            self.start
        };
        TailViewModel {
            start: if moved <= self.max_start {
                moved
            } else {
                self.max_start
            },
            ..self
        }
    }

    /// The view after its first line went out of sight: the point that
    /// leaves the view filled moves one line on, but not beyond the last
    /// line, and the view follows where it scrolls by itself and stood at
    /// that point.
    pub open spec fn auto_scroll(self) -> TailViewModel {
        let follows = self.options.autoscroll && self.start == self.max_start;
        let next = if self.max_start + 1 <= usize::MAX {
            self.max_start + 1
        } else {
            self.max_start
        };
        let max_start = if self.lines.len() > 0 && next > self.lines.len() - 1 {
            self.lines.len() - 1
        } else {
            next
        };
        TailViewModel {
            max_start,
            start: if follows {
                max_start
            } else {
                self.start
            },
            ..self
        }
    }

    /// The view after the lines from index `from` on, which take `total`
    /// rows, were fitted into `avail` rows: as long as they take more, the
    /// first of them goes out of sight.
    pub open spec fn settle(self, from: int, total: int, avail: int, width: int) -> TailViewModel
        decreases self.lines.len() - from,
    {
        if avail < total && 0 <= from < self.lines.len() {
            self.auto_scroll().settle(
                from + 1,
                total - message_height(self.lines[from], self.options, width),
                avail,
                width,
            )
        } else {
            self
        }
    }

    /// The view after it was fitted into an area: the lines from the point
    /// that left the view filled are fitted into the rows of the area.
    pub open spec fn fit(self, area: Area) -> TailViewModel {
        self.settle(
            self.max_start,
            rows_from(self.lines, self.options, area.width as int, self.max_start),
            area.height as int,
            area.width as int,
        )
    }

    /// The texts that are drawn: those of the lines from the first drawn
    /// line on that are not hidden.
    pub open spec fn drawn(self) -> Seq<Seq<char>> {
        if 0 <= self.start <= self.lines.len() {
            shown(self.lines.skip(self.start), self.options)
        } else {
            Seq::empty()
        }
    }

    /// The marks of the view: `S` where it does not scroll by itself, `L`
    /// where its lines are logged.
    pub open spec fn status_line(self) -> Seq<char> {
        (if self.options.autoscroll {
            Seq::<char>::empty()
        } else {
            seq!['S']
        }) + (if self.logging {
            seq!['L']
        } else {
            Seq::<char>::empty()
        })
    }
}

/// A view of one chat that follows its last line and can be scrolled.
#[derive(Clone, Debug)]
pub struct TailView {
    /// All the lines of the chat.
    history: Vec<Line>,
    /// The index of the first line that is drawn.
    start: usize,
    /// The largest index to start drawing at.
    max_start: usize,
    /// How the lines are shown.
    options: ViewOptions,
    /// The name of the chat.
    name: String,
    /// Whether the lines are written to a log.
    logging: bool,
}

/// The messages of the lines.
spec fn messages_of(history: Seq<Line>) -> Seq<MessageView> {
    history.map_values(|line: Line| line.message@)
}

impl View for TailView {
    type V = TailViewModel;

    closed spec fn view(&self) -> TailViewModel {
        TailViewModel {
            lines: messages_of(self.history@),
            start: self.start as int,
            max_start: self.max_start as int,
            options: self.options,
            name: self.name@,
            logging: self.logging,
        }
    }
}

impl TailView {
    /// An empty view of the chat of the given name.
    pub fn new(name: &str) -> (view: TailView)
        ensures
            view@ == (TailViewModel {
                lines: Seq::empty(),
                start: 0,
                max_start: 0,
                options: ViewOptions {
                    show_date: false,
                    show_arrivals: true,
                    show_departures: true,
                    autoscroll: true,
                },
                name: name@,
                logging: false,
            }),
    {
        let view = TailView {
            history: Vec::with_capacity(1000),
            start: 0,
            max_start: 0,
            options: ViewOptions::new(),
            name: name.to_owned(),
            logging: false,
        };
        assert(view@.lines =~= Seq::<MessageView>::empty());
        view
    }

    /// The name of the chat.
    pub fn name(&self) -> (name: &str)
        ensures
            name@ == self@.name,
    {
        self.name.as_str()
    }

    /// Adds a message at the end. Returns the text to write to the log:
    /// that of the message, where the lines are logged and the message is
    /// not hidden.
    pub fn add(&mut self, message: Message) -> (logged: Option<String>)
        ensures
            final(self)@ == (TailViewModel {
                lines: old(self)@.lines.push(message@),
                ..old(self)@
            }),
            text_option_view(logged) == if old(self)@.logging {
                message@.render(old(self)@.options)
            } else {
                None
            },
    {
        let logged = if self.logging {
            message.render(&self.options)
        } else {
            None
        };
        let ghost before = messages_of(self.history@);
        self.history.push(Line::new(message));
        assert(messages_of(self.history@) =~= before.push(message@));
        logged
    }

    /// Scrolls up by half the height of the area.
    pub fn scroll_up(&mut self, rect: Area)
        ensures
            final(self)@ == old(self)@.scroll_up(rect.height),
    {
        let delta: usize = if rect.height > 1 {
            (rect.height / 2) as usize
        } else {
            1
        };
        self.start = if self.start >= delta {
            self.start - delta
        } else {
            0
        };
    }

    /// Scrolls down by half the height of the area, as far as the view
    /// stays filled.
    pub fn scroll_down(&mut self, rect: Area)
        ensures
            final(self)@ == old(self)@.scroll_down(rect.height),
    {
        let delta: usize = if rect.height > 1 {
            (rect.height / 2) as usize
        } else {
            1
        };
        match self.start.checked_add(delta) {
            Some(moved) => {
                self.start = moved;
            },
            None => {},
        }
        if self.start > self.max_start {
            self.start = self.max_start;
        }
    }

    /// Fits the view into the area: finds the largest index to start
    /// drawing at.
    fn update_max_start(&mut self, area: Area)
        ensures
            final(self)@ == old(self)@.fit(area),
    {
        let len = self.history.len();
        let first = self.max_start;
        let mut heights: Vec<u16> = Vec::new();
        let mut total: u128 = 0;
        if first < len {
            let mut i: usize = len;
            while i > first
                invariant
                    first <= i <= len,
                    len == self.history@.len(),
                    self@ == old(self)@,
                    heights@.len() == len - i,
                    forall|j: int|
                        i <= j < len ==> heights@[len - 1 - j] == message_height(
                            #[trigger] self@.lines[j],
                            self.options,
                            area.width as int,
                        ),
                    total == rows_from(self@.lines, self.options, area.width as int, i as int),
                    total <= (len - i) * MAX_HEIGHT,
                decreases i,
            {
                i -= 1;
                let h = self.history[i].height(&self.options, area.width);
                assert(self@.lines[i as int] == self.history@[i as int].message@);
                assert((len - i) * MAX_HEIGHT == (len - (i + 1)) * MAX_HEIGHT + MAX_HEIGHT)
                    by (nonlinear_arith);
                assert(len * MAX_HEIGHT <= usize::MAX * MAX_HEIGHT) by (nonlinear_arith)
                    requires
                        len <= usize::MAX,
                ;
                assert((len - i) * MAX_HEIGHT <= len * MAX_HEIGHT) by (nonlinear_arith)
                    requires
                        0 <= i <= len,
                ;
                heights.push(h);
                total = total + h as u128;
            }
        }
        let ghost start_model = self@;
        let avail = area.height as u128;
        let mut from: usize = first;
        while avail < total && heights.len() > 0
            invariant
                self@.lines == start_model.lines,
                self@.options == start_model.options,
                first <= from,
                from <= len || heights@.len() == 0,
                len == self@.lines.len(),
                heights@.len() == if from < len {
                    len - from
                } else {
                    0
                },
                forall|j: int|
                    from <= j < len ==> heights@[len - 1 - j] == message_height(
                        #[trigger] self@.lines[j],
                        self@.options,
                        area.width as int,
                    ),
                start_model.fit(area) == self@.settle(
                    from as int,
                    total as int,
                    avail as int,
                    area.width as int,
                ),
                total == rows_from(self@.lines, self@.options, area.width as int, from as int),
            decreases heights@.len(),
        {
            let h = heights.pop().unwrap();
            proof {
                assert(h == message_height(
                    self@.lines[from as int],
                    self@.options,
                    area.width as int,
                ));
                lemma_rows_nonnegative(self@.lines, self@.options, area.width as int, from + 1);
            }
            total = total - h as u128;
            self.auto_scroll();
            from += 1;
        }
    }

    /// Moves the largest index to start drawing at one line on, and the
    /// view with it where it follows.
    fn auto_scroll(&mut self)
        ensures
            final(self)@ == old(self)@.auto_scroll(),
    {
        let increment_start = self.options.autoscroll && self.start == self.max_start;
        match self.max_start.checked_add(1) {
            Some(next) => {
                self.max_start = next;
            },
            None => {},
        }
        if self.history.len() > 0 && self.max_start > self.history.len() - 1 {
            self.max_start = self.history.len() - 1;
        }
        if increment_start {
            self.start = self.max_start;
        }
    }

    /// Fits the view into the area and gives the texts to draw in it.
    pub fn draw(&mut self, area: Area) -> (texts: Vec<String>)
        ensures
            final(self)@ == old(self)@.fit(area),
            texts.deep_view() == final(self)@.drawn(),
    {
        self.update_max_start(area);
        let mut texts: Vec<String> = Vec::new();
        if self.start > self.history.len() {
            assert(texts.deep_view() =~= Seq::<Seq<char>>::empty());
            return texts;
        }
        let ghost rest = self@.lines.skip(self.start as int);
        let mut i: usize = self.start;
        assert(rest.take(0) =~= Seq::<MessageView>::empty());
        assert(texts.deep_view() =~= Seq::<Seq<char>>::empty());
        while i < self.history.len()
            invariant
                self.start <= i <= self.history@.len(),
                rest == self@.lines.skip(self.start as int),
                texts.deep_view() == shown(rest.take(i - self.start), self.options),
            decreases self.history@.len() - i,
        {
            let ghost before = texts.deep_view();
            proof {
                let after = rest.take(i + 1 - self.start);
                assert(after.drop_last() =~= rest.take(i - self.start));
                assert(after.last() == self.history@[i as int].message@);
            }
            match self.history[i].message.render(&self.options) {
                Some(text) => {
                    texts.push(text);
                    assert(texts.deep_view() =~= before.push(text@));
                },
                None => {},
            }
            i += 1;
        }
        assert(rest.take(i - self.start) =~= rest);
        texts
    }

    /// Stops logging where the lines are logged. Returns whether they were
    /// not: then a log is to be opened, and `enable_logging` to be called
    /// when it stands open.
    pub fn toggle_logging(&mut self) -> (open: bool)
        ensures
            open == !old(self)@.logging,
            final(self)@ == (TailViewModel { logging: false, ..old(self)@ }),
    {
        let open = !self.logging;
        self.logging = false;
        open
    }

    /// Takes note that a log stands open: from now on the lines are logged.
    pub fn enable_logging(&mut self)
        ensures
            final(self)@ == (TailViewModel { logging: true, ..old(self)@ }),
    {
        self.logging = true;
    }

    /// Shows the day with the time, or no longer.
    pub fn toggle_show_date(&mut self)
        ensures
            final(self)@ == (TailViewModel {
                options: ViewOptions {
                    show_date: !old(self)@.options.show_date,
                    ..old(self)@.options
                },
                ..old(self)@
            }),
    {
        self.options.show_date = !self.options.show_date;
    }

    /// Shows arrivals, or no longer.
    pub fn toggle_show_arrivals(&mut self)
        ensures
            final(self)@ == (TailViewModel {
                options: ViewOptions {
                    show_arrivals: !old(self)@.options.show_arrivals,
                    ..old(self)@.options
                },
                ..old(self)@
            }),
    {
        self.options.show_arrivals = !self.options.show_arrivals;
    }

    /// Shows departures, or no longer.
    pub fn toggle_show_departures(&mut self)
        ensures
            final(self)@ == (TailViewModel {
                options: ViewOptions {
                    show_departures: !old(self)@.options.show_departures,
                    ..old(self)@.options
                },
                ..old(self)@
            }),
    {
        self.options.show_departures = !self.options.show_departures;
    }

    /// Scrolls by itself, or no longer.
    pub fn toggle_autoscroll(&mut self)
        ensures
            final(self)@ == (TailViewModel {
                options: ViewOptions {
                    autoscroll: !old(self)@.options.autoscroll,
                    ..old(self)@.options
                },
                ..old(self)@
            }),
    {
        self.options.autoscroll = !self.options.autoscroll;
    }

    /// The marks of the view: `S` where it does not scroll by itself, `L`
    /// where its lines are logged.
    pub fn status_line(&self) -> (s: String)
        ensures
            s@ == self@.status_line(),
    {
        let mut s = String::new();
        if !self.options.autoscroll {
            s.append("S");
            proof {
                reveal_strlit("S");
            }
            assert(s@ =~= seq!['S']);
        }
        if self.logging {
            let ghost before = s@;
            s.append("L");
            proof {
                reveal_strlit("L");
            }
            assert(s@ =~= before + seq!['L']);
        }
        assert(s@ =~= self@.status_line());
        s
    }
}

/// Lines take no fewer than no rows.
pub proof fn lemma_rows_nonnegative(
    lines: Seq<MessageView>,
    opts: ViewOptions,
    width: int,
    from: int,
)
    requires
        0 <= width,
    ensures
        rows_from(lines, opts, width, from) >= 0,
    decreases lines.len() - from,
{
    if 0 <= from < lines.len() {
        lemma_rows_nonnegative(lines, opts, width, from + 1);
        match lines[from].render(opts) {
            Some(text) => {
                lemma_wrap_grows(word_widths(text), 0, width);
            },
            None => {},
        }
    }
}

} // verus!
