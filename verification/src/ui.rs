//! The console without the drawing: what each key asks for, how an exchange
//! is written down, and the scrolling text area (a bounded buffer of lines,
//! the scroll position, and the text of the window that a screen of a given
//! height shows).

use std::collections::VecDeque;
use vstd::prelude::*;
use vstd::string::*;

verus! {

/// Model of the text area.
pub struct TextAreaView {
    pub lines: Seq<Seq<char>>,
    pub vertical_scroll: usize,
    pub horizontal_scroll: usize,
    pub capacity: usize,
    pub content_length: usize,
}

/// A text area that keeps the newest lines, as many as its capacity, and
/// shows a window of them.
#[derive(Clone, Debug)]
pub struct ScrollableTextArea {
    buffer: VecDeque<String>,
    vertical_scroll: usize,
    capacity: usize,
    horizontal_scroll: usize,
    content_length: usize,
}

impl View for ScrollableTextArea {
    type V = TextAreaView;

    closed spec fn view(&self) -> TextAreaView {
        TextAreaView {
            lines: self.buffer.deep_view(),
            vertical_scroll: self.vertical_scroll,
            horizontal_scroll: self.horizontal_scroll,
            capacity: self.capacity,
            content_length: self.content_length,
        }
    }
}

/// The lines of an area after one more line: the oldest line leaves first
/// where the area holds as many lines as its capacity, or more.
pub open spec fn with_line(lines: Seq<Seq<char>>, capacity: usize, line: Seq<char>) -> Seq<
    Seq<char>,
> {
    if lines.len() >= capacity && lines.len() > 0 {
        lines.skip(1).push(line)
    } else {
        lines.push(line)
    }
}

/// Index of the first line that a window of `height` rows shows, of `count`
/// lines scrolled back by `scroll`.
pub open spec fn window_start(count: usize, height: u16, scroll: usize) -> usize {
    count.saturating_sub(height as usize).saturating_sub(scroll)
}

/// Index behind the last line that the window shows. The newest line waits
/// below the window until the next one arrives.
pub open spec fn window_end(count: usize, scroll: usize) -> usize {
    count.saturating_sub(1).saturating_sub(scroll)
}

/// The lines that the window shows.
pub open spec fn window(lines: Seq<Seq<char>>, height: u16, scroll: usize) -> Seq<Seq<char>> {
    let start = window_start(lines.len() as usize, height, scroll);
    let end = window_end(lines.len() as usize, scroll);
    if start < end {
        lines.subrange(start as int, end as int)
    } else {
        Seq::empty()
    }
}

/// `lines` as one text, a line feed behind each line.
pub open spec fn joined(lines: Seq<Seq<char>>) -> Seq<char>
    decreases lines.len(),
{
    if lines.len() == 0 {
        Seq::empty()
    } else {
        joined(lines.drop_last()) + lines.last() + seq!['\n']
    }
}

impl ScrollableTextArea {
    /// An empty area for `line_capacity` lines, not scrolled.
    pub fn new(line_capacity: usize) -> (area: ScrollableTextArea)
        ensures
            area@ == (TextAreaView {
                lines: Seq::empty(),
                vertical_scroll: 0,
                horizontal_scroll: 0,
                capacity: line_capacity,
                content_length: 0,
            }),
    {
        let area = ScrollableTextArea {
            buffer: VecDeque::with_capacity(line_capacity),
            vertical_scroll: 0,
            horizontal_scroll: 0,
            capacity: line_capacity,
            content_length: 0,
        };
        assert(area.buffer.deep_view() =~= Seq::<Seq<char>>::empty());
        area
    }

    /// The number of lines that the area holds.
    pub fn len(&self) -> (n: usize)
        ensures
            n == self@.lines.len(),
    {
        self.buffer.len()
    }

    /// How many lines the view is scrolled back.
    pub fn vertical_scroll(&self) -> (scroll: usize)
        ensures
            scroll == self@.vertical_scroll,
    {
        self.vertical_scroll
    }

    /// The position that the scrollbar shows: the vertical scroll.
    pub fn scrollbar_position(&self) -> (position: usize)
        ensures
            position == self@.vertical_scroll,
    {
        self.vertical_scroll
    }

    /// The number of lines that the area is meant for.
    pub fn capacity(&self) -> (capacity: usize)
        ensures
            capacity == self@.capacity,
    {
        self.capacity
    }

    /// The content length that was set last.
    pub fn content_length(&self) -> (length: usize)
        ensures
            length == self@.content_length,
    {
        self.content_length
    }

    /// Scrolls back by `to` lines, as far as the position can count. Always
    /// succeeds.
    pub fn scroll_up(&mut self, to: usize) -> (done: bool)
        ensures
            done,
            final(self)@ == (TextAreaView {
                vertical_scroll: old(self)@.vertical_scroll.saturating_add(to),
                ..old(self)@
            }),
    {
        self.vertical_scroll = self.vertical_scroll.saturating_add(to);
        true
    }

    /// Scrolls forward by `to` lines, to the newest line at most. Always
    /// succeeds.
    pub fn scroll_down(&mut self, to: usize) -> (done: bool)
        ensures
            done,
            final(self)@ == (TextAreaView {
                vertical_scroll: old(self)@.vertical_scroll.saturating_sub(to),
                ..old(self)@
            }),
    {
        self.vertical_scroll = self.vertical_scroll.saturating_sub(to);
        true
    }

    /// Stores the length of the content that the scrollbar stands for.
    pub fn set_content_length(&mut self, length: usize)
        ensures
            final(self)@ == (TextAreaView { content_length: length, ..old(self)@ }),
    {
        self.content_length = length;
    }

    /// Adds `line` as the newest line. An area that is full gives up its
    /// oldest line first.
    pub fn add_line(&mut self, line: String)
        ensures
            final(self)@ == (TextAreaView {
                lines: with_line(old(self)@.lines, old(self)@.capacity, line@),
                ..old(self)@
            }),
    {
        let ghost before = self.buffer.deep_view();
        if self.buffer.len() >= self.capacity {
            let _ = self.buffer.pop_front();
        }
        let ghost kept = self.buffer.deep_view();
        assert(kept =~= if before.len() >= self.capacity && before.len() > 0 {
            before.skip(1)
        } else {
            before
        });
        self.buffer.push_back(line);
        assert(self.buffer.deep_view() =~= kept.push(line@));
    }

    /// The text of the window that a screen of `height` rows shows: the lines
    /// of the window, a line feed behind each.
    pub fn render(&self, height: u16) -> (screen_content: String)
        ensures
            screen_content@ == joined(window(self@.lines, height, self@.vertical_scroll)),
    {
        let n: usize = self.buffer.len();
        let start: usize = n.saturating_sub(height as usize).saturating_sub(self.vertical_scroll);
        let end: usize = n.saturating_sub(1).saturating_sub(self.vertical_scroll);
        let mut screen_content = String::new();
        if start >= end {
            return screen_content;
        }
        let ghost shown = self@.lines.subrange(start as int, end as int);
        let mut l: usize = start;
        proof {
            reveal_strlit("\n");
            assert(shown.take(0) =~= Seq::<Seq<char>>::empty());
        }
        while l < end
            invariant
                start <= l <= end < n,
                n == self.buffer@.len(),
                shown == self@.lines.subrange(start as int, end as int),
                screen_content@ == joined(shown.take(l - start)),
            decreases end - l,
        {
            proof {
                reveal_strlit("\n");
                let next = shown.take(l - start + 1);
                assert(next.drop_last() =~= shown.take(l - start));
                assert(next.last() == self.buffer@[l as int]@);
            }
            screen_content.append(self.buffer[l].as_str());
            screen_content.append("\n");
            proof {
                assert(screen_content@ =~= joined(shown.take(l - start)) + self.buffer@[l as int]@
                    + seq!['\n']);
            }
            l = l + 1;
        }
        assert(shown.take(end - start) =~= shown);
        screen_content
    }
}

/// Lines that one press of an arrow key scrolls by.
pub const SCROLL_STEP: usize = 4;

/// What stands in front of the command in the record of an exchange.
pub const INBOUND_MARK: &'static str = "◁◁  ";

/// What stands between the command and the response line.
pub const ARROW: &'static str = " -> ";

/// What stands in front of a response line that was sent.
pub const OUTBOUND_MARK: &'static str = "▶ ";

/// The line that records a response that could not be sent.
pub const SEND_FAILURE: &'static str = "failed to send this command ->";

/// A key, as far as the console tells keys apart.
#[derive(Clone, Copy, Debug, PartialEq, Eq, Structural)]
pub enum Key {
    /// A key that types a character.
    Char(char),
    /// The arrow that points up.
    Up,
    /// The arrow that points down.
    Down,
    /// Any other key.
    Other,
}

/// What the console does on a key.
#[derive(Clone, Copy, Debug, PartialEq, Eq, Structural)]
pub enum UiAction {
    /// Leave the console.
    Quit,
    /// Scroll back by so many lines.
    ScrollUp(usize),
    /// Scroll forward by so many lines.
    ScrollDown(usize),
    /// Switch the device on or off.
    ToggleSimPower,
    /// Switch the GNSS receiver on or off.
    ToggleGnssPower,
    /// Do nothing.
    Ignore,
}

/// What a key asks for. Only a key that is pressed counts. `alt` says that
/// Alt, and no other modifier, is held: Alt+q quits, Alt+g switches the
/// device, Alt+h switches the GNSS receiver. The arrow keys scroll, whatever
/// is held with them.
pub open spec fn action_for(key: Key, alt: bool, pressed: bool) -> UiAction {
    if !pressed {
        UiAction::Ignore
    } else if key == Key::Char('q') && alt {
        UiAction::Quit
    } else if key == Key::Up {
        UiAction::ScrollUp(SCROLL_STEP)
    } else if key == Key::Down {
        UiAction::ScrollDown(SCROLL_STEP)
    } else if key == Key::Char('g') && alt {
        UiAction::ToggleSimPower
    } else if key == Key::Char('h') && alt {
        UiAction::ToggleGnssPower
    } else {
        UiAction::Ignore
    }
}

/// What the console does on `key`.
pub fn key_action(key: Key, alt: bool, pressed: bool) -> (action: UiAction)
    ensures
        action == action_for(key, alt, pressed),
{
    if !pressed {
        return UiAction::Ignore;
    }
    match key {
        Key::Up => UiAction::ScrollUp(SCROLL_STEP),
        Key::Down => UiAction::ScrollDown(SCROLL_STEP),
        Key::Char(c) => {
            if c == 'q' && alt {
                UiAction::Quit
            } else if c == 'g' && alt {
                UiAction::ToggleSimPower
            } else if c == 'h' && alt {
                UiAction::ToggleGnssPower
            } else {
                UiAction::Ignore
            }
        },
        Key::Other => UiAction::Ignore,
    }
}

/// The record of one response line: the command, and the line if it was
/// sent.
pub open spec fn exchange_entry(line: Seq<char>, reply: Seq<char>, sent: bool) -> Seq<char> {
    INBOUND_MARK@ + line + ARROW@ + if sent {
        OUTBOUND_MARK@ + reply
    } else {
        Seq::empty()
    }
}

/// The record of an exchange: an entry for each line of the response, in
/// order.
pub open spec fn exchange_record(line: Seq<char>, batch: Seq<Seq<char>>, sent: bool) -> Seq<char>
    decreases batch.len(),
{
    if batch.len() == 0 {
        Seq::empty()
    } else {
        exchange_record(line, batch.drop_last(), sent) + exchange_entry(line, batch.last(), sent)
    }
}

/// Writes down the exchange of the command `line` and its response `batch`
/// for the text area. `sent` says whether the response went out.
pub fn transcript(line: &str, batch: &Vec<String>, sent: bool) -> (record: String)
    ensures
        record@ == exchange_record(line@, batch.deep_view(), sent),
{
    let mut record = String::new();
    let mut i: usize = 0;
    assert(batch.deep_view().take(0) =~= Seq::<Seq<char>>::empty());
    while i < batch.len()
        invariant
            i <= batch.len(),
            record@ == exchange_record(line@, batch.deep_view().take(i as int), sent),
        decreases batch.len() - i,
    {
        let ghost before = record@;
        proof {
            let next = batch.deep_view().take(i + 1);
            assert(next.drop_last() =~= batch.deep_view().take(i as int));
            assert(next.last() == batch@[i as int]@);
        }
        record.append(INBOUND_MARK);
        record.append(line);
        record.append(ARROW);
        if sent {
            record.append(OUTBOUND_MARK);
            record.append(batch[i].as_str());
        }
        assert(record@ =~= before + exchange_entry(line@, batch@[i as int]@, sent));
        i = i + 1;
    }
    assert(batch.deep_view().take(batch.len() as int) =~= batch.deep_view());
    record
}

} // verus!
