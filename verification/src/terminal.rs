//! The client's render state: a scrollable log of messages above an input line.
//!
//! Nothing here touches a terminal. `Terminal::handle_event` and
//! `Terminal::receive_line` decide what changes and what the caller must do
//! next; `Terminal::draw` describes the frame that the caller paints.

use crate::message::{display_text, format_line, parse_line, Message, MessageView};
use vstd::prelude::*;
use vstd::string::*;

verus! {

/// Trusted, not proved: `String::push` of the standard library. By its
/// documentation the string afterwards is the string before with `ch`
/// appended, and nothing else.
pub assume_specification[ String::push ](s: &mut String, ch: char)
    ensures
        final(s)@ == old(s)@.push(ch),
;

/// The prompt that opens the input row.
pub open spec fn prompt() -> Seq<char> {
    " Message: "@
}

/// The input that ends the session instead of being sent.
pub open spec fn quit_command() -> Seq<char> {
    "/quit"@
}

/// Rows left for messages: all but the separator, a spare row and the input
/// row. A terminal of fewer than three rows has none.
pub open spec fn viewport_height(height: u16) -> nat {
    if height >= 3 {
        (height - 3) as nat
    } else {
        0
    }
}

/// The bottom row of a terminal of the given height; row 0 where it has no rows.
pub open spec fn last_row(height: u16) -> u16 {
    if height >= 1 {
        (height - 1) as u16
    } else {
        0
    }
}

/// The largest scroll offset for a log of `total` messages.
pub open spec fn max_offset(total: nat, height: u16) -> nat {
    if total > viewport_height(height) {
        (total - viewport_height(height)) as nat
    } else {
        0
    }
}

/// The column behind the prompt and `buffer_len` typed characters, as a
/// terminal coordinate (which wraps at 65536).
pub open spec fn cursor_column(buffer_len: nat) -> u16 {
    ((prompt().len() + buffer_len) % 0x10000) as u16
}

/// A row of `width` underscores.
pub open spec fn separator_line(width: u16) -> Seq<char> {
    Seq::new(width as nat, |i: int| '_')
}

/// The render state as contracts see it.
pub struct TerminalView {
    pub height: u16,
    pub width: u16,
    pub messages: Seq<MessageView>,
    pub input_buffer: Seq<char>,
    pub msg_offset: nat,
}

impl TerminalView {
    /// The scroll offset never leaves `[0, max_offset]`.
    pub open spec fn wf(self) -> bool {
        self.msg_offset <= max_offset(self.messages.len(), self.height)
    }

    /// Index of the first visible message.
    pub open spec fn visible_start(self) -> int {
        let start = self.messages.len() - viewport_height(self.height) - self.msg_offset;
        if start < 0 {
            0
        } else {
            start
        }
    }

    /// Index behind the last visible message.
    pub open spec fn visible_end(self) -> int {
        let end = self.messages.len() - self.msg_offset;
        if end < 0 {
            0
        } else {
            end
        }
    }

    /// The messages in the viewport, oldest first.
    pub open spec fn visible(self) -> Seq<MessageView> {
        self.messages.subrange(self.visible_start(), self.visible_end())
    }
}

/// What the user or the terminal did.
#[derive(Clone, Copy, Debug, PartialEq, Eq)]
pub enum InputEvent {
    /// A printable character was typed.
    Char(char),
    Backspace,
    Enter,
    /// The arrow-up key.
    Up,
    /// The arrow-down key.
    Down,
    /// The mouse wheel, turned up.
    ScrollUp,
    /// The mouse wheel, turned down.
    ScrollDown,
    /// The terminal now has this width and height.
    Resize(u16, u16),
    /// Anything else.
    Other,
}

/// What the caller does after an event.
#[derive(Debug, PartialEq, Eq)]
pub enum ClientAction {
    Nothing,
    /// Print the character at the cursor.
    Echo(char),
    /// Erase the glyph left of the cursor.
    Erase,
    /// Repaint the frame.
    Redraw,
    /// Write this line to the relay, then repaint the frame.
    Send(String),
    /// Restore the terminal and end the session. Nothing is written.
    Quit,
}

/// A `ClientAction` as contracts see it.
pub enum ClientActionView {
    Nothing,
    Echo(char),
    Erase,
    Redraw,
    Send(Seq<char>),
    Quit,
}

impl View for ClientAction {
    type V = ClientActionView;

    open spec fn view(&self) -> ClientActionView {
        match self {
            ClientAction::Nothing => ClientActionView::Nothing,
            ClientAction::Echo(c) => ClientActionView::Echo(*c),
            ClientAction::Erase => ClientActionView::Erase,
            ClientAction::Redraw => ClientActionView::Redraw,
            ClientAction::Send(line) => ClientActionView::Send(line@),
            ClientAction::Quit => ClientActionView::Quit,
        }
    }
}

/// The state after event `e` in state `t`.
pub open spec fn next_state(t: TerminalView, e: InputEvent) -> TerminalView {
    match e {
        InputEvent::Char(c) => TerminalView { input_buffer: t.input_buffer.push(c), ..t },
        InputEvent::Backspace => if t.input_buffer.len() > 0 {
            TerminalView { input_buffer: t.input_buffer.drop_last(), ..t }
        } else {
            t
        },
        InputEvent::Enter => if t.input_buffer == quit_command() {
            t
        } else {
            TerminalView { input_buffer: Seq::empty(), ..t }
        },
        InputEvent::Up | InputEvent::ScrollUp => if t.msg_offset < max_offset(
            t.messages.len(),
            t.height,
        ) {
            TerminalView { msg_offset: t.msg_offset + 1, ..t }
        } else {
            t
        },
        InputEvent::Down | InputEvent::ScrollDown => if t.msg_offset > 0 {
            TerminalView { msg_offset: (t.msg_offset - 1) as nat, ..t }
        } else {
            t
        },
        InputEvent::Resize(width, height) => {
            let limit = max_offset(t.messages.len(), height);
            TerminalView {
                width,
                height,
                msg_offset: if t.msg_offset <= limit {
                    t.msg_offset
                } else {
                    limit
                },
                ..t
            }
        },
        InputEvent::Other => t,
    }
}

/// What the caller must do after event `e` in state `t`, for a client called `name`.
pub open spec fn next_action(t: TerminalView, e: InputEvent, name: Seq<char>) -> ClientActionView {
    match e {
        InputEvent::Char(c) => ClientActionView::Echo(c),
        InputEvent::Backspace => if t.input_buffer.len() > 0 {
            ClientActionView::Erase
        } else {
            ClientActionView::Nothing
        },
        InputEvent::Enter => if t.input_buffer == quit_command() {
            ClientActionView::Quit
        } else {
            ClientActionView::Send(format_line(name, t.input_buffer))
        },
        InputEvent::Up | InputEvent::ScrollUp => if t.msg_offset < max_offset(
            t.messages.len(),
            t.height,
        ) {
            ClientActionView::Redraw
        } else {
            ClientActionView::Nothing
        },
        InputEvent::Down | InputEvent::ScrollDown => if t.msg_offset > 0 {
            ClientActionView::Redraw
        } else {
            ClientActionView::Nothing
        },
        InputEvent::Resize(_, _) => ClientActionView::Redraw,
        InputEvent::Other => ClientActionView::Nothing,
    }
}

/// The state after a wire line arrived: its message appended, or, for a line
/// without a colon, nothing changed.
pub open spec fn after_line(t: TerminalView, line: Seq<char>, name: Seq<char>) -> TerminalView {
    match parse_line(line, name) {
        Some(m) => TerminalView { messages: t.messages.push(m), ..t },
        None => t,
    }
}

/// The state after a whole sequence of events.
pub open spec fn after_events(t: TerminalView, events: Seq<InputEvent>) -> TerminalView
    decreases events.len(),
{
    if events.len() == 0 {
        t
    } else {
        next_state(after_events(t, events.drop_last()), events.last())
    }
}

/// One operation on the display surface.
#[derive(Debug, PartialEq, Eq)]
pub enum DrawCommand {
    /// Clear the whole screen.
    Clear,
    /// Move the cursor to this column and row.
    MoveTo(u16, u16),
    /// Print this text at the cursor.
    Print(String),
}

/// A `DrawCommand` as contracts see it.
pub enum DrawCommandView {
    Clear,
    MoveTo(u16, u16),
    Print(Seq<char>),
}

impl View for DrawCommand {
    type V = DrawCommandView;

    open spec fn view(&self) -> DrawCommandView {
        match self {
            DrawCommand::Clear => DrawCommandView::Clear,
            DrawCommand::MoveTo(column, row) => DrawCommandView::MoveTo(*column, *row),
            DrawCommand::Print(text) => DrawCommandView::Print(text@),
        }
    }
}

/// The row on which the separator is drawn, right under the viewport.
pub open spec fn separator_row(height: u16) -> u16 {
    viewport_height(height) as u16
}

/// The commands that print `visible` from the top of the screen down: for
/// each message a move to the start of its row, then its text.
pub open spec fn message_rows(visible: Seq<MessageView>) -> Seq<DrawCommandView> {
    Seq::new(
        2 * visible.len(),
        |k: int|
            if k % 2 == 0 {
                DrawCommandView::MoveTo(0, (k / 2) as u16)
            } else {
                DrawCommandView::Print(display_text(visible[k / 2]))
            },
    )
}

/// One more visible message adds its two commands behind the others.
proof fn lemma_message_rows_push(visible: Seq<MessageView>, m: MessageView)
    ensures
        message_rows(visible.push(m)) == message_rows(visible).push(
            DrawCommandView::MoveTo(0, visible.len() as u16),
        ).push(DrawCommandView::Print(display_text(m))),
{
    let longer = message_rows(visible.push(m));
    let pushed = message_rows(visible).push(
        DrawCommandView::MoveTo(0, visible.len() as u16),
    ).push(DrawCommandView::Print(display_text(m)));
    assert(longer.len() == pushed.len());
    assert forall|k: int| 0 <= k < longer.len() implies longer[k] == pushed[k] by {
        if k < 2 * visible.len() {
            assert(k / 2 < visible.len());
            assert(visible.push(m)[k / 2] == visible[k / 2]);
        } else if k == 2 * visible.len() {
            assert(k / 2 == visible.len());
            assert(k % 2 == 0);
        } else {
            assert(k == 2 * visible.len() + 1);
            assert(k / 2 == visible.len());
            assert(k % 2 == 1);
        }
    }
    assert(longer =~= pushed);
}

/// The commands that open a repaint: clear the screen, cursor to the top left.
pub open spec fn frame_head() -> Seq<DrawCommandView> {
    seq![DrawCommandView::Clear, DrawCommandView::MoveTo(0, 0)]
}

/// The commands that close a repaint: the separator across the full width,
/// the prompt with the typed input on the last row, and the cursor put
/// behind the input.
pub open spec fn frame_foot(t: TerminalView) -> Seq<DrawCommandView> {
    seq![
        DrawCommandView::MoveTo(0, separator_row(t.height)),
        DrawCommandView::Print(separator_line(t.width)),
        DrawCommandView::MoveTo(0, last_row(t.height)),
        DrawCommandView::Print(prompt() + t.input_buffer),
        DrawCommandView::MoveTo(cursor_column(t.input_buffer.len()), last_row(t.height)),
    ]
}

/// The whole repaint of state `t`, in the order in which it is carried out.
pub open spec fn frame_of(t: TerminalView) -> Seq<DrawCommandView> {
    frame_head() + message_rows(t.visible()) + frame_foot(t)
}

/// The client's render state.
pub struct Terminal {
    height: u16,
    width: u16,
    messages: Vec<Message>,
    input_buffer: Vec<char>,
    msg_offset: usize,
}

impl View for Terminal {
    type V = TerminalView;

    closed spec fn view(&self) -> TerminalView {
        TerminalView {
            height: self.height,
            width: self.width,
            messages: self.messages@.map_values(|m: Message| m@),
            input_buffer: self.input_buffer@,
            msg_offset: self.msg_offset as nat,
        }
    }
}

impl Terminal {
    /// An empty log on a terminal of the given size, pinned to the latest message.
    pub fn new(width: u16, height: u16) -> (t: Terminal)
        ensures
            t@ == (TerminalView {
                height,
                width,
                messages: Seq::empty(),
                input_buffer: Seq::empty(),
                msg_offset: 0,
            }),
            t@.wf(),
    {
        let t = Terminal {
            height,
            width,
            messages: Vec::new(),
            input_buffer: Vec::new(),
            msg_offset: 0,
        };
        assert(t@.messages =~= Seq::empty());
        t
    }

    /// Where the cursor rests while typing: the column behind the prompt and
    /// the typed characters, on the last row.
    pub fn get_input_position(&self) -> (pos: (u16, u16))
        ensures
            pos.0 == cursor_column(self@.input_buffer.len()),
            pos.1 == last_row(self@.height),
    {
        proof {
            reveal_strlit(" Message: ");
        }
        let typed: usize = self.input_buffer.len() % 65536;
        let column: usize = (typed + 10) % 65536;
        let row: u16 = if self.height >= 1 {
            self.height - 1
        } else {
            0
        };
        (column as u16, row)
    }

    pub fn height(&self) -> (h: u16)
        ensures
            h == self@.height,
    {
        self.height
    }

    pub fn width(&self) -> (w: u16)
        ensures
            w == self@.width,
    {
        self.width
    }

    /// How far the view is scrolled back; 0 shows the latest message.
    pub fn msg_offset(&self) -> (offset: usize)
        ensures
            offset == self@.msg_offset,
    {
        self.msg_offset
    }

    pub fn message_count(&self) -> (n: usize)
        ensures
            n == self@.messages.len(),
    {
        self.messages.len()
    }

    /// The `i`-th message of the log, oldest first.
    pub fn message(&self, i: usize) -> (r: Option<&Message>)
        ensures
            r is Some <==> i < self@.messages.len(),
            r matches Some(m) ==> m@ == self@.messages[i as int],
    {
        if i < self.messages.len() {
            Some(&self.messages[i])
        } else {
            None
        }
    }

    /// What was typed so far.
    pub fn input_text(&self) -> (text: String)
        ensures
            text@ == self@.input_buffer,
    {
        let mut text = String::new();
        let mut i: usize = 0;
        while i < self.input_buffer.len()
            invariant
                i <= self.input_buffer@.len(),
                text@ == self.input_buffer@.subrange(0, i as int),
            decreases self.input_buffer@.len() - i,
        {
            text.push(self.input_buffer[i]);
            i += 1;
            assert(text@ =~= self.input_buffer@.subrange(0, i as int));
        }
        assert(text@ =~= self.input_buffer@);
        text
    }

    /// Rows left for messages above the separator.
    pub fn viewport_height(&self) -> (rows: usize)
        ensures
            rows == viewport_height(self@.height),
    {
        if self.height >= 3 {
            (self.height - 3) as usize
        } else {
            0
        }
    }

    /// The largest offset that scrolling can reach with the present log and height.
    pub fn max_offset(&self) -> (limit: usize)
        ensures
            limit == max_offset(self@.messages.len(), self@.height),
    {
        let rows = self.viewport_height();
        if self.messages.len() > rows {
            self.messages.len() - rows
        } else {
            0
        }
    }

    /// The half-open index range of the messages in the viewport.
    pub fn visible_range(&self) -> (range: (usize, usize))
        ensures
            range.0 == self@.visible_start(),
            range.1 == self@.visible_end(),
            range.0 <= range.1 <= self@.messages.len(),
            range.1 - range.0 <= viewport_height(self@.height),
    {
        let total = self.messages.len();
        let rows = self.viewport_height();
        let end = if total > self.msg_offset {
            total - self.msg_offset
        } else {
            0
        };
        let start = if end > rows {
            end - rows
        } else {
            0
        };
        (start, end)
    }

    /// Appends a message to the log. The scroll offset stays as it is, so a
    /// view that was scrolled back keeps its distance from the latest message.
    pub fn push_message(&mut self, message: Message)
        ensures
            final(self)@ == (TerminalView {
                messages: old(self)@.messages.push(message@),
                ..old(self)@
            }),
            old(self)@.wf() ==> final(self)@.wf(),
    {
        self.messages.push(message);
        assert(self@.messages =~= old(self)@.messages.push(message@));
    }

    /// Takes one line from the relay, as a client called `name`. A line with a
    /// colon is parsed and appended, and the caller repaints; a line without
    /// one is dropped and nothing changes.
    pub fn receive_line(&mut self, line: &str, name: &str) -> (repaint: bool)
        ensures
            final(self)@ == after_line(old(self)@, line@, name@),
            repaint == line@.contains(':'),
            old(self)@.wf() ==> final(self)@.wf(),
    {
        match Message::parse(line, name) {
            Some(message) => {
                self.push_message(message);
                true
            },
            None => false,
        }
    }

    /// Decides what one input event does, for a client called `name`: the new
    /// state, and what the caller must do. Enter on the quit command ends the
    /// session and sends nothing; Enter on anything else sends the input under
    /// `name` and empties it. Scrolling stops at both ends of the log, and a
    /// resize pulls the offset back into the new range.
    pub fn handle_event(&mut self, event: InputEvent, name: &str) -> (action: ClientAction)
        ensures
            final(self)@ == next_state(old(self)@, event),
            action@ == next_action(old(self)@, event, name@),
            old(self)@.wf() ==> final(self)@.wf(),
    {
        match event {
            InputEvent::Char(c) => {
                self.input_buffer.push(c);
                ClientAction::Echo(c)
            },
            InputEvent::Backspace => {
                match self.input_buffer.pop() {
                    Some(_) => {
                        assert(self@.input_buffer =~= old(self)@.input_buffer.drop_last());
                        ClientAction::Erase
                    },
                    None => ClientAction::Nothing,
                }
            },
            InputEvent::Enter => {
                let text = self.input_text();
                let quit = String::from_str("/quit");
                if text == quit {
                    ClientAction::Quit
                } else {
                    let line = Message::format(name, text.as_str());
                    self.input_buffer.clear();
                    assert(self@.input_buffer =~= Seq::empty());
                    ClientAction::Send(line)
                }
            },
            InputEvent::Up | InputEvent::ScrollUp => {
                if self.msg_offset < self.max_offset() {
                    self.msg_offset = self.msg_offset + 1;
                    ClientAction::Redraw
                } else {
                    ClientAction::Nothing
                }
            },
            InputEvent::Down | InputEvent::ScrollDown => {
                if self.msg_offset > 0 {
                    self.msg_offset = self.msg_offset - 1;
                    ClientAction::Redraw
                } else {
                    ClientAction::Nothing
                }
            },
            InputEvent::Resize(width, height) => {
                let rows: usize = if height >= 3 {
                    (height - 3) as usize
                } else {
                    0
                };
                let limit: usize = if self.messages.len() > rows {
                    self.messages.len() - rows
                } else {
                    0
                };
                if self.msg_offset > limit {
                    self.msg_offset = limit;
                }
                self.height = height;
                self.width = width;
                ClientAction::Redraw
            },
            InputEvent::Other => ClientAction::Nothing,
        }
    }

    /// The repaint of the present state as a list of display operations:
    /// clear, then each visible message on a row of its own from the top,
    /// then the separator, the input line and the cursor.
    pub fn draw(&self) -> (commands: Vec<DrawCommand>)
        ensures
            commands@.map_values(|c: DrawCommand| c@) == frame_of(self@),
    {
        let (start, end) = self.visible_range();
        let mut commands: Vec<DrawCommand> = Vec::new();
        commands.push(DrawCommand::Clear);
        commands.push(DrawCommand::MoveTo(0, 0));
        assert(commands@.map_values(|c: DrawCommand| c@) =~= frame_head() + message_rows(
            self@.messages.subrange(start as int, start as int),
        ));
        let mut i: usize = start;
        while i < end
            invariant
                start <= i <= end <= self.messages@.len(),
                end - start <= viewport_height(self@.height),
                commands@.map_values(|c: DrawCommand| c@) == frame_head() + message_rows(
                    self@.messages.subrange(start as int, i as int),
                ),
            decreases end - i,
        {
            let ghost shown = self@.messages.subrange(start as int, i as int);
            let ghost before = commands@.map_values(|c: DrawCommand| c@);
            let row: u16 = (i - start) as u16;
            let text = self.messages[i].display();
            commands.push(DrawCommand::MoveTo(0, row));
            commands.push(DrawCommand::Print(text));
            proof {
                lemma_message_rows_push(shown, self@.messages[i as int]);
                assert(self@.messages.subrange(start as int, i + 1) =~= shown.push(
                    self@.messages[i as int],
                ));
                assert(commands@.map_values(|c: DrawCommand| c@) =~= before.push(
                    DrawCommandView::MoveTo(0, row),
                ).push(DrawCommandView::Print(text@)));
            }
            i += 1;
            assert(commands@.map_values(|c: DrawCommand| c@) =~= frame_head() + message_rows(
                self@.messages.subrange(start as int, i as int),
            ));
        }
        let mut separator = String::new();
        let mut k: u16 = 0;
        while k < self.width
            invariant
                k <= self.width,
                separator@ == separator_line(k),
            decreases self.width - k,
        {
            separator.push('_');
            k += 1;
            assert(separator@ =~= separator_line(k));
        }
        let mut input_line = String::from_str(" Message: ");
        input_line.append(self.input_text().as_str());
        let separator_row: u16 = if self.height >= 3 {
            self.height - 3
        } else {
            0
        };
        let cursor = self.get_input_position();
        commands.push(DrawCommand::MoveTo(0, separator_row));
        commands.push(DrawCommand::Print(separator));
        commands.push(DrawCommand::MoveTo(0, cursor.1));
        commands.push(DrawCommand::Print(input_line));
        commands.push(DrawCommand::MoveTo(cursor.0, cursor.1));
        assert(commands@.map_values(|c: DrawCommand| c@) =~= frame_of(self@));
        commands
    }
}

/// No event moves the scroll offset out of its range.
pub proof fn lemma_event_keeps_clamp(t: TerminalView, e: InputEvent)
    requires
        t.wf(),
    ensures
        next_state(t, e).wf(),
{
}

/// An arriving line never moves the scroll offset out of its range.
pub proof fn lemma_line_keeps_clamp(t: TerminalView, line: Seq<char>, name: Seq<char>)
    requires
        t.wf(),
    ensures
        after_line(t, line, name).wf(),
{
}

/// Scroll clamp: however long a sequence of events is, and whatever it mixes
/// of scrolling, typing and resizing, the offset stays within
/// `[0, max(0, messages - viewport height)]`.
pub proof fn lemma_scroll_clamp(t: TerminalView, events: Seq<InputEvent>)
    requires
        t.wf(),
    ensures
        after_events(t, events).wf(),
    decreases events.len(),
{
    if events.len() > 0 {
        lemma_scroll_clamp(t, events.drop_last());
        lemma_event_keeps_clamp(after_events(t, events.drop_last()), events.last());
    }
}

/// Quit sentinel: Enter on exactly the quit command ends the session, and
/// only then; the action carries no line and the state is left as it was.
/// A line is handed out for sending by Enter alone.
pub proof fn lemma_quit_sends_nothing(t: TerminalView, e: InputEvent, name: Seq<char>)
    ensures
        next_action(t, e, name) is Quit <==> (e is Enter && t.input_buffer == quit_command()),
        next_action(t, e, name) is Quit ==> next_state(t, e) == t,
        next_action(t, e, name) is Send ==> (e is Enter && t.input_buffer != quit_command()),
{
}

} // verus!
